use pipeflow::block::ColumnarBlock;
use pipeflow::errors::ErrorCode;
use pipeflow::frame::serialize_block;
use pipeflow::manager::ExchangeManager;
use pipeflow::pipeline::{execute, Pipeline};
use pipeflow::sink::{ExchangeMergeSink, MergeExchangeParams};
use pipeflow::exchange_source::ExchangeSourceProcessor;
use pipeflow::port::Port;
use pipeflow::processor::Event;
use pipeflow::source::BlockSource;

fn sink_for(query: &str, dest: &str) -> ExchangeMergeSink {
    ExchangeMergeSink::try_create(MergeExchangeParams {
        query_id: query.to_string(),
        destination_id: dest.to_string(),
    })
    .unwrap()
}

fn block_of(rows: usize) -> ColumnarBlock {
    let col: Vec<i64> = (0..rows as i64).collect();
    ColumnarBlock::new(rows, vec![col], false).unwrap()
}

#[test]
fn two_stage_pipeline_emits_one_frame_per_nonempty_block() {
    // one source emitting blocks of 10, 0 and 5 rows, one sink
    let mut source = BlockSource::new();
    source.add_block(block_of(10));
    source.add_block(block_of(0));
    source.add_block(block_of(5));
    let mut p = Pipeline::new(source, sink_for("q7", "node2"));
    let mut mgr = ExchangeManager::new(8);
    let mut delivered: Vec<Vec<u8>> = Vec::new();
    execute(&mut p, &mut mgr, &mut delivered).unwrap();
    assert!(p.port.is_finished());
    assert!(!p.port.has_data());
    // nothing was saturated, so nothing went through the reactor
    assert!(delivered.is_empty());
    // exactly two wire frames, for the 10-row and the 5-row block, in order
    let i = mgr.get_or_create_publish_channel(&"q7".to_string(), &"node2".to_string());
    let f1 = mgr.try_recv_on(i).expect("frame of the 10-row block");
    let f2 = mgr.try_recv_on(i).expect("frame of the 5-row block");
    assert!(mgr.try_recv_on(i).is_none());
    assert_eq!(f1, serialize_block(&block_of(10)));
    assert_eq!(f2, serialize_block(&block_of(5)));
}

#[test]
fn pipeline_terminates_under_saturation() {
    // a channel of capacity one forces the suspending path on every frame
    let mut source = BlockSource::new();
    for rows in [1usize, 2, 3, 4] {
        source.add_block(block_of(rows));
    }
    let mut p = Pipeline::new(source, sink_for("q8", "node9"));
    let mut mgr = ExchangeManager::new(1);
    let mut delivered: Vec<Vec<u8>> = Vec::new();
    execute(&mut p, &mut mgr, &mut delivered).unwrap();
    assert!(p.port.is_finished());
    let i = mgr.get_or_create_publish_channel(&"q8".to_string(), &"node9".to_string());
    let mut all = delivered;
    while let Some(f) = mgr.try_recv_on(i) {
        all.push(f);
    }
    let expected: Vec<Vec<u8>> =
        [1usize, 2, 3, 4].iter().map(|r| serialize_block(&block_of(*r))).collect();
    assert_eq!(all, expected);
}

#[test]
fn all_empty_blocks_create_no_channel() {
    let mut source = BlockSource::new();
    source.add_block(block_of(0));
    source.add_block(block_of(0));
    let mut p = Pipeline::new(source, sink_for("q9", "node1"));
    let mut mgr = ExchangeManager::new(4);
    let mut delivered: Vec<Vec<u8>> = Vec::new();
    execute(&mut p, &mut mgr, &mut delivered).unwrap();
    assert!(p.port.is_finished());
    assert_eq!(mgr.num_channels(), 0);
    assert!(delivered.is_empty());
}

#[test]
fn dict_encoded_block_aborts_the_pipeline() {
    let mut source = BlockSource::new();
    source.add_block(block_of(2));
    source.add_block(ColumnarBlock::new(2, vec![vec![1, 2]], true).unwrap());
    let mut p = Pipeline::new(source, sink_for("q10", "node1"));
    let mut mgr = ExchangeManager::new(4);
    let mut delivered: Vec<Vec<u8>> = Vec::new();
    let r = execute(&mut p, &mut mgr, &mut delivered);
    assert_eq!(r, Err(ErrorCode::UnImplement));
    // the abort force-finishes the port and tears the query's channels down
    assert!(p.port.is_finished());
    assert_eq!(mgr.num_channels(), 0);
}

#[test]
fn exchange_source_materializes_the_shipped_blocks() {
    // ship two blocks through a sink pipeline
    let mut source = BlockSource::new();
    source.add_block(block_of(2));
    source.add_block(block_of(3));
    let mut p = Pipeline::new(source, sink_for("q12", "node5"));
    let mut mgr = ExchangeManager::new(8);
    let mut delivered: Vec<Vec<u8>> = Vec::new();
    execute(&mut p, &mut mgr, &mut delivered).unwrap();
    let i = mgr.get_or_create_publish_channel(&"q12".to_string(), &"node5".to_string());
    // the stream ends after those frames
    mgr.close_on(i);
    // drain the channel through the receive-side boundary processor
    let mut rx = ExchangeSourceProcessor::create(i);
    let mut out = Port::new();
    let mut blocks: Vec<ColumnarBlock> = Vec::new();
    loop {
        match rx.event(&mut out) {
            Event::Finished => break,
            Event::Async => rx.async_process(&mut mgr).unwrap(),
            Event::NeedData => {
                if out.has_data() {
                    blocks.push(out.pull());
                }
                out.set_need_data();
            }
            Event::Sync => unreachable!("an exchange source has no CPU-only step"),
        }
    }
    assert!(out.is_finished());
    assert_eq!(blocks.len(), 2);
    assert_eq!(blocks[0].num_rows(), 2);
    assert_eq!(blocks[1].num_rows(), 3);
    for (got, rows) in blocks.iter().zip([2usize, 3]) {
        let want = block_of(rows);
        for c in 0..got.num_columns() {
            for r in 0..rows {
                assert_eq!(got.value_at(c, r), want.value_at(c, r));
            }
        }
    }
}

#[test]
fn empty_source_finishes_immediately() {
    let source = BlockSource::new();
    let mut p = Pipeline::new(source, sink_for("q11", "node1"));
    let mut mgr = ExchangeManager::new(4);
    let mut delivered: Vec<Vec<u8>> = Vec::new();
    execute(&mut p, &mut mgr, &mut delivered).unwrap();
    assert!(p.port.is_finished());
    assert_eq!(mgr.num_channels(), 0);
}
