use pipeflow::block::ColumnarBlock;
use pipeflow::channel::TrySendOutcome;
use pipeflow::manager::ExchangeManager;
use pipeflow::port::Port;
use pipeflow::processor::Event;
use pipeflow::sink::{ExchangeMergeSink, MergeExchangeParams};

fn sink_for(query: &str, dest: &str) -> ExchangeMergeSink {
    ExchangeMergeSink::try_create(MergeExchangeParams {
        query_id: query.to_string(),
        destination_id: dest.to_string(),
    })
    .unwrap()
}

fn rows_block(vals: Vec<i64>) -> ColumnarBlock {
    let n = vals.len();
    ColumnarBlock::new(n, vec![vals], false).unwrap()
}

#[test]
fn idempotent_channel_creation() {
    let mut mgr = ExchangeManager::new(4);
    let a = mgr.get_or_create_publish_channel(&"q1".to_string(), &"node2".to_string());
    let b = mgr.get_or_create_publish_channel(&"q1".to_string(), &"node2".to_string());
    assert_eq!(a, b);
    assert_eq!(mgr.num_channels(), 1);
    let c = mgr.get_or_create_publish_channel(&"q1".to_string(), &"node3".to_string());
    assert_ne!(a, c);
    assert_eq!(mgr.num_channels(), 2);
    // the two handles reach the same underlying queue
    match mgr.try_send_on(a, vec![9, 9]) {
        TrySendOutcome::Sent => {}
        _ => panic!("send on a fresh channel must succeed"),
    }
    let got = mgr.try_recv_on(b).expect("the frame sent via the first handle");
    assert_eq!(got, vec![9, 9]);
}

#[test]
fn backpressure_saturated_channel_suspends_sink() {
    let mut mgr = ExchangeManager::new(1);
    let q = "q1".to_string();
    let d = "node2".to_string();
    let i = mgr.get_or_create_publish_channel(&q, &d);
    match mgr.try_send_on(i, vec![0]) {
        TrySendOutcome::Sent => {}
        _ => panic!("first frame must fit"),
    }
    // the channel is now saturated; give the sink a block to flush
    let mut sink = sink_for("q1", "node2");
    let mut port = Port::new();
    port.set_need_data();
    port.push(rows_block(vec![1, 2, 3]));
    assert_eq!(sink.event(&mut port, &mut mgr).unwrap(), Event::Sync);
    sink.process().unwrap();
    // the sink now holds a serialized frame; the saturated channel suspends it
    assert_eq!(sink.event(&mut port, &mut mgr).unwrap(), Event::Async);
    // backpressure: the input port was not touched while suspended
    port.set_need_data();
    port.push(rows_block(vec![4]));
    assert!(port.has_data());
    assert_eq!(sink.event(&mut port, &mut mgr).unwrap(), Event::Async);
    assert!(port.has_data(), "a suspended sink must not drain its input");
    // drain one frame: the suspending step can now deliver
    assert!(mgr.try_recv_on(i).is_some());
    sink.async_process(&mut mgr).unwrap();
    assert_eq!(sink.event(&mut port, &mut mgr).unwrap(), Event::Sync);
}

#[test]
fn empty_block_is_a_no_op() {
    let mut mgr = ExchangeManager::new(4);
    let mut sink = sink_for("q1", "node2");
    let mut port = Port::new();
    port.set_need_data();
    port.push(ColumnarBlock::empty());
    assert_eq!(sink.event(&mut port, &mut mgr).unwrap(), Event::Sync);
    sink.process().unwrap();
    // no frame came out of a zero-row block, and no channel was even created
    assert_eq!(sink.event(&mut port, &mut mgr).unwrap(), Event::NeedData);
    assert_eq!(mgr.num_channels(), 0);
}

#[test]
fn closed_channel_finishes_sink_and_its_input() {
    let mut mgr = ExchangeManager::new(4);
    let q = "q1".to_string();
    let d = "node2".to_string();
    let i = mgr.get_or_create_publish_channel(&q, &d);
    mgr.close_on(i);
    let mut sink = sink_for("q1", "node2");
    let mut port = Port::new();
    port.set_need_data();
    port.push(rows_block(vec![5]));
    assert_eq!(sink.event(&mut port, &mut mgr).unwrap(), Event::Sync);
    sink.process().unwrap();
    assert_eq!(sink.event(&mut port, &mut mgr).unwrap(), Event::Finished);
    assert!(port.is_finished(), "a gone downstream stops the upstream eagerly");
}

#[test]
fn dict_encoded_block_is_refused() {
    let mut sink = sink_for("q1", "node2");
    let mut mgr = ExchangeManager::new(4);
    let mut port = Port::new();
    port.set_need_data();
    port.push(ColumnarBlock::new(2, vec![vec![1, 2]], true).unwrap());
    assert_eq!(sink.event(&mut port, &mut mgr).unwrap(), Event::Sync);
    assert_eq!(sink.process(), Err(pipeflow::errors::ErrorCode::UnImplement));
}

#[test]
fn cancel_query_tears_down_only_its_channels() {
    let mut mgr = ExchangeManager::new(4);
    let _a = mgr.get_or_create_publish_channel(&"q1".to_string(), &"node2".to_string());
    let _b = mgr.get_or_create_publish_channel(&"q1".to_string(), &"node3".to_string());
    let _c = mgr.get_or_create_publish_channel(&"q2".to_string(), &"node2".to_string());
    assert_eq!(mgr.num_channels(), 3);
    mgr.cancel_query(&"q1".to_string());
    assert_eq!(mgr.num_channels(), 1);
    let c2 = mgr.get_or_create_publish_channel(&"q2".to_string(), &"node2".to_string());
    assert_eq!(mgr.num_channels(), 1);
    match mgr.try_send_on(c2, vec![1]) {
        TrySendOutcome::Sent => {}
        _ => panic!("the surviving query's channel must stay usable"),
    }
}

#[test]
fn sink_name_is_stable() {
    let sink = sink_for("q", "d");
    assert_eq!(sink.name(), "ExchangeSink");
}
