use pipeflow::block::ColumnarBlock;
use pipeflow::errors::ErrorCode;
use pipeflow::frame::{materialize_frame, serialize_block};

fn le(n: u64) -> Vec<u8> {
    n.to_le_bytes().to_vec()
}

#[test]
fn frame_layout_is_counts_then_column_major_values() {
    let b = ColumnarBlock::new(2, vec![vec![1, 2], vec![3, 4]], false).unwrap();
    let frame = serialize_block(&b);
    let mut expected = Vec::new();
    expected.extend(le(2)); // columns
    expected.extend(le(2)); // rows
    expected.extend(le(1));
    expected.extend(le(2));
    expected.extend(le(3));
    expected.extend(le(4));
    assert_eq!(frame, expected);
}

#[test]
fn frame_of_empty_block_is_header_only() {
    let frame = serialize_block(&ColumnarBlock::empty());
    assert_eq!(frame, vec![0u8; 16]);
}

#[test]
fn negative_values_are_twos_complement() {
    let b = ColumnarBlock::new(1, vec![vec![-1]], false).unwrap();
    let frame = serialize_block(&b);
    let mut expected = Vec::new();
    expected.extend(le(1));
    expected.extend(le(1));
    expected.extend(vec![0xffu8; 8]);
    assert_eq!(frame, expected);
}

#[test]
fn frame_round_trip_restores_the_block() {
    let b = ColumnarBlock::new(3, vec![vec![1, -2, 3], vec![-4, 5, -6]], false).unwrap();
    let frame = serialize_block(&b);
    let back = materialize_frame(&frame).unwrap();
    assert_eq!(back.num_rows(), 3);
    assert_eq!(back.num_columns(), 2);
    assert!(!back.is_dict_encoded());
    for c in 0..2 {
        for r in 0..3 {
            assert_eq!(back.value_at(c, r), b.value_at(c, r));
        }
    }
    assert_eq!(serialize_block(&back), frame);
}

#[test]
fn malformed_frames_are_rejected() {
    assert!(matches!(materialize_frame(&vec![]), Err(ErrorCode::MalformedFrame)));
    assert!(matches!(materialize_frame(&vec![0u8; 15]), Err(ErrorCode::MalformedFrame)));
    // header announces one 1-column, 1-row block but carries no value bytes
    let mut short = Vec::new();
    short.extend(1u64.to_le_bytes());
    short.extend(1u64.to_le_bytes());
    assert!(matches!(materialize_frame(&short), Err(ErrorCode::MalformedFrame)));
    // trailing garbage after the announced values
    let b = ColumnarBlock::new(1, vec![vec![5]], false).unwrap();
    let mut long = serialize_block(&b);
    long.push(0);
    assert!(matches!(materialize_frame(&long), Err(ErrorCode::MalformedFrame)));
    // absurd counts cannot claim a matching length
    let mut huge = Vec::new();
    huge.extend(u64::MAX.to_le_bytes());
    huge.extend(u64::MAX.to_le_bytes());
    huge.extend([0u8; 8]);
    assert!(matches!(materialize_frame(&huge), Err(ErrorCode::MalformedFrame)));
}

#[test]
fn block_shape_is_checked() {
    assert!(ColumnarBlock::new(2, vec![vec![1, 2], vec![3]], false).is_none());
    let b = ColumnarBlock::new(2, vec![vec![1, 2]], false).unwrap();
    assert_eq!(b.num_rows(), 2);
    assert_eq!(b.num_columns(), 1);
    assert!(!b.is_empty());
    assert!(!b.is_dict_encoded());
    assert_eq!(b.value_at(0, 1), 2);
}
