use pipeflow::block::ColumnarBlock;
use pipeflow::port::Port;

fn one_row_block(v: i64) -> ColumnarBlock {
    ColumnarBlock::new(1, vec![vec![v]], false).unwrap()
}

#[test]
fn port_fifo_order() {
    let mut port = Port::new();
    assert!(!port.has_data());
    port.set_need_data();
    port.push(one_row_block(1));
    assert!(port.has_data());
    let b1 = port.pull();
    assert_eq!(b1.value_at(0, 0), 1);
    assert!(!port.has_data());
    port.set_need_data();
    port.push(one_row_block(2));
    assert!(port.has_data());
    let b2 = port.pull();
    assert_eq!(b2.value_at(0, 0), 2);
    assert!(!port.has_data());
}

#[test]
fn port_single_in_flight() {
    let mut port = Port::new();
    port.set_need_data();
    assert!(port.can_push());
    port.push(one_row_block(7));
    // one block is in flight: a second push is not allowed until a pull
    assert!(!port.can_push());
    assert!(port.has_data());
    let _ = port.pull();
    port.set_need_data();
    assert!(port.can_push());
}

#[test]
fn port_finish_is_permanent_and_idempotent() {
    let mut port = Port::new();
    port.set_need_data();
    port.push(one_row_block(3));
    port.finish();
    assert!(port.is_finished());
    assert!(!port.has_data());
    assert!(!port.can_push());
    port.finish();
    assert!(port.is_finished());
    assert!(!port.has_data());
}

#[test]
fn fresh_port_state() {
    let port = Port::new();
    assert!(!port.has_data());
    assert!(!port.is_finished());
    assert!(!port.can_push());
}
