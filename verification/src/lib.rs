//! Pipelined processor-graph runtime for columnar query execution: port-based
//! flow control between processors, an event-driven scheduler, and an exchange
//! layer that ships serialized blocks to remote fragments with backpressure.

pub mod block;
pub mod channel;
pub mod datatype;
pub mod decimal;
pub mod errors;
pub mod exchange_source;
pub mod iceberg;
pub mod frame;
pub mod manager;
pub mod pipeline;
pub mod port;
pub mod processor;
pub mod sink;
pub mod source;
