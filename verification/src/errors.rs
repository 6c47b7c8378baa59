//! Error taxonomy of the runtime: capability errors abort the owning
//! pipeline, transport failures are fatal to the local fragment, and
//! malformed table metadata is reported to the caller.

use vstd::prelude::*;

verus! {

/// Errors surfaced by the pipeline and exchange layer.
#[derive(Clone, Copy, Debug, PartialEq, Eq, Structural)]
pub enum ErrorCode {
    /// A capability the runtime refuses: a producer that would emit
    /// auxiliary dictionary pages in a wire frame.
    UnImplement,
    /// A send on a publish channel failed because the channel was closed
    /// while a frame was still owed to it.
    SendClosed,
    /// Table metadata (a version hint or a metadata document) could not
    /// be read as the expected value.
    ReadTableData,
    /// A wire frame could not be materialized back into a block.
    MalformedFrame,
    /// A constant value of the wrong kind was handed to a column type.
    BadDataValueType,
}

impl ErrorCode {
    /// A short, stable description of the error for diagnostics.
    pub fn message(&self) -> (r: &'static str)
        ensures
            *self == ErrorCode::UnImplement ==> r@ == "dictionary pages are not implemented"@,
            *self == ErrorCode::SendClosed ==> r@ == "cannot publish frame: the channel is closed"@,
            *self == ErrorCode::ReadTableData ==> r@ == "invalid table metadata"@,
            *self == ErrorCode::MalformedFrame ==> r@ == "malformed wire frame"@,
            *self == ErrorCode::BadDataValueType ==> r@ == "unexpected kind of constant value"@,
    {
        match self {
            ErrorCode::UnImplement => "dictionary pages are not implemented",
            ErrorCode::SendClosed => "cannot publish frame: the channel is closed",
            ErrorCode::ReadTableData => "invalid table metadata",
            ErrorCode::MalformedFrame => "malformed wire frame",
            ErrorCode::BadDataValueType => "unexpected kind of constant value",
        }
    }
}

} // verus!
