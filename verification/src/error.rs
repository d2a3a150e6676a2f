//! Per-connection protocol error conditions. Every one of them is recoverable
//! at the worker level: the offending connection is retired, the rest of the
//! simulated load continues.

use vstd::prelude::*;

verus! {

/// What can go wrong while decoding a connection's byte stream or encoding an
/// outgoing message.
#[derive(Clone, Copy, Debug, PartialEq, Eq, Structural)]
pub enum ProtoError {
    /// A read ran past the bytes currently available.
    BufferUnderflow,
    /// A variable-length integer had no terminating byte within five bytes,
    /// or its value does not fit in 32 bits.
    VarIntTooLong,
    /// A frame declared a length of zero, which no protocol message has.
    ZeroLengthFrame,
    /// An outgoing frame would need a length prefix of more than three bytes.
    OversizedFrame,
    /// The compressed section of a frame did not decompress.
    CompressionError,
}

} // verus!
