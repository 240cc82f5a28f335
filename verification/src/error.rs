//! The failure taxonomy shared by the encoder and the decoder.

use vstd::prelude::*;

verus! {

/// Why an encode or decode operation failed.
///
/// No partial result is produced on failure: the first violation aborts
/// the enclosing operation and is returned as one of these.
#[derive(Clone, Debug)]
pub enum Error {
    /// Diagnostic text supplied by a data-binding layer driving the codec.
    Message(String),
    /// A type tag outside `{i, f, s, b}`, or an argument of a kind that
    /// OSC 1.0 cannot carry.
    UnsupportedType,
    /// A structural violation: negative packet length, a payload whose
    /// size is not a multiple of four, a time tag with the wrong arity,
    /// or a packet with no contents.
    BadFormat,
    /// A zero padding byte that was not zero on input.
    BadPadding,
    /// The underlying byte stream was exhausted before the field that was
    /// being read was complete.
    Io,
    /// A size or length that does not fit in the integer width the wire
    /// format assigns to it.
    BadCast,
    /// String bytes that are not valid UTF-8.
    BadString,
}

} // verus!
