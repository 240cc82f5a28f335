//! Encoding and decoding of Open Sound Control (OSC) 1.0 packets.
//!
//! An OSC packet is either a *message* (an address string followed by a
//! sequence of typed arguments) or a *bundle* (a time tag followed by a
//! sequence of nested packets). On the wire every packet is framed as a
//! big-endian `i32` length followed by that many bytes of payload, and
//! every field is aligned to a 4-byte boundary.
//!
//! The wire format is modelled by spec functions in [`wire`]; the
//! executable encoder and decoder are proved to implement that model.

use vstd::prelude::*;

pub mod de;
pub mod error;
pub mod maybeskipcomma;
pub mod oscarg;
pub mod properties;
pub mod ser;
pub mod wire;

pub use de::from_slice;
pub use ser::to_vec;

verus! {

/// Whether a top-level packet on the wire carries its `i32` length prefix.
///
/// `Framed` is the form used on stream transports; `Unframed` means the
/// caller supplies (or receives) exactly one packet's payload with no
/// length prefix.
#[derive(Clone, Copy, Debug, PartialEq, Eq, Structural)]
pub enum Framing {
    Framed,
    Unframed,
}

/// Number of fields a record maps to when bound to an OSC packet.
///
/// Offered for data-binding layers that need to know a record's arity
/// before driving the encoder.
pub trait NumFields {
    fn num_fields() -> usize;
}

} // verus!
