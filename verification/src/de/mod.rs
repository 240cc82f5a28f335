//! OSC packet decoding.

use vstd::prelude::*;

pub mod arg_visitor;
pub mod bundle_visitor;
pub mod msg_visitor;
pub mod osc_reader;
pub mod pkt_deserializer;

use crate::error::Error;
use crate::oscarg::{Packet, PacketV};
use crate::wire::{dec_framed, dec_unframed};
use crate::Framing;

pub use pkt_deserializer::PktDeserializer as Deserializer;

verus! {

/// Deserializes one OSC packet from a byte slice.
///
/// With `Framing::Framed` the slice starts with the packet's `i32`
/// length prefix, and bytes after the packet are ignored, as they belong
/// to the next packet of the stream. With `Framing::Unframed` the whole
/// slice is one packet's payload.
///
/// Within a packet the declared length must be met exactly: a message
/// payload holding bytes beyond its declared arguments is rejected with
/// `BadFormat` rather than silently drained.
pub fn from_slice(bytes: &[u8], framing: Framing) -> (r: Result<Packet, Error>)
    ensures
        match framing {
            Framing::Framed => match r {
                Ok(p) => dec_framed(bytes@) == Ok::<_, Error>(p@),
                Err(e) => dec_framed(bytes@) == Err::<PacketV, _>(e),
            },
            Framing::Unframed => match r {
                Ok(p) => dec_unframed(bytes@) == Ok::<_, Error>(p@),
                Err(e) => dec_unframed(bytes@) == Err::<PacketV, _>(e),
            },
        },
{
    match framing {
        Framing::Framed => {
            match pkt_deserializer::parse_packet(bytes, 0, bytes.len()) {
                Ok((p, _)) => Ok(p),
                Err(e) => Err(e),
            }
        },
        Framing::Unframed => {
            if bytes.len() > 0x7fffffff {
                Err(Error::BadCast)
            } else {
                pkt_deserializer::parse_payload(bytes, 0, bytes.len())
            }
        },
    }
}

} // verus!
