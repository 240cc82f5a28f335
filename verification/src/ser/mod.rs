//! OSC packet encoding.

use vstd::prelude::*;

pub mod bundle_serializer;
pub mod msg_serializer;
pub mod osc_writer;
pub mod pkt_serializer;
pub mod pkt_type_decoder;
pub mod timetag_ser;

use crate::error::Error;
use crate::oscarg::Packet;
use crate::wire::{enc_packet, lemma_enc_packet_len, packet_fits, payload_of};
use crate::Framing;

pub use pkt_serializer::PktSerializer as Serializer;

verus! {

/// Serializes one packet into a byte vector.
///
/// With `Framing::Framed` the result starts with the packet's `i32`
/// length prefix; with `Framing::Unframed` it is the bare payload. A
/// packet whose sizes cannot be counted in `i32`s is refused.
pub fn to_vec(value: &Packet, framing: Framing) -> (r: Result<Vec<u8>, Error>)
    ensures
        match r {
            Ok(v) => packet_fits(value@) && match framing {
                Framing::Framed => v@ == enc_packet(value@),
                Framing::Unframed => v@ == payload_of(value@),
            },
            Err(e) => !packet_fits(value@) && e == Error::BadCast,
        },
{
    let mut ser = pkt_serializer::PktSerializer::new(Vec::new());
    match ser.serialize_packet(value) {
        Ok(()) => {},
        Err(e) => { return Err(e) },
    }
    let framed = ser.into_inner();
    proof {
        assert(framed@ =~= enc_packet(value@));
        lemma_enc_packet_len(value@);
    }
    match framing {
        Framing::Framed => Ok(framed),
        Framing::Unframed => {
            // the machine frames every packet; the bare payload is what
            // follows the 4-byte length prefix
            let mut payload: Vec<u8> = Vec::new();
            let mut i: usize = 4;
            while i < framed.len()
                invariant
                    4 <= i <= framed@.len(),
                    framed@ == enc_packet(value@),
                    framed@.len() == 4 + payload_of(value@).len(),
                    payload@ == framed@.subrange(4, i as int),
                decreases framed@.len() - i,
            {
                payload.push(framed[i]);
                proof {
                    assert(payload@ =~= framed@.subrange(4, i + 1));
                }
                i = i + 1;
            }
            proof {
                assert(payload@ =~= payload_of(value@));
            }
            Ok(payload)
        },
    }
}

} // verus!
