//! Reading the rest of a bundle payload, once the `#bundle` marker has
//! been consumed.

use vstd::prelude::*;

use crate::error::Error;
use crate::oscarg::{elements_view, lemma_elements_view_push, Packet, PacketV, TimeTag};
use crate::de::osc_reader::parse_timetag;
use crate::de::pkt_deserializer::parse_packet;
use crate::wire::{dec_bundle_rest, dec_elements};

verus! {

/// Reads a bundle's time tag and then its elements, each a fully
/// length-prefixed packet, until the payload window is exhausted.
pub struct BundleVisitor {}

impl BundleVisitor {
    pub fn new() -> (r: Self) {
        BundleVisitor {  }
    }

    /// Parses the bundle payload in `[pos, end)`.
    #[verifier::loop_isolation(false)]
    pub fn deserialize(self, bytes: &[u8], pos: usize, end: usize) -> (r: Result<Packet, Error>)
        requires
            pos <= end <= bytes@.len(),
        ensures
            match r {
                Ok(p) => dec_bundle_rest(bytes@, pos as int, end as int) == Ok::<_, Error>(p@),
                Err(e) => dec_bundle_rest(bytes@, pos as int, end as int) == Err::<PacketV, _>(e),
            },
        decreases end - pos, 2int,
    {
        let ((sec, frac), start) = match parse_timetag(bytes, pos, end) {
            Ok(r) => r,
            Err(e) => { return Err(e) },
        };
        let mut elements: Vec<Packet> = Vec::new();
        let mut cur = start;
        loop
            invariant
                pos + 8 == start,
                start <= cur <= end <= bytes@.len(),
                match dec_elements(bytes@, cur as int, end as int) {
                    Ok(rest) => dec_elements(bytes@, start as int, end as int) == Ok::<_, Error>(
                        elements_view(elements@, 0) + rest,
                    ),
                    Err(e) => dec_elements(bytes@, start as int, end as int) == Err::<
                        Seq<PacketV>,
                        _,
                    >(e),
                },
            decreases end - cur,
        {
            if cur >= end {
                proof {
                    assert(elements_view(elements@, 0) + Seq::empty() =~= elements_view(
                        elements@,
                        0,
                    ));
                }
                return Ok(Packet::Bundle { time: TimeTag { sec, frac }, elements });
            }
            let ghost elements0 = elements@;
            match parse_packet(bytes, cur, end) {
                Ok((p, np)) => {
                    proof {
                        lemma_elements_view_push(elements0, p, 0);
                    }
                    let ghost pv = p@;
                    elements.push(p);
                    proof {
                        match dec_elements(bytes@, np as int, end as int) {
                            Ok(rest2) => {
                                assert(elements_view(elements0, 0) + (seq![pv] + rest2)
                                    =~= elements_view(elements@, 0) + rest2);
                            },
                            Err(_) => {},
                        }
                    }
                    cur = np;
                },
                Err(e) => {
                    return Err(e);
                },
            }
        }
    }
}

} // verus!
