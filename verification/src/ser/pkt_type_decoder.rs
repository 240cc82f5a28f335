//! The encoder-side probe that classifies a packet by its first field.
//!
//! Encoding cannot know in advance whether a record is a message or a
//! bundle: the first field decides. A string is a message address; a
//! time tag opens a bundle. The probe buffers the bytes that field
//! produces, so the chosen encoder can be seeded with them.

use vstd::prelude::*;
use vstd::utf8::encode_utf8;

use crate::oscarg::TimeTag;
use crate::ser::osc_writer::{osc_write_str, osc_write_timetag};
use crate::wire::{enc_padded, enc_u32};

verus! {

/// What the first field of a packet-opening sequence turned out to be.
#[derive(Copy, Clone, Debug, PartialEq, Eq, Structural)]
pub enum PktType {
    /// Nothing classified yet.
    Unknown,
    /// The first field was a string: the packet is a message.
    Msg,
    /// The first field was a time tag: the packet is a bundle.
    Bundle,
}

/// One-shot sink for the first field of a packet.
pub struct PktTypeDecoder {
    output: Vec<u8>,
    pkt_type: PktType,
}

impl PktTypeDecoder {
    /// The bytes the probed field produced.
    pub closed spec fn data_view(&self) -> Seq<u8> {
        self.output@
    }

    pub closed spec fn pkt_type_spec(&self) -> PktType {
        self.pkt_type
    }

    pub fn new() -> (r: Self)
        ensures
            r.pkt_type_spec() is Unknown,
            r.data_view() == Seq::<u8>::empty(),
    {
        let r = PktTypeDecoder { output: Vec::new(), pkt_type: PktType::Unknown };
        proof {
            assert(r.data_view() =~= Seq::<u8>::empty());
        }
        r
    }

    /// The classification so far.
    pub fn pkt_type(&self) -> (r: PktType)
        ensures
            r == self.pkt_type_spec(),
    {
        self.pkt_type
    }

    /// Hands the buffered bytes over to the chosen encoder.
    pub fn data(self) -> (r: Vec<u8>)
        ensures
            r@ == self.data_view(),
    {
        self.output
    }

    /// A string as first field: the packet is a message and the string
    /// is its address, emitted padded.
    pub fn serialize_str(&mut self, value: &str)
        requires
            old(self).pkt_type_spec() is Unknown,
        ensures
            final(self).pkt_type_spec() is Msg,
            final(self).data_view() == old(self).data_view() + enc_padded(encode_utf8(value@)),
    {
        osc_write_str(&mut self.output, value);
        self.pkt_type = PktType::Msg;
    }

    /// A completed time tag as first field: the packet is a bundle and
    /// the tag's eight bytes open its payload.
    pub fn accept_timetag(&mut self, tag: TimeTag)
        requires
            old(self).pkt_type_spec() is Unknown,
        ensures
            final(self).pkt_type_spec() is Bundle,
            final(self).data_view() == old(self).data_view() + enc_u32(tag.sec) + enc_u32(tag.frac),
    {
        osc_write_timetag(&mut self.output, tag);
        self.pkt_type = PktType::Bundle;
    }
}

} // verus!
