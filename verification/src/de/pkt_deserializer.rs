//! Reading whole length-prefixed packets.

use vstd::prelude::*;

use crate::error::Error;
use crate::oscarg::{Packet, PacketV};
use crate::de::bundle_visitor::BundleVisitor;
use crate::de::msg_visitor::MsgVisitor;
use crate::de::osc_reader::{parse_i32, read_0term_bytes, string_from_utf8};
use crate::wire::{bundle_lit, dec_packet, dec_payload};

verus! {

/// Whether the byte string is exactly the `#bundle` marker.
fn is_bundle_lit(v: &Vec<u8>) -> (r: bool)
    ensures
        r == (v@ == bundle_lit()),
{
    if v.len() != 7 {
        proof {
            assert(v@.len() != bundle_lit().len());
        }
        return false;
    }
    let r = v[0] == 35 && v[1] == 98 && v[2] == 117 && v[3] == 110 && v[4] == 100 && v[5] == 108
        && v[6] == 101;
    proof {
        if r {
            assert(v@ =~= bundle_lit());
        }
    }
    r
}

/// Parses one packet payload in `[pos, end)`: the first padded string
/// picks the variant, and the matching reader consumes the rest.
pub fn parse_payload(bytes: &[u8], pos: usize, end: usize) -> (r: Result<Packet, Error>)
    requires
        pos <= end <= bytes@.len(),
    ensures
        match r {
            Ok(p) => dec_payload(bytes@, pos as int, end as int) == Ok::<_, Error>(p@),
            Err(e) => dec_payload(bytes@, pos as int, end as int) == Err::<PacketV, _>(e),
        },
    decreases end - pos, 3int,
{
    let (head, np) = match read_0term_bytes(bytes, pos, end) {
        Ok(r) => r,
        Err(e) => { return Err(e) },
    };
    if is_bundle_lit(&head) {
        BundleVisitor::new().deserialize(bytes, np, end)
    } else {
        match string_from_utf8(head) {
            Some(address) => MsgVisitor::new(address).deserialize(bytes, np, end),
            None => Err(Error::BadString),
        }
    }
}

/// Parses one length-prefixed packet starting at `pos`: the `i32`
/// length must be non-negative and covered by the window, and the
/// payload is read as a bounded sub-window consumed in full.
pub fn parse_packet(bytes: &[u8], pos: usize, end: usize) -> (r: Result<(Packet, usize), Error>)
    requires
        pos <= end <= bytes@.len(),
    ensures
        match r {
            Ok((p, np)) => dec_packet(bytes@, pos as int, end as int) == Ok::<_, Error>((
                p@,
                np as int,
            )) && pos + 4 <= np <= end,
            Err(e) => dec_packet(bytes@, pos as int, end as int) == Err::<(PacketV, int), _>(e),
        },
    decreases end - pos, 0int,
{
    let (n, after) = match parse_i32(bytes, pos, end) {
        Ok(r) => r,
        Err(e) => { return Err(e) },
    };
    if n < 0 {
        return Err(Error::BadFormat);
    }
    let nu = n as usize;
    if nu > end - after {
        return Err(Error::Io);
    }
    let sub_end = after + nu;
    match parse_payload(bytes, after, sub_end) {
        Ok(p) => Ok((p, sub_end)),
        Err(e) => Err(e),
    }
}

/// Deserializes length-prefixed packets from the front of a borrowed
/// byte slice, leaving the cursor on the first byte after each packet.
pub struct PktDeserializer<'a> {
    bytes: &'a [u8],
    pos: usize,
}

impl<'a> PktDeserializer<'a> {
    /// The bytes this deserializer reads from.
    pub closed spec fn source(&self) -> Seq<u8> {
        self.bytes@
    }

    /// The cursor: how many bytes have been consumed.
    pub closed spec fn position(&self) -> int {
        self.pos as int
    }

    pub closed spec fn wf(&self) -> bool {
        self.pos <= self.bytes@.len()
    }

    pub fn new(bytes: &'a [u8]) -> (r: Self)
        ensures
            r.wf(),
            r.source() == bytes@,
            r.position() == 0,
    {
        PktDeserializer { bytes, pos: 0 }
    }

    /// Reads the next packet. On success the cursor moves past it, so a
    /// stream of packets can be read by calling this repeatedly.
    pub fn deserialize(&mut self) -> (r: Result<Packet, Error>)
        requires
            old(self).wf(),
        ensures
            final(self).wf(),
            final(self).source() == old(self).source(),
            match r {
                Ok(p) => dec_packet(
                    old(self).source(),
                    old(self).position(),
                    old(self).source().len() as int,
                ) matches Ok(pr) && pr.0 == p@ && final(self).position() == pr.1,
                Err(e) => dec_packet(
                    old(self).source(),
                    old(self).position(),
                    old(self).source().len() as int,
                ) == Err::<(PacketV, int), _>(e) && final(self).position() == old(self).position(),
            },
    {
        match parse_packet(self.bytes, self.pos, self.bytes.len()) {
            Ok((p, np)) => {
                self.pos = np;
                Ok(p)
            },
            Err(e) => Err(e),
        }
    }
}

/// A packet deserializer that owns its byte buffer.
pub struct OwnedPktDeserializer {
    data: Vec<u8>,
    pos: usize,
}

impl OwnedPktDeserializer {
    pub closed spec fn source(&self) -> Seq<u8> {
        self.data@
    }

    pub closed spec fn position(&self) -> int {
        self.pos as int
    }

    pub closed spec fn wf(&self) -> bool {
        self.pos <= self.data@.len()
    }

    pub fn new(data: Vec<u8>) -> (r: Self)
        ensures
            r.wf(),
            r.source() == data@,
            r.position() == 0,
    {
        OwnedPktDeserializer { data, pos: 0 }
    }

    /// Reads the next packet from the owned buffer.
    pub fn deserialize(&mut self) -> (r: Result<Packet, Error>)
        requires
            old(self).wf(),
        ensures
            final(self).wf(),
            final(self).source() == old(self).source(),
            match r {
                Ok(p) => dec_packet(
                    old(self).source(),
                    old(self).position(),
                    old(self).source().len() as int,
                ) matches Ok(pr) && pr.0 == p@ && final(self).position() == pr.1,
                Err(e) => dec_packet(
                    old(self).source(),
                    old(self).position(),
                    old(self).source().len() as int,
                ) == Err::<(PacketV, int), _>(e) && final(self).position() == old(self).position(),
            },
    {
        match parse_packet(self.data.as_slice(), self.pos, self.data.len()) {
            Ok((p, np)) => {
                self.pos = np;
                Ok(p)
            },
            Err(e) => Err(e),
        }
    }
}

} // verus!
