//! The data model: packets, messages, bundles and their arguments.

use vstd::prelude::*;

verus! {

broadcast use vstd::std_specs::vec::group_vec_axioms;

/// One OSC 1.0 argument.
///
/// A 32-bit float argument is carried as the bit pattern of its IEEE-754
/// representation; the wire format only ever moves those four bytes, so
/// the codec never needs to interpret them as a number.
#[derive(Clone, Debug, PartialEq)]
pub enum OscArg {
    /// Signed 32-bit integer, tag `i`.
    I32(i32),
    /// IEEE-754 32-bit float, tag `f`, as its big-endian bit pattern.
    F32(u32),
    /// Null-terminated padded UTF-8 string, tag `s`.
    Str(String),
    /// Length-prefixed, zero-padded byte array, tag `b`.
    Blob(Vec<u8>),
}

/// An NTP-style instant: seconds since the epoch and fractional seconds,
/// both unsigned 32-bit.
#[derive(Clone, Copy, Debug, PartialEq, Eq, Structural)]
pub struct TimeTag {
    pub sec: u32,
    pub frac: u32,
}

/// One OSC packet: a message or a bundle of nested packets.
#[derive(Debug, PartialEq)]
pub enum Packet {
    Message { address: String, args: Vec<OscArg> },
    Bundle { time: TimeTag, elements: Vec<Packet> },
}

/// Mathematical model of an argument: strings as character sequences,
/// blobs as byte sequences.
pub enum ArgV {
    I32(i32),
    F32(u32),
    Str(Seq<char>),
    Blob(Seq<u8>),
}

/// Mathematical model of a packet.
pub enum PacketV {
    Message { address: Seq<char>, args: Seq<ArgV> },
    Bundle { sec: u32, frac: u32, elements: Seq<PacketV> },
}

pub open spec fn arg_view(a: OscArg) -> ArgV {
    match a {
        OscArg::I32(v) => ArgV::I32(v),
        OscArg::F32(v) => ArgV::F32(v),
        OscArg::Str(s) => ArgV::Str(s@),
        OscArg::Blob(b) => ArgV::Blob(b@),
    }
}

/// The models of a sequence of arguments, in order.
pub open spec fn args_view(s: Seq<OscArg>) -> Seq<ArgV> {
    Seq::new(s.len(), |i: int| arg_view(s[i]))
}

pub open spec fn elements_view(s: Seq<Packet>, i: int) -> Seq<PacketV>
    decreases s, s.len() - i,
{
    if 0 <= i < s.len() {
        seq![packet_view(s[i])] + elements_view(s, i + 1)
    } else {
        Seq::empty()
    }
}

pub open spec fn packet_view(p: Packet) -> PacketV
    decreases p,
{
    match p {
        Packet::Message { address, args } => PacketV::Message {
            address: address@,
            args: args_view(args@),
        },
        Packet::Bundle { time, elements } => PacketV::Bundle {
            sec: time.sec,
            frac: time.frac,
            elements: elements_view(elements@, 0),
        },
    }
}

/// Appending a packet to an element sequence appends its model to the
/// sequence's model.
pub proof fn lemma_elements_view_push(s: Seq<Packet>, p: Packet, i: int)
    requires
        0 <= i <= s.len(),
    ensures
        elements_view(s.push(p), i) =~= elements_view(s, i) + seq![packet_view(p)],
    decreases s.len() - i,
{
    if i < s.len() {
        lemma_elements_view_push(s, p, i + 1);
        assert(s.push(p)[i] == s[i]);
    } else {
        assert(s.push(p)[i] == p);
        assert(elements_view(s.push(p), i + 1) =~= Seq::empty());
        assert(elements_view(s, i) =~= Seq::empty());
    }
}

/// The model of an element sequence indexes to the models of its
/// packets.
pub proof fn lemma_elements_view_props(s: Seq<Packet>, i: int)
    requires
        0 <= i <= s.len(),
    ensures
        elements_view(s, i).len() == s.len() - i,
        forall|j: int|
            0 <= j < s.len() - i ==> #[trigger] elements_view(s, i)[j] == packet_view(s[i + j]),
    decreases s.len() - i,
{
    if i < s.len() {
        lemma_elements_view_props(s, i + 1);
    }
}

impl View for OscArg {
    type V = ArgV;

    open spec fn view(&self) -> ArgV {
        arg_view(*self)
    }
}

impl View for Packet {
    type V = PacketV;

    open spec fn view(&self) -> PacketV {
        packet_view(*self)
    }
}

} // verus!
