//! The packet-encoding state machine.
//!
//! A packet's contents open as a sequence. The first element runs
//! through [`PktTypeDecoder`], which classifies the packet; the machine
//! then adopts a [`MsgSerializer`] or a [`BundleSerializer`] seeded with
//! the probe's bytes, routes every following element to it, and flushes
//! the length-prefixed packet when the sequence ends.

use vstd::prelude::*;

use crate::error::Error;
use crate::oscarg::{
    args_view, elements_view, lemma_elements_view_props, OscArg, Packet,
};
use crate::ser::bundle_serializer::BundleSerializer;
use crate::ser::msg_serializer::MsgSerializer;
use crate::ser::pkt_type_decoder::{PktType, PktTypeDecoder};
use crate::ser::timetag_ser::TimetagSer;
use crate::wire::{
    arg_fits, comma_tags, enc_args, enc_arg, enc_elements, enc_i32, enc_packet, enc_padded,
    enc_u32, lemma_enc_padded_len, lemma_enc_args_len, lemma_mod4_add,
    lemma_pad_aligned, lemma_payload_len, packet_fits, payload_of, str_pad, tags_of, zeros,
};

verus! {

broadcast use vstd::std_specs::vec::group_vec_axioms;

/// What the machine has committed to for the packet under construction.
pub enum State {
    /// Nothing has arrived: the packet's variant is still open.
    UnknownType,
    /// The first field was an address: a message is being built.
    Msg(MsgSerializer),
    /// The first field was a time tag: a bundle is being built.
    Bundle(BundleSerializer),
}

/// The contents of one packet while it is being encoded.
pub struct PktContents {
    state: State,
}

impl PktContents {
    pub closed spec fn state_spec(&self) -> State {
        self.state
    }

    /// Opens a packet whose variant is not yet known.
    pub fn new() -> (r: Self)
        ensures
            r.state_spec() is UnknownType,
    {
        PktContents { state: State::UnknownType }
    }

    /// Commits to the variant the probe classified, seeding the chosen
    /// encoder with the probe's bytes. A probe that saw nothing leaves
    /// the packet empty, which is a format error.
    pub fn adopt_probe(&mut self, probe: PktTypeDecoder) -> (r: Result<(), Error>)
        requires
            old(self).state_spec() is UnknownType,
        ensures
            match probe.pkt_type_spec() {
                PktType::Unknown => r matches Err(e) && e == Error::BadFormat && *final(self) == *old(self),
                PktType::Msg => r is Ok && (final(self).state_spec() matches State::Msg(ms)
                    && ms.typetag_view() == probe.data_view() + seq![44u8] && ms.arg_bytes_view()
                    == Seq::<u8>::empty()),
                PktType::Bundle => r is Ok && (final(self).state_spec() matches State::Bundle(bs)
                    && bs.contents_view() == probe.data_view()),
            },
    {
        match probe.pkt_type() {
            PktType::Unknown => Err(Error::BadFormat),
            PktType::Msg => {
                self.state = State::Msg(MsgSerializer::new(probe.data()));
                Ok(())
            },
            PktType::Bundle => {
                self.state = State::Bundle(BundleSerializer::new(probe.data()));
                Ok(())
            },
        }
    }

    /// Routes one message argument to the message encoder.
    pub fn serialize_arg(&mut self, a: &OscArg) -> (r: Result<(), Error>)
        requires
            old(self).state_spec() is Msg,
        ensures
            old(self).state_spec() matches State::Msg(ms0) ==> match r {
                Ok(()) => arg_fits(a@) && (final(self).state_spec() matches State::Msg(ms1)
                    && ms1.typetag_view() == ms0.typetag_view() + seq![crate::wire::arg_tag(a@)]
                    && ms1.arg_bytes_view() == ms0.arg_bytes_view() + enc_arg(a@)),
                Err(e) => !arg_fits(a@) && e == Error::BadCast && *final(self) == *old(self),
            },
    {
        match &mut self.state {
            State::Msg(ms) => match a {
                OscArg::I32(v) => {
                    ms.serialize_i32(*v);
                    Ok(())
                },
                OscArg::F32(bits) => {
                    ms.serialize_f32(*bits);
                    Ok(())
                },
                OscArg::Str(s) => {
                    ms.serialize_str(s.as_str());
                    Ok(())
                },
                OscArg::Blob(b) => ms.serialize_bytes(b.as_slice()),
            },
            _ => {
                proof {
                    assert(false);
                }
                Err(Error::BadFormat)
            },
        }
    }

    /// Routes one element packet to the bundle encoder, which encodes it
    /// whole into the bundle's payload.
    pub fn serialize_element_packet(&mut self, p: &Packet) -> (r: Result<(), Error>)
        requires
            old(self).state_spec() is Bundle,
        ensures
            old(self).state_spec() matches State::Bundle(bs0) ==> match r {
                Ok(()) => packet_fits(p@) && (final(self).state_spec() matches State::Bundle(bs1)
                    && bs1.contents_view() == bs0.contents_view() + enc_packet(p@)),
                Err(e) => !packet_fits(p@) && e == Error::BadCast && (final(self).state_spec()
                    matches State::Bundle(bs1) && bs1.contents_view() == bs0.contents_view()),
            },
        decreases *p, 2int,
    {
        match &mut self.state {
            State::Bundle(bs) => bs.append_packet(p),
            _ => {
                proof {
                    assert(false);
                }
                Err(Error::BadFormat)
            },
        }
    }

    /// Ends the sequence: the committed encoder flushes the finished,
    /// length-prefixed packet. A packet that never saw a first field has
    /// no variant and is refused.
    pub fn end(self, output: &mut Vec<u8>) -> (r: Result<(), Error>)
        ensures
            match self.state_spec() {
                State::UnknownType => r matches Err(e) && e == Error::BadFormat && final(output)@
                    == old(output)@,
                State::Msg(ms) => ({
                    let tt = ms.typetag_view();
                    let ab = ms.arg_bytes_view();
                    let size = tt.len() + str_pad(tt.len()) + ab.len();
                    match r {
                        Ok(()) => size % 4 == 0 && size <= 0x7fffffff && final(output)@ == old(
                            output,
                        )@ + enc_i32(size as i32) + tt + zeros(str_pad(tt.len())) + ab,
                        Err(e) => final(output)@ == old(output)@ && if size % 4 != 0 {
                            e == Error::BadFormat
                        } else {
                            e == Error::BadCast && size > 0x7fffffff
                        },
                    }
                }),
                State::Bundle(bs) => ({
                    let size = 8 + bs.contents_view().len();
                    match r {
                        Ok(()) => size % 4 == 0 && size <= 0x7fffffff && final(output)@ == old(
                            output,
                        )@ + enc_i32(size as i32) + enc_padded(crate::wire::bundle_lit())
                            + bs.contents_view(),
                        Err(e) => final(output)@ == old(output)@ && if size % 4 != 0 {
                            e == Error::BadFormat
                        } else {
                            e == Error::BadCast && size > 0x7fffffff
                        },
                    }
                }),
            },
    {
        match self.state {
            State::UnknownType => Err(Error::BadFormat),
            State::Msg(ms) => ms.write_into(output),
            State::Bundle(bs) => bs.write_into(output),
        }
    }
}

/// Encodes one packet, appending its length-prefixed bytes to `out`.
/// The packet's fields run through the same machine a data-binding
/// layer drives: the first field through the probe, the rest through
/// the adopted encoder. A packet whose sizes cannot be counted in
/// `i32`s is refused, and `out` is left untouched.
#[verifier::loop_isolation(false)]
pub fn encode_packet(p: &Packet, out: &mut Vec<u8>) -> (r: Result<(), Error>)
    ensures
        match r {
            Ok(()) => packet_fits(p@) && final(out)@ == old(out)@ + enc_packet(p@),
            Err(e) => !packet_fits(p@) && e == Error::BadCast && final(out)@ == old(out)@,
        },
    decreases *p, 0int,
{
    let mut pc = PktContents::new();
    match p {
        Packet::Message { address, args } => {
            let mut probe = PktTypeDecoder::new();
            probe.serialize_str(address.as_str());
            match pc.adopt_probe(probe) {
                Ok(()) => {},
                Err(_) => {
                    proof {
                        assert(false);
                    }
                    return Err(Error::BadCast);
                },
            }
            let ghost argsv = args_view(args@);
            let ghost addr_field = enc_padded(vstd::utf8::encode_utf8(address@));
            let mut i: usize = 0;
            loop
                invariant
                    i <= args@.len(),
                    pc.state_spec() matches State::Msg(ms) && ms.typetag_view() == addr_field
                        + seq![44u8] + tags_of(argsv).take(i as int) && ms.arg_bytes_view()
                        + enc_args(argsv, i as int) == enc_args(argsv, 0),
                    forall|j: int| 0 <= j < i ==> arg_fits(#[trigger] argsv[j]),
                decreases args@.len() - i,
            {
                if i >= args.len() {
                    break ;
                }
                let ghost ms0 = pc.state_spec()->Msg_0;
                match pc.serialize_arg(&args[i]) {
                    Ok(()) => {},
                    Err(e) => {
                        proof {
                            assert(argsv[i as int] == args@[i as int]@);
                            assert(!packet_fits(p@));
                        }
                        return Err(e);
                    },
                }
                proof {
                    let ms1 = pc.state_spec()->Msg_0;
                    assert(argsv[i as int] == args@[i as int]@);
                    assert(tags_of(argsv).take(i + 1) =~= tags_of(argsv).take(i as int)
                        + seq![crate::wire::arg_tag(argsv[i as int])]);
                    assert(ms1.typetag_view() =~= addr_field + seq![44u8] + tags_of(argsv).take(
                        i + 1,
                    ));
                    assert(enc_args(argsv, i as int) == enc_arg(argsv[i as int]) + enc_args(
                        argsv,
                        i + 1,
                    ));
                    assert(ms1.arg_bytes_view() + enc_args(argsv, i + 1) =~= ms0.arg_bytes_view()
                        + enc_args(argsv, i as int));
                }
                i = i + 1;
            }
            proof {
                assert(tags_of(argsv).take(args@.len() as int) =~= tags_of(argsv));
                assert(enc_args(argsv, args@.len() as int) =~= Seq::<u8>::empty());
                let ms = pc.state_spec()->Msg_0;
                assert(ms.arg_bytes_view() + Seq::<u8>::empty() =~= ms.arg_bytes_view());
                assert(ms.arg_bytes_view() == enc_args(argsv, 0));
            }
            let ghost ms = pc.state_spec()->Msg_0;
            let ghost tt = ms.typetag_view();
            let ghost size = tt.len() + str_pad(tt.len()) + ms.arg_bytes_view().len();
            proof {
                lemma_enc_padded_len(vstd::utf8::encode_utf8(address@));
                lemma_enc_args_len(argsv, 0);
                lemma_pad_aligned(tt.len());
                lemma_mod4_add(addr_field.len(), (1 + tags_of(argsv).len()) as nat);
                // the typetag buffer plus its padding is the padded
                // comma-and-tags field after the padded address
                assert(tt.len() == addr_field.len() + comma_tags(argsv).len());
                assert(str_pad(tt.len()) == str_pad(comma_tags(argsv).len()));
                assert(tt + zeros(str_pad(tt.len())) =~= addr_field + enc_padded(
                    comma_tags(argsv),
                ));
                assert(payload_of(p@) =~= tt + zeros(str_pad(tt.len())) + ms.arg_bytes_view());
                assert(size == payload_of(p@).len());
                lemma_payload_len(p@);
            }
            let ghost out0 = out@;
            match pc.end(out) {
                Ok(()) => {
                    proof {
                        assert(packet_fits(p@));
                        assert(out@ =~= out0 + enc_packet(p@));
                    }
                    Ok(())
                },
                Err(e) => {
                    proof {
                        assert(size % 4 == 0);
                        assert(e == Error::BadCast && size > 0x7fffffff);
                        assert(!packet_fits(p@));
                    }
                    Err(e)
                },
            }
        },
        Packet::Bundle { time, elements } => {
            let mut probe = PktTypeDecoder::new();
            let mut ts = TimetagSer::new();
            match ts.serialize_u32(time.sec) {
                Ok(()) => {},
                Err(_) => {
                    proof {
                        assert(false);
                    }
                    return Err(Error::BadCast);
                },
            }
            match ts.serialize_u32(time.frac) {
                Ok(()) => {},
                Err(_) => {
                    proof {
                        assert(false);
                    }
                    return Err(Error::BadCast);
                },
            }
            let tag = match ts.finish() {
                Ok(t) => t,
                Err(_) => {
                    proof {
                        assert(false);
                    }
                    return Err(Error::BadCast);
                },
            };
            probe.accept_timetag(tag);
            match pc.adopt_probe(probe) {
                Ok(()) => {},
                Err(_) => {
                    proof {
                        assert(false);
                    }
                    return Err(Error::BadCast);
                },
            }
            let ghost elemsv = elements_view(elements@, 0);
            let ghost tt8 = enc_u32(time.sec) + enc_u32(time.frac);
            proof {
                lemma_elements_view_props(elements@, 0);
            }
            let mut i: usize = 0;
            loop
                invariant
                    i <= elements@.len(),
                    pc.state_spec() matches State::Bundle(bs) && bs.contents_view() + enc_elements(
                        elemsv,
                        i as int,
                    ) == tt8 + enc_elements(elemsv, 0),
                    forall|j: int| 0 <= j < i ==> packet_fits(#[trigger] elemsv[j]),
                decreases elements@.len() - i,
            {
                if i >= elements.len() {
                    break ;
                }
                proof {
                    assert(decreases_to!(*p => *elements));
                    assert(decreases_to!(*p => elements@[i as int]));
                }
                let ghost bs0 = pc.state_spec()->Bundle_0;
                match pc.serialize_element_packet(&elements[i]) {
                    Ok(()) => {},
                    Err(e) => {
                        proof {
                            assert(elemsv[i as int] == elements@[i as int]@);
                            assert(!packet_fits(p@));
                        }
                        return Err(e);
                    },
                }
                proof {
                    let bs1 = pc.state_spec()->Bundle_0;
                    assert(elemsv[i as int] == elements@[i as int]@);
                    assert(enc_elements(elemsv, i as int) == enc_packet(elemsv[i as int])
                        + enc_elements(elemsv, i + 1));
                    assert(bs1.contents_view() + enc_elements(elemsv, i + 1) =~= bs0.contents_view()
                        + enc_elements(elemsv, i as int));
                }
                i = i + 1;
            }
            proof {
                assert(enc_elements(elemsv, elements@.len() as int) =~= Seq::<u8>::empty());
                let bs = pc.state_spec()->Bundle_0;
                assert(bs.contents_view() + Seq::<u8>::empty() =~= bs.contents_view());
                assert(bs.contents_view() =~= tt8 + enc_elements(elemsv, 0));
            }
            let ghost bs = pc.state_spec()->Bundle_0;
            let ghost size = 8 + bs.contents_view().len();
            proof {
                assert(payload_of(p@) =~= enc_padded(crate::wire::bundle_lit()) + tt8
                    + enc_elements(elemsv, 0));
                assert(size == payload_of(p@).len());
                lemma_payload_len(p@);
            }
            let ghost out0 = out@;
            match pc.end(out) {
                Ok(()) => {
                    proof {
                        assert(packet_fits(p@));
                        assert(out@ =~= out0 + enc_packet(p@));
                    }
                    Ok(())
                },
                Err(e) => {
                    proof {
                        assert(size % 4 == 0);
                        assert(e == Error::BadCast && size > 0x7fffffff);
                        assert(!packet_fits(p@));
                    }
                    Err(e)
                },
            }
        },
    }
}

/// Writes length-prefixed packets into an owned byte buffer.
pub struct PktSerializer {
    output: Vec<u8>,
}

impl PktSerializer {
    /// The bytes written so far.
    pub closed spec fn output_view(&self) -> Seq<u8> {
        self.output@
    }

    pub fn new(output: Vec<u8>) -> (r: Self)
        ensures
            r.output_view() == output@,
    {
        PktSerializer { output }
    }

    /// Encodes one packet after whatever the buffer already holds.
    pub fn serialize_packet(&mut self, p: &Packet) -> (r: Result<(), Error>)
        ensures
            match r {
                Ok(()) => packet_fits(p@) && final(self).output_view() == old(self).output_view()
                    + enc_packet(p@),
                Err(e) => !packet_fits(p@) && e == Error::BadCast && final(self).output_view()
                    == old(self).output_view(),
            },
    {
        encode_packet(p, &mut self.output)
    }

    /// Hands the buffer back.
    pub fn into_inner(self) -> (r: Vec<u8>)
        ensures
            r@ == self.output_view(),
    {
        self.output
    }
}

} // verus!
