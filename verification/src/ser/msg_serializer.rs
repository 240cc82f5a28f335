//! Buffering and flushing one message.

use vstd::prelude::*;
use vstd::utf8::encode_utf8;

use crate::error::Error;
use crate::ser::osc_writer::{
    osc_write_blob, osc_write_i32, osc_write_str, osc_write_u32, write_bytes, write_zeros,
};
use crate::wire::{enc_blob, enc_i32, enc_padded, enc_u32, str_pad, zeros};

verus! {

/// Accumulates one message in two buffers: the padded address merged
/// with the growing type-tag string, and the binary argument data.
/// `write_into` joins them into a length-prefixed message.
pub struct MsgSerializer {
    addr_typetag: Vec<u8>,
    args: Vec<u8>,
}

impl MsgSerializer {
    /// The address-and-type-tag buffer: the padded address, the comma,
    /// then one tag byte per argument accepted so far.
    pub closed spec fn typetag_view(&self) -> Seq<u8> {
        self.addr_typetag@
    }

    /// The argument-area buffer.
    pub closed spec fn arg_bytes_view(&self) -> Seq<u8> {
        self.args@
    }

    /// Starts a message from the probe's buffered address bytes, opening
    /// the type-tag string with its comma.
    pub fn new(address: Vec<u8>) -> (r: Self)
        ensures
            r.typetag_view() == address@ + seq![44u8],
            r.arg_bytes_view() == Seq::<u8>::empty(),
    {
        let mut addr_typetag = address;
        addr_typetag.push(44);
        let r = MsgSerializer { addr_typetag, args: Vec::new() };
        proof {
            assert(r.arg_bytes_view() =~= Seq::<u8>::empty());
        }
        r
    }

    /// Accepts a signed 32-bit integer argument.
    pub fn serialize_i32(&mut self, value: i32)
        ensures
            final(self).typetag_view() == old(self).typetag_view() + seq![105u8],
            final(self).arg_bytes_view() == old(self).arg_bytes_view() + enc_i32(value),
    {
        self.addr_typetag.push(105);
        osc_write_i32(&mut self.args, value);
        proof {
            assert(self.typetag_view() =~= old(self).typetag_view() + seq![105u8]);
        }
    }

    /// Accepts a 32-bit float argument, given as its IEEE-754 bit
    /// pattern.
    pub fn serialize_f32(&mut self, bits: u32)
        ensures
            final(self).typetag_view() == old(self).typetag_view() + seq![102u8],
            final(self).arg_bytes_view() == old(self).arg_bytes_view() + enc_u32(bits),
    {
        self.addr_typetag.push(102);
        osc_write_u32(&mut self.args, bits);
        proof {
            assert(self.typetag_view() =~= old(self).typetag_view() + seq![102u8]);
        }
    }

    /// Accepts a string argument.
    pub fn serialize_str(&mut self, value: &str)
        ensures
            final(self).typetag_view() == old(self).typetag_view() + seq![115u8],
            final(self).arg_bytes_view() == old(self).arg_bytes_view() + enc_padded(
                encode_utf8(value@),
            ),
    {
        self.addr_typetag.push(115);
        osc_write_str(&mut self.args, value);
        proof {
            assert(self.typetag_view() =~= old(self).typetag_view() + seq![115u8]);
        }
    }

    /// Accepts a blob argument. A blob longer than an `i32` can count is
    /// refused and leaves the message unchanged.
    pub fn serialize_bytes(&mut self, value: &[u8]) -> (r: Result<(), Error>)
        ensures
            match r {
                Ok(()) => value@.len() <= 0x7fffffff && final(self).typetag_view() == old(
                    self,
                ).typetag_view() + seq![98u8] && final(self).arg_bytes_view() == old(
                    self,
                ).arg_bytes_view() + enc_blob(value@),
                Err(e) => value@.len() > 0x7fffffff && e == Error::BadCast && *final(self) == *old(self),
            },
    {
        if value.len() > 0x7fffffff {
            return Err(Error::BadCast);
        }
        self.addr_typetag.push(98);
        match osc_write_blob(&mut self.args, value) {
            Ok(()) => {},
            Err(e) => {
                proof {
                    assert(false);
                }
                return Err(e);
            },
        }
        proof {
            assert(self.typetag_view() =~= old(self).typetag_view() + seq![98u8]);
        }
        Ok(())
    }

    /// Flushes the finished message: the payload size as an `i32`, the
    /// address-and-type-tag buffer, its padding, then the argument data.
    /// A payload that is not a multiple of four bytes is refused, as is
    /// one whose size does not fit in an `i32`; either way the output is
    /// untouched.
    pub fn write_into(self, output: &mut Vec<u8>) -> (r: Result<(), Error>)
        ensures
            ({
                let tt = self.typetag_view();
                let ab = self.arg_bytes_view();
                let size = tt.len() + str_pad(tt.len()) + ab.len();
                match r {
                    Ok(()) => size % 4 == 0 && size <= 0x7fffffff && final(output)@ == old(output)@
                        + enc_i32(size as i32) + tt + zeros(str_pad(tt.len())) + ab,
                    Err(e) => final(output)@ == old(output)@ && if size % 4 != 0 {
                        e == Error::BadFormat
                    } else {
                        e == Error::BadCast && size > 0x7fffffff
                    },
                }
            }),
    {
        let tt_len = self.addr_typetag.len();
        let tag_pad = 4 - tt_len % 4;
        proof {
            crate::wire::lemma_pad_aligned(tt_len as nat);
            crate::wire::lemma_mod4_add((tt_len + str_pad(tt_len as nat)) as nat, self.args@.len());
        }
        if self.args.len() % 4 != 0 {
            return Err(Error::BadFormat);
        }
        let with_pad = match tt_len.checked_add(tag_pad) {
            Some(s) => s,
            None => { return Err(Error::BadCast) },
        };
        let size = match with_pad.checked_add(self.args.len()) {
            Some(s) => s,
            None => { return Err(Error::BadCast) },
        };
        if size > 0x7fffffff {
            return Err(Error::BadCast);
        }
        let ghost out0 = output@;
        osc_write_i32(output, size as i32);
        write_bytes(output, self.addr_typetag.as_slice());
        write_zeros(output, tag_pad);
        write_bytes(output, self.args.as_slice());
        proof {
            assert(output@ =~= out0 + enc_i32(size as i32) + self.typetag_view() + zeros(
                str_pad(self.typetag_view().len()),
            ) + self.arg_bytes_view());
        }
        Ok(())
    }
}

} // verus!
