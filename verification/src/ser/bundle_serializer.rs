//! Buffering and flushing one bundle.

use vstd::prelude::*;

use crate::error::Error;
use crate::oscarg::Packet;
use crate::ser::osc_writer::{osc_write_i32, write_bytes};
use crate::wire::{bundle_lit, enc_i32, enc_packet, enc_padded, packet_fits};

verus! {

/// Appends the eight bytes `#bundle` followed by one null, the padded
/// marker that opens every bundle payload.
pub fn write_bundle_marker(out: &mut Vec<u8>)
    ensures
        final(out)@ == old(out)@ + enc_padded(bundle_lit()),
{
    let ghost out0 = out@;
    out.push(35);
    out.push(98);
    out.push(117);
    out.push(110);
    out.push(100);
    out.push(108);
    out.push(101);
    out.push(0);
    proof {
        assert(out@ =~= out0 + enc_padded(bundle_lit()));
    }
}

/// Accumulates one bundle's payload: the time tag the probe classified,
/// then each contained packet, encoded whole into the buffer.
pub struct BundleSerializer {
    contents: Vec<u8>,
}

impl BundleSerializer {
    /// The buffered payload bytes after the `#bundle` marker: the time
    /// tag, then the elements encoded so far.
    pub closed spec fn contents_view(&self) -> Seq<u8> {
        self.contents@
    }

    /// Starts a bundle from the probe's buffered time-tag bytes.
    pub fn new(contents: Vec<u8>) -> (r: Self)
        ensures
            r.contents_view() == contents@,
    {
        BundleSerializer { contents }
    }

    /// Encodes one element packet into the bundle. An element whose
    /// sizes cannot be counted in `i32`s is refused and leaves the
    /// bundle unchanged.
    pub fn append_packet(&mut self, p: &Packet) -> (r: Result<(), Error>)
        ensures
            match r {
                Ok(()) => packet_fits(p@) && final(self).contents_view() == old(
                    self,
                ).contents_view() + enc_packet(p@),
                Err(e) => !packet_fits(p@) && e == Error::BadCast && final(self).contents_view()
                    == old(self).contents_view(),
            },
        decreases *p, 1int,
    {
        crate::ser::pkt_serializer::encode_packet(p, &mut self.contents)
    }

    /// Flushes the finished bundle: the payload size as an `i32`, the
    /// `#bundle` marker, then the buffered time tag and elements.
    pub fn write_into(self, output: &mut Vec<u8>) -> (r: Result<(), Error>)
        ensures
            ({
                let size = 8 + self.contents_view().len();
                match r {
                    Ok(()) => size % 4 == 0 && size <= 0x7fffffff && final(output)@ == old(output)@
                        + enc_i32(size as i32) + enc_padded(bundle_lit()) + self.contents_view(),
                    Err(e) => final(output)@ == old(output)@ && if size % 4 != 0 {
                        e == Error::BadFormat
                    } else {
                        e == Error::BadCast && size > 0x7fffffff
                    },
                }
            }),
    {
        if self.contents.len() % 4 != 0 {
            proof {
                crate::wire::lemma_mod4_add(8, self.contents@.len());
            }
            return Err(Error::BadFormat);
        }
        let size = match self.contents.len().checked_add(8) {
            Some(s) => s,
            None => { return Err(Error::BadCast) },
        };
        proof {
            crate::wire::lemma_mod4_add(8, self.contents@.len());
        }
        if size > 0x7fffffff {
            return Err(Error::BadCast);
        }
        let ghost out0 = output@;
        osc_write_i32(output, size as i32);
        write_bundle_marker(output);
        write_bytes(output, self.contents.as_slice());
        proof {
            assert(output@ =~= out0 + enc_i32(size as i32) + enc_padded(bundle_lit())
                + self.contents_view());
        }
        Ok(())
    }
}

} // verus!
