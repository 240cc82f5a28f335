//! Primitive writers that append OSC fields to a byte buffer.

use vstd::prelude::*;
use vstd::utf8::encode_utf8;

use crate::error::Error;
use crate::oscarg::TimeTag;
use crate::wire::{blob_pad, enc_blob, enc_i32, enc_padded, enc_u32, zeros};

verus! {

/// Appends every byte of `data`.
pub fn write_bytes(out: &mut Vec<u8>, data: &[u8])
    ensures
        final(out)@ == old(out)@ + data@,
{
    let ghost out0 = out@;
    let mut i: usize = 0;
    while i < data.len()
        invariant
            i <= data@.len(),
            out@ == out0 + data@.take(i as int),
        decreases data@.len() - i,
    {
        out.push(data[i]);
        proof {
            assert(out@ =~= out0 + data@.take(i + 1));
        }
        i = i + 1;
    }
    proof {
        assert(out@ =~= out0 + data@);
    }
}

/// Appends `n` zero bytes.
pub fn write_zeros(out: &mut Vec<u8>, n: usize)
    ensures
        final(out)@ == old(out)@ + zeros(n as nat),
{
    let ghost out0 = out@;
    let mut i: usize = 0;
    while i < n
        invariant
            i <= n,
            out@ == out0 + zeros(i as nat),
        decreases n - i,
    {
        out.push(0);
        proof {
            assert(out@ =~= out0 + zeros((i + 1) as nat));
        }
        i = i + 1;
    }
}

/// Appends a `u32`, most significant byte first.
pub fn osc_write_u32(out: &mut Vec<u8>, value: u32)
    ensures
        final(out)@ == old(out)@ + enc_u32(value),
{
    let ghost out0 = out@;
    out.push((value >> 24) as u8);
    out.push((value >> 16) as u8);
    out.push((value >> 8) as u8);
    out.push(value as u8);
    proof {
        assert(out@ =~= out0 + enc_u32(value));
    }
}

/// Appends an `i32`, most significant byte first.
pub fn osc_write_i32(out: &mut Vec<u8>, value: i32)
    ensures
        final(out)@ == old(out)@ + enc_i32(value),
{
    osc_write_u32(
        out,
        #[verifier::truncate]
        (value as u32),
    );
}

/// Appends a string's bytes followed by 1 to 4 zero bytes, so the field
/// is null-terminated and ends on a 4-byte boundary.
pub fn osc_write_str(out: &mut Vec<u8>, value: &str)
    ensures
        final(out)@ == old(out)@ + enc_padded(encode_utf8(value@)),
{
    let ghost out0 = out@;
    let bytes = value.as_bytes();
    write_bytes(out, bytes);
    write_zeros(out, 4 - bytes.len() % 4);
    proof {
        assert(out@ =~= out0 + enc_padded(encode_utf8(value@)));
    }
}

/// Appends a blob: its length as an `i32`, its data, then 0 to 3 zero
/// bytes. A length that does not fit in an `i32` fails and leaves the
/// buffer unchanged.
pub fn osc_write_blob(out: &mut Vec<u8>, value: &[u8]) -> (r: Result<(), Error>)
    ensures
        match r {
            Ok(()) => value@.len() <= 0x7fffffff && final(out)@ == old(out)@ + enc_blob(value@),
            Err(e) => value@.len() > 0x7fffffff && e == Error::BadCast && final(out)@ == old(
                out,
            )@,
        },
{
    if value.len() > 0x7fffffff {
        return Err(Error::BadCast);
    }
    let ghost out0 = out@;
    osc_write_i32(out, value.len() as i32);
    write_bytes(out, value);
    write_zeros(out, (4 - value.len() % 4) % 4);
    proof {
        assert((4 - value@.len() % 4) % 4 == blob_pad(value@.len()));
        assert(out@ =~= out0 + enc_blob(value@));
    }
    Ok(())
}

/// Appends a time tag: seconds, then fractional seconds.
pub fn osc_write_timetag(out: &mut Vec<u8>, tag: TimeTag)
    ensures
        final(out)@ == old(out)@ + enc_u32(tag.sec) + enc_u32(tag.frac),
{
    osc_write_u32(out, tag.sec);
    osc_write_u32(out, tag.frac);
}

} // verus!
