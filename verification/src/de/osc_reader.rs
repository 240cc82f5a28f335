//! Primitive readers over a byte slice.
//!
//! Every reader works on a window `[pos, end)` of the input and, on
//! success, returns the value together with the position just past the
//! bytes it consumed. Each is proved to implement the corresponding
//! spec-level reader of [`crate::wire`].

use vstd::prelude::*;
use vstd::utf8::{decode_utf8, valid_utf8};

use crate::error::Error;
use crate::wire::{
    blob_pad, dec_blob, dec_i32_at, dec_str0, dec_string, dec_u32_at, first_zero_in_group,
};

verus! {

/// Relies on `String::from_utf8`: it returns the string decoded from
/// the given bytes exactly when they are valid UTF-8.
#[verifier::external_body]
pub(crate) fn string_from_utf8(v: Vec<u8>) -> (r: Option<String>)
    ensures
        (r is Some) <==> valid_utf8(v@),
        r matches Some(s) ==> s@ == decode_utf8(v@),
{
    String::from_utf8(v).ok()
}

/// Reads a big-endian `u32` from four bytes.
pub fn parse_u32(bytes: &[u8], pos: usize, end: usize) -> (r: Result<(u32, usize), Error>)
    requires
        pos <= end <= bytes@.len(),
    ensures
        match r {
            Ok((v, np)) => end - pos >= 4 && v == dec_u32_at(bytes@, pos as int) && np == pos + 4,
            Err(e) => end - pos < 4 && e == Error::Io,
        },
{
    if end - pos < 4 {
        return Err(Error::Io);
    }
    let v = ((bytes[pos] as u32) << 24) | ((bytes[pos + 1] as u32) << 16) | ((bytes[pos
        + 2] as u32) << 8) | (bytes[pos + 3] as u32);
    Ok((v, pos + 4))
}

/// Reads a big-endian `i32` from four bytes.
pub fn parse_i32(bytes: &[u8], pos: usize, end: usize) -> (r: Result<(i32, usize), Error>)
    requires
        pos <= end <= bytes@.len(),
    ensures
        match r {
            Ok((v, np)) => end - pos >= 4 && v == dec_i32_at(bytes@, pos as int) && np == pos + 4,
            Err(e) => end - pos < 4 && e == Error::Io,
        },
{
    match parse_u32(bytes, pos, end) {
        Ok((v, np)) => Ok((
            #[verifier::truncate]
            (v as i32),
            np,
        )),
        Err(e) => Err(e),
    }
}

/// Reads the two big-endian `u32`s of a time tag: seconds, then
/// fractional seconds.
pub fn parse_timetag(bytes: &[u8], pos: usize, end: usize) -> (r: Result<((u32, u32), usize), Error>)
    requires
        pos <= end <= bytes@.len(),
    ensures
        match r {
            Ok(((sec, frac), np)) => end - pos >= 8 && sec == dec_u32_at(bytes@, pos as int)
                && frac == dec_u32_at(bytes@, pos + 4) && np == pos + 8,
            Err(e) => end - pos < 8 && e == Error::Io,
        },
{
    if end - pos < 8 {
        return Err(Error::Io);
    }
    let sec = match parse_u32(bytes, pos, end) {
        Ok((v, _)) => v,
        Err(e) => { return Err(e) },
    };
    let frac = match parse_u32(bytes, pos + 4, end) {
        Ok((v, _)) => v,
        Err(e) => { return Err(e) },
    };
    Ok(((sec, frac), pos + 8))
}

/// Reads a null-terminated byte string padded to a 4-byte boundary,
/// verifying that the padding is all zero.
pub fn read_0term_bytes(bytes: &[u8], pos: usize, end: usize) -> (r: Result<(Vec<u8>, usize), Error>)
    requires
        pos <= end <= bytes@.len(),
    ensures
        match r {
            Ok((bs, np)) => dec_str0(bytes@, pos as int, end as int) == Ok::<_, Error>((
                bs@,
                np as int,
            )) && pos + 4 <= np <= end,
            Err(e) => dec_str0(bytes@, pos as int, end as int) == Err::<(Seq<u8>, int), _>(e),
        },
{
    let mut data: Vec<u8> = Vec::new();
    let mut cur = pos;
    loop
        invariant
            pos <= cur <= end <= bytes@.len(),
            match dec_str0(bytes@, cur as int, end as int) {
                Ok((bs, np)) => dec_str0(bytes@, pos as int, end as int) == Ok::<_, Error>((
                    data@ + bs,
                    np,
                )),
                Err(e) => dec_str0(bytes@, pos as int, end as int) == Err::<(Seq<u8>, int), _>(e),
            },
        decreases end - cur,
    {
        if end - cur < 4 {
            return Err(Error::Io);
        }
        let b0 = bytes[cur];
        let b1 = bytes[cur + 1];
        let b2 = bytes[cur + 2];
        let b3 = bytes[cur + 3];
        let z: usize = if b0 == 0 {
            0
        } else if b1 == 0 {
            1
        } else if b2 == 0 {
            2
        } else if b3 == 0 {
            3
        } else {
            4
        };
        proof {
            assert(z == first_zero_in_group(bytes@, cur as int));
        }
        let ghost data0 = data@;
        if z == 4 {
            data.push(b0);
            data.push(b1);
            data.push(b2);
            data.push(b3);
            proof {
                let b = bytes@;
                let group = b.subrange(cur as int, cur + 4);
                assert(data@ =~= data0 + group);
                match dec_str0(b, cur + 4, end as int) {
                    Ok((bs2, np2)) => {
                        assert(data@ + bs2 =~= data0 + (group + bs2));
                    },
                    Err(_) => {},
                }
            }
            cur = cur + 4;
        } else {
            let pad_ok = (z >= 1 || b1 == 0) && (z >= 2 || b2 == 0) && (z >= 3 || b3 == 0);
            if !pad_ok {
                return Err(Error::BadPadding);
            }
            if z >= 1 {
                data.push(b0);
            }
            if z >= 2 {
                data.push(b1);
            }
            if z >= 3 {
                data.push(b2);
            }
            proof {
                assert(data@ =~= data0 + bytes@.subrange(cur as int, cur + z));
            }
            return Ok((data, cur + 4));
        }
    }
}

/// Reads a null-terminated padded string and interprets it as UTF-8.
pub fn parse_str(bytes: &[u8], pos: usize, end: usize) -> (r: Result<(String, usize), Error>)
    requires
        pos <= end <= bytes@.len(),
    ensures
        match r {
            Ok((s, np)) => dec_string(bytes@, pos as int, end as int) == Ok::<_, Error>((
                s@,
                np as int,
            )) && pos + 4 <= np <= end,
            Err(e) => dec_string(bytes@, pos as int, end as int) == Err::<(Seq<char>, int), _>(e),
        },
{
    let (bs, np) = match read_0term_bytes(bytes, pos, end) {
        Ok(r) => r,
        Err(e) => { return Err(e) },
    };
    match string_from_utf8(bs) {
        Some(s) => Ok((s, np)),
        None => Err(Error::BadString),
    }
}

/// Reads a blob: its length, its data, and its zero padding.
pub fn parse_blob(bytes: &[u8], pos: usize, end: usize) -> (r: Result<(Vec<u8>, usize), Error>)
    requires
        pos <= end <= bytes@.len(),
    ensures
        match r {
            Ok((bs, np)) => dec_blob(bytes@, pos as int, end as int) == Ok::<_, Error>((
                bs@,
                np as int,
            )) && pos + 4 <= np <= end,
            Err(e) => dec_blob(bytes@, pos as int, end as int) == Err::<(Seq<u8>, int), _>(e),
        },
{
    let (n, after_len) = match parse_i32(bytes, pos, end) {
        Ok(r) => r,
        Err(e) => { return Err(e) },
    };
    if n < 0 {
        return Err(Error::BadFormat);
    }
    let nu = n as usize;
    let pad = (4 - nu % 4) % 4;
    proof {
        assert(pad == blob_pad(n as nat));
    }
    if end - after_len < pad || end - after_len - pad < nu {
        return Err(Error::Io);
    }
    let data_end = after_len + nu;
    if pad >= 1 && bytes[data_end] != 0 {
        return Err(Error::BadPadding);
    }
    if pad >= 2 && bytes[data_end + 1] != 0 {
        return Err(Error::BadPadding);
    }
    if pad >= 3 && bytes[data_end + 2] != 0 {
        return Err(Error::BadPadding);
    }
    let mut data: Vec<u8> = Vec::new();
    let mut i: usize = 0;
    while i < nu
        invariant
            i <= nu,
            after_len + nu + pad <= end <= bytes@.len(),
            data@ == bytes@.subrange(after_len as int, after_len + i),
        decreases nu - i,
    {
        data.push(bytes[after_len + i]);
        proof {
            assert(data@ =~= bytes@.subrange(after_len as int, after_len + i + 1));
        }
        i = i + 1;
    }
    Ok((data, data_end + pad))
}

} // verus!
