//! Mathematical model of the OSC 1.0 wire format.
//!
//! `enc_packet` gives the exact byte sequence a packet encodes to;
//! `dec_packet` gives the value (or error) decoding produces, including
//! the tolerances the decoder grants: a type-tag string without the
//! leading comma, and a message whose payload ends right after the
//! address (no type-tag string at all, meaning zero arguments).
//! The executable encoder and decoder are specified against these
//! functions.

use vstd::prelude::*;
use vstd::utf8::{decode_utf8, encode_utf8, valid_utf8};

use crate::error::Error;
use crate::maybeskipcomma::effective_tags;
use crate::oscarg::{ArgV, PacketV};

verus! {

/// `n` zero bytes.
pub open spec fn zeros(n: nat) -> Seq<u8> {
    Seq::new(n, |i: int| 0u8)
}

/// Zero bytes written after a string of `n` bytes: 1 to 4, so the field
/// is null-terminated and ends on a 4-byte boundary.
pub open spec fn str_pad(n: nat) -> nat {
    (4 - n % 4) as nat
}

/// Zero bytes written after `n` bytes of blob data: 0 to 3.
pub open spec fn blob_pad(n: nat) -> nat {
    ((4 - n % 4) % 4) as nat
}

/// The four bytes of `x`, most significant first.
pub open spec fn enc_u32(x: u32) -> Seq<u8> {
    seq![(x >> 24) as u8, (x >> 16) as u8, (x >> 8) as u8, x as u8]
}

pub open spec fn enc_i32(x: i32) -> Seq<u8> {
    enc_u32(x as u32)
}

/// The big-endian 32-bit value stored in the four bytes of `b` at `pos`.
pub open spec fn dec_u32_at(b: Seq<u8>, pos: int) -> u32 {
    (((b[pos] as u32) << 24) | ((b[pos + 1] as u32) << 16) | ((b[pos + 2] as u32) << 8) | (b[pos
        + 3] as u32))
}

pub open spec fn dec_i32_at(b: Seq<u8>, pos: int) -> i32 {
    dec_u32_at(b, pos) as i32
}

/// A string's bytes followed by its padding.
pub open spec fn enc_padded(bs: Seq<u8>) -> Seq<u8> {
    bs + zeros(str_pad(bs.len()))
}

/// A blob: big-endian length, the data, then padding.
pub open spec fn enc_blob(bs: Seq<u8>) -> Seq<u8> {
    enc_i32(bs.len() as i32) + bs + zeros(blob_pad(bs.len()))
}

/// The type-tag byte announcing an argument.
pub open spec fn arg_tag(a: ArgV) -> u8 {
    match a {
        ArgV::I32(_) => 105u8,  // 'i'
        ArgV::F32(_) => 102u8,  // 'f'
        ArgV::Str(_) => 115u8,  // 's'
        ArgV::Blob(_) => 98u8,  // 'b'
    }
}

/// One tag byte per argument, in argument order.
pub open spec fn tags_of(args: Seq<ArgV>) -> Seq<u8> {
    Seq::new(args.len(), |i: int| arg_tag(args[i]))
}

/// The payload of a type-tag string as the encoder emits it: the leading
/// comma, always present, then the tag bytes.
pub open spec fn comma_tags(args: Seq<ArgV>) -> Seq<u8> {
    seq![44u8] + tags_of(args)
}

/// The bytes of the literal string `#bundle` that opens a bundle payload.
pub open spec fn bundle_lit() -> Seq<u8> {
    seq![35u8, 98u8, 117u8, 110u8, 100u8, 108u8, 101u8]
}

/// The argument-area bytes of one argument.
pub open spec fn enc_arg(a: ArgV) -> Seq<u8> {
    match a {
        ArgV::I32(v) => enc_i32(v),
        ArgV::F32(v) => enc_u32(v),
        ArgV::Str(s) => enc_padded(encode_utf8(s)),
        ArgV::Blob(bs) => enc_blob(bs),
    }
}

/// The argument area from argument `i` on.
pub open spec fn enc_args(args: Seq<ArgV>, i: int) -> Seq<u8>
    decreases args.len() - i,
{
    if 0 <= i < args.len() {
        enc_arg(args[i]) + enc_args(args, i + 1)
    } else {
        Seq::empty()
    }
}

/// The payload of a packet: everything after its length prefix.
pub open spec fn payload_of(p: PacketV) -> Seq<u8>
    decreases p, 0int, 0int,
{
    match p {
        PacketV::Message { address, args } => enc_padded(encode_utf8(address)) + enc_padded(
            comma_tags(args),
        ) + enc_args(args, 0),
        PacketV::Bundle { sec, frac, elements } => enc_padded(bundle_lit()) + enc_u32(sec)
            + enc_u32(frac) + enc_elements(elements, 0),
    }
}

/// The concatenated length-prefixed encodings of the elements from `i` on.
pub open spec fn enc_elements(elements: Seq<PacketV>, i: int) -> Seq<u8>
    decreases elements, 2int, elements.len() - i,
{
    if 0 <= i < elements.len() {
        enc_packet(elements[i]) + enc_elements(elements, i + 1)
    } else {
        Seq::empty()
    }
}

/// A whole packet on the wire: its payload length as a big-endian `i32`,
/// then the payload.
pub open spec fn enc_packet(p: PacketV) -> Seq<u8>
    decreases p, 1int, 0int,
{
    enc_i32(payload_of(p).len() as i32) + payload_of(p)
}

/// Whether every length the encoder must emit for `p` fits in an `i32`.
/// Encoding succeeds exactly on such packets.
pub open spec fn packet_fits(p: PacketV) -> bool
    decreases p,
{
    payload_of(p).len() <= 0x7fffffff && match p {
        PacketV::Message { address, args } => forall|i: int|
            0 <= i < args.len() ==> arg_fits(#[trigger] args[i]),
        PacketV::Bundle { sec, frac, elements } => forall|i: int|
            0 <= i < elements.len() ==> packet_fits(#[trigger] elements[i]),
    }
}

pub open spec fn arg_fits(a: ArgV) -> bool {
    match a {
        ArgV::Blob(bs) => bs.len() <= 0x7fffffff,
        _ => true,
    }
}

/// A string that survives the wire: none of its encoded bytes is zero,
/// so the null terminator the encoder appends is the first zero the
/// decoder meets.
pub open spec fn str_wf(s: Seq<char>) -> bool {
    forall|i: int| 0 <= i < encode_utf8(s).len() ==> encode_utf8(s)[i] != 0
}

pub open spec fn arg_wf(a: ArgV) -> bool {
    match a {
        ArgV::Str(s) => str_wf(s),
        ArgV::Blob(bs) => bs.len() <= 0x7fffffff,
        _ => true,
    }
}

/// A packet whose encoding decodes back to itself: sizes fit, strings
/// carry no zero byte, and no message borrows the `#bundle` address.
pub open spec fn packet_wf(p: PacketV) -> bool
    decreases p,
{
    payload_of(p).len() <= 0x7fffffff && match p {
        PacketV::Message { address, args } => str_wf(address) && encode_utf8(address)
            != bundle_lit() && forall|i: int| 0 <= i < args.len() ==> arg_wf(#[trigger] args[i]),
        PacketV::Bundle { sec, frac, elements } => forall|i: int|
            0 <= i < elements.len() ==> packet_wf(#[trigger] elements[i]),
    }
}

/// String padding lands the field on a 4-byte boundary; blob padding
/// does the same without demanding a terminator.
pub proof fn lemma_pad_aligned(n: nat)
    ensures
        1 <= str_pad(n) <= 4,
        (n + str_pad(n)) % 4 == 0,
        blob_pad(n) <= 3,
        (n + blob_pad(n)) % 4 == 0,
{
    assert((n + str_pad(n)) % 4 == 0) by (nonlinear_arith);
    assert((n + blob_pad(n)) % 4 == 0) by (nonlinear_arith);
}

/// Adding a multiple of four does not change a length's alignment.
pub proof fn lemma_mod4_add(a: nat, b: nat)
    requires
        a % 4 == 0,
    ensures
        (a + b) % 4 == b % 4,
{
    assert((a + b) % 4 == b % 4) by (nonlinear_arith)
        requires
            a % 4 == 0,
    ;
}

/// Every encoded field is a multiple of four bytes long.
pub proof fn lemma_enc_padded_len(bs: Seq<u8>)
    ensures
        enc_padded(bs).len() == bs.len() + str_pad(bs.len()),
        enc_padded(bs).len() % 4 == 0,
        4 <= enc_padded(bs).len(),
        bs.len() < enc_padded(bs).len(),
{
    lemma_pad_aligned(bs.len());
}

pub proof fn lemma_enc_blob_len(bs: Seq<u8>)
    ensures
        enc_blob(bs).len() == 4 + bs.len() + blob_pad(bs.len()),
        enc_blob(bs).len() % 4 == 0,
        4 <= enc_blob(bs).len(),
{
    lemma_pad_aligned(bs.len());
    lemma_mod4_add(4, (bs.len() + blob_pad(bs.len())) as nat);
}

pub proof fn lemma_enc_arg_len(a: ArgV)
    ensures
        enc_arg(a).len() % 4 == 0,
        4 <= enc_arg(a).len(),
{
    match a {
        ArgV::Str(s) => lemma_enc_padded_len(encode_utf8(s)),
        ArgV::Blob(bs) => lemma_enc_blob_len(bs),
        _ => {},
    }
}

pub proof fn lemma_enc_args_len(args: Seq<ArgV>, i: int)
    requires
        0 <= i <= args.len(),
    ensures
        enc_args(args, i).len() % 4 == 0,
    decreases args.len() - i,
{
    if i < args.len() {
        lemma_enc_arg_len(args[i]);
        lemma_enc_args_len(args, i + 1);
        lemma_mod4_add(enc_arg(args[i]).len(), enc_args(args, i + 1).len());
    }
}

/// A packet payload is a multiple of four bytes and at least eight.
pub proof fn lemma_payload_len(p: PacketV)
    ensures
        payload_of(p).len() % 4 == 0,
        8 <= payload_of(p).len(),
    decreases p, 0int, 0int,
{
    match p {
        PacketV::Message { address, args } => {
            lemma_enc_padded_len(encode_utf8(address));
            lemma_enc_padded_len(comma_tags(args));
            lemma_enc_args_len(args, 0);
            lemma_mod4_add(enc_padded(encode_utf8(address)).len(), (enc_padded(comma_tags(args)).len() + enc_args(args, 0).len()) as nat);
            lemma_mod4_add(enc_padded(comma_tags(args)).len(), enc_args(args, 0).len());
        },
        PacketV::Bundle { sec, frac, elements } => {
            lemma_enc_padded_len(bundle_lit());
            lemma_enc_elements_len(elements, 0);
            lemma_mod4_add(16, enc_elements(elements, 0).len());
        },
    }
}

pub proof fn lemma_enc_elements_len(elements: Seq<PacketV>, i: int)
    requires
        0 <= i <= elements.len(),
    ensures
        enc_elements(elements, i).len() % 4 == 0,
    decreases elements, 2int, elements.len() - i,
{
    if i < elements.len() {
        lemma_enc_packet_len(elements[i]);
        lemma_enc_elements_len(elements, i + 1);
        lemma_mod4_add(enc_packet(elements[i]).len(), enc_elements(elements, i + 1).len());
    }
}

/// A packet on the wire is its payload plus the 4-byte length prefix.
pub proof fn lemma_enc_packet_len(p: PacketV)
    ensures
        enc_packet(p).len() == 4 + payload_of(p).len(),
        enc_packet(p).len() % 4 == 0,
        12 <= enc_packet(p).len(),
    decreases p, 1int, 0int,
{
    lemma_payload_len(p);
    lemma_mod4_add(4, payload_of(p).len());
}

/// Whether, in the 4-byte group at `pos`, every byte after position `z`
/// is zero.
pub open spec fn group_pad_ok(b: Seq<u8>, pos: int, z: int) -> bool {
    &&& (z < 1 ==> b[pos + 1] == 0)
    &&& (z < 2 ==> b[pos + 2] == 0)
    &&& (z < 3 ==> b[pos + 3] == 0)
}

/// Index of the first zero byte in the 4-byte group at `pos`, or 4 when
/// the group holds no zero.
pub open spec fn first_zero_in_group(b: Seq<u8>, pos: int) -> int {
    if b[pos] == 0 {
        0int
    } else if b[pos + 1] == 0 {
        1int
    } else if b[pos + 2] == 0 {
        2int
    } else if b[pos + 3] == 0 {
        3int
    } else {
        4int
    }
}

/// Reading a null-terminated padded byte string: whole 4-byte groups are
/// consumed until one holds a zero; in that group every byte after the
/// first zero must be zero too, and the bytes before it close the string.
pub open spec fn dec_str0(b: Seq<u8>, pos: int, end: int) -> Result<(Seq<u8>, int), Error>
    decreases end - pos,
{
    if pos + 4 > end {
        Err(Error::Io)
    } else {
        let z = first_zero_in_group(b, pos);
        if z == 4 {
            match dec_str0(b, pos + 4, end) {
                Ok(r) => Ok((b.subrange(pos, pos + 4) + r.0, r.1)),
                Err(e) => Err(e),
            }
        } else if group_pad_ok(b, pos, z) {
            Ok((b.subrange(pos, pos + z), pos + 4))
        } else {
            Err(Error::BadPadding)
        }
    }
}

/// Whether the `pad` bytes starting at `start` are all zero; `pad` is at
/// most 3.
pub open spec fn blob_pad_zeros(b: Seq<u8>, start: int, pad: int) -> bool {
    &&& (pad >= 1 ==> b[start] == 0)
    &&& (pad >= 2 ==> b[start + 1] == 0)
    &&& (pad >= 3 ==> b[start + 2] == 0)
}

/// Reading a blob: a length that must be non-negative, the data, and
/// padding bytes that must be zero.
pub open spec fn dec_blob(b: Seq<u8>, pos: int, end: int) -> Result<(Seq<u8>, int), Error> {
    if pos + 4 > end {
        Err(Error::Io)
    } else {
        let n = dec_i32_at(b, pos);
        if n < 0 {
            Err(Error::BadFormat)
        } else {
            let pad = blob_pad(n as nat);
            let padded = n + pad;
            if pos + 4 + padded > end {
                Err(Error::Io)
            } else if blob_pad_zeros(b, pos + 4 + n, pad as int) {
                Ok((b.subrange(pos + 4, pos + 4 + n), pos + 4 + padded))
            } else {
                Err(Error::BadPadding)
            }
        }
    }
}

/// Reading a padded string and interpreting its bytes as UTF-8.
pub open spec fn dec_string(b: Seq<u8>, pos: int, end: int) -> Result<(Seq<char>, int), Error> {
    match dec_str0(b, pos, end) {
        Ok((bs, np)) => if valid_utf8(bs) {
            Ok((decode_utf8(bs), np))
        } else {
            Err(Error::BadString)
        },
        Err(e) => Err(e),
    }
}

/// Reading one argument, as named by its tag byte.
pub open spec fn dec_arg(b: Seq<u8>, pos: int, end: int, tag: u8) -> Result<(ArgV, int), Error> {
    if tag == 105 {
        if pos + 4 > end {
            Err(Error::Io)
        } else {
            Ok((ArgV::I32(dec_i32_at(b, pos)), pos + 4))
        }
    } else if tag == 102 {
        if pos + 4 > end {
            Err(Error::Io)
        } else {
            Ok((ArgV::F32(dec_u32_at(b, pos)), pos + 4))
        }
    } else if tag == 115 {
        match dec_string(b, pos, end) {
            Ok((s, np)) => Ok((ArgV::Str(s), np)),
            Err(e) => Err(e),
        }
    } else if tag == 98 {
        match dec_blob(b, pos, end) {
            Ok((bs, np)) => Ok((ArgV::Blob(bs), np)),
            Err(e) => Err(e),
        }
    } else {
        Err(Error::UnsupportedType)
    }
}

/// Reading one argument per tag byte, in order.
pub open spec fn dec_args(b: Seq<u8>, pos: int, end: int, tags: Seq<u8>) -> Result<
    (Seq<ArgV>, int),
    Error,
>
    decreases tags.len(),
{
    if tags.len() == 0 {
        Ok((Seq::empty(), pos))
    } else {
        match dec_arg(b, pos, end, tags[0]) {
            Ok((a, np)) => match dec_args(b, np, end, tags.drop_first()) {
                Ok((rest, np2)) => Ok((seq![a] + rest, np2)),
                Err(e) => Err(e),
            },
            Err(e) => Err(e),
        }
    }
}

/// The rest of a message payload, after its address: a payload that ends
/// right here means zero arguments; otherwise the type-tag string names
/// the arguments, which must fill the payload exactly.
pub open spec fn dec_msg_rest(b: Seq<u8>, pos: int, end: int, address: Seq<char>) -> Result<
    PacketV,
    Error,
> {
    if pos == end {
        Ok(PacketV::Message { address, args: Seq::empty() })
    } else {
        match dec_str0(b, pos, end) {
            Ok((tagbytes, np)) => match dec_args(b, np, end, effective_tags(tagbytes)) {
                Ok((args, np2)) => if np2 == end {
                    Ok(PacketV::Message { address, args })
                } else {
                    Err(Error::BadFormat)
                },
                Err(e) => Err(e),
            },
            Err(e) => Err(e),
        }
    }
}

/// A packet payload: the first padded string is either the `#bundle`
/// marker or the message address, and the rest follows from that.
pub open spec fn dec_payload(b: Seq<u8>, pos: int, end: int) -> Result<PacketV, Error>
    decreases end - pos, 3int,
{
    match dec_str0(b, pos, end) {
        Ok((head, np)) => if pos + 4 <= np <= end {
            if head == bundle_lit() {
                dec_bundle_rest(b, np, end)
            } else if valid_utf8(head) {
                dec_msg_rest(b, np, end, decode_utf8(head))
            } else {
                Err(Error::BadString)
            }
        } else {
            Err(Error::BadFormat)
        },
        Err(e) => Err(e),
    }
}

/// The rest of a bundle payload, after the `#bundle` marker: the 8-byte
/// time tag, then elements until the payload ends.
pub open spec fn dec_bundle_rest(b: Seq<u8>, pos: int, end: int) -> Result<PacketV, Error>
    decreases end - pos, 2int,
{
    if pos + 8 > end {
        Err(Error::Io)
    } else {
        match dec_elements(b, pos + 8, end) {
            Ok(elements) => Ok(
                PacketV::Bundle { sec: dec_u32_at(b, pos), frac: dec_u32_at(b, pos + 4), elements },
            ),
            Err(e) => Err(e),
        }
    }
}

/// Bundle elements: length-prefixed packets until the payload ends.
pub open spec fn dec_elements(b: Seq<u8>, pos: int, end: int) -> Result<Seq<PacketV>, Error>
    decreases end - pos, 1int,
{
    if pos >= end {
        Ok(Seq::empty())
    } else {
        match dec_packet(b, pos, end) {
            Ok((p, np)) => if pos + 4 <= np <= end {
                match dec_elements(b, np, end) {
                    Ok(rest) => Ok(seq![p] + rest),
                    Err(e) => Err(e),
                }
            } else {
                Err(Error::BadFormat)
            },
            Err(e) => Err(e),
        }
    }
}

/// One length-prefixed packet: a non-negative length that must not
/// exceed the bytes available, then a payload read as a bounded
/// sub-stream that the packet consumes entirely.
pub open spec fn dec_packet(b: Seq<u8>, pos: int, end: int) -> Result<(PacketV, int), Error>
    decreases end - pos, 0int,
{
    if pos + 4 > end {
        Err(Error::Io)
    } else {
        let n = dec_i32_at(b, pos);
        if n < 0 {
            Err(Error::BadFormat)
        } else if pos + 4 + n > end {
            Err(Error::Io)
        } else {
            match dec_payload(b, pos + 4, pos + 4 + n) {
                Ok(p) => Ok((p, pos + 4 + n)),
                Err(e) => Err(e),
            }
        }
    }
}

/// Decoding a length-prefixed packet from the front of a byte sequence.
/// Bytes after the packet are left for the next packet in the stream.
pub open spec fn dec_framed(b: Seq<u8>) -> Result<PacketV, Error> {
    match dec_packet(b, 0, b.len() as int) {
        Ok((p, _)) => Ok(p),
        Err(e) => Err(e),
    }
}

/// Decoding a bare payload: the whole sequence is one packet's payload.
pub open spec fn dec_unframed(b: Seq<u8>) -> Result<PacketV, Error> {
    if b.len() > 0x7fffffff {
        Err(Error::BadCast)
    } else {
        dec_payload(b, 0, b.len() as int)
    }
}

} // verus!
