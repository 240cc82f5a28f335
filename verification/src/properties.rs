//! Laws of the codec, stated over the wire-format model and proved once
//! for all packets.

use vstd::prelude::*;
use vstd::utf8::encode_utf8;

use crate::error::Error;
use crate::maybeskipcomma::effective_tags;
use crate::oscarg::{ArgV, PacketV};
use crate::wire::{
    arg_tag, blob_pad, blob_pad_zeros, bundle_lit, comma_tags, dec_arg, dec_args, dec_blob,
    dec_i32_at, dec_str0, dec_u32_at, enc_arg, enc_args, enc_blob, enc_i32, enc_packet, enc_padded,
    enc_u32, first_zero_in_group, group_pad_ok, lemma_enc_packet_len, lemma_payload_len,
    payload_of, str_pad, tags_of,
};

verus! {

/// The four bytes written for a `u32` read back as the same `u32`.
proof fn lemma_dec_enc_u32(b: Seq<u8>, pos: int, x: u32)
    requires
        0 <= pos,
        pos + 4 <= b.len(),
        b.subrange(pos, pos + 4) == enc_u32(x),
    ensures
        dec_u32_at(b, pos) == x,
{
    assert(b[pos] == enc_u32(x)[0] && b[pos + 1] == enc_u32(x)[1] && b[pos + 2] == enc_u32(x)[2]
        && b[pos + 3] == enc_u32(x)[3]);
    let b0 = (x >> 24) as u8;
    let b1 = (x >> 16) as u8;
    let b2 = (x >> 8) as u8;
    let b3 = x as u8;
    assert((((b0 as u32) << 24) | ((b1 as u32) << 16) | ((b2 as u32) << 8) | (b3 as u32)) == x)
        by (bit_vector)
        requires
            b0 == (x >> 24) as u8,
            b1 == (x >> 16) as u8,
            b2 == (x >> 8) as u8,
            b3 == x as u8,
    ;
}

/// The four bytes written for an `i32` read back as the same `i32`.
proof fn lemma_dec_enc_i32(b: Seq<u8>, pos: int, x: i32)
    requires
        0 <= pos,
        pos + 4 <= b.len(),
        b.subrange(pos, pos + 4) == enc_i32(x),
    ensures
        dec_i32_at(b, pos) == x,
{
    lemma_dec_enc_u32(b, pos, x as u32);
    assert(((x as u32) as i32) == x) by (bit_vector);
}

/// Every emitted padded string ends on a 4-byte boundary, with at least
/// one and at most four trailing zero bytes; every emitted blob is
/// padded to a 4-byte boundary with zero bytes.
pub proof fn law_padding(bs: Seq<u8>)
    ensures
        enc_padded(bs).len() % 4 == 0,
        bs.len() < enc_padded(bs).len() <= bs.len() + 4,
        forall|i: int| bs.len() <= i < enc_padded(bs).len() ==> enc_padded(bs)[i] == 0,
        enc_blob(bs).len() % 4 == 0,
        enc_blob(bs).len() <= 4 + bs.len() + 3,
        forall|i: int| 4 + bs.len() <= i < enc_blob(bs).len() ==> enc_blob(bs)[i] == 0,
{
    crate::wire::lemma_enc_padded_len(bs);
    crate::wire::lemma_enc_blob_len(bs);
}

/// The type-tag string the encoder emits for an argument list is the
/// leading comma followed by exactly one tag byte per argument, in
/// argument order; the cursor that drops the comma sees exactly the tag
/// bytes.
pub proof fn law_tag_arity(args: Seq<ArgV>)
    ensures
        comma_tags(args)[0] == 44,
        comma_tags(args).len() == 1 + args.len(),
        tags_of(args).len() == args.len(),
        forall|i: int| 0 <= i < args.len() ==> comma_tags(args)[i + 1] == arg_tag(#[trigger] args[i]),
        effective_tags(comma_tags(args)) == tags_of(args),
{
    assert(effective_tags(comma_tags(args)) =~= tags_of(args));
}

/// A leading comma on the type-tag string never changes which arguments
/// are decoded: only the bytes after the optional comma drive argument
/// parsing.
pub proof fn law_comma_tolerance(b: Seq<u8>, pos: int, end: int, tagbytes: Seq<u8>)
    requires
        tagbytes.len() == 0 || tagbytes[0] != 44,
    ensures
        effective_tags(seq![44u8] + tagbytes) == effective_tags(tagbytes),
        dec_args(b, pos, end, effective_tags(seq![44u8] + tagbytes)) == dec_args(
            b,
            pos,
            end,
            effective_tags(tagbytes),
        ),
{
    assert(effective_tags(seq![44u8] + tagbytes) =~= tagbytes);
    assert(effective_tags(tagbytes) =~= tagbytes);
}

/// A tag byte outside `i`, `f`, `s`, `b` fails with `UnsupportedType`,
/// and no tag byte inside that set ever produces that error.
pub proof fn law_unsupported_tag(b: Seq<u8>, pos: int, end: int, tag: u8)
    ensures
        (dec_arg(b, pos, end, tag) == Err::<(ArgV, int), Error>(Error::UnsupportedType)) <==> (tag
            != 105 && tag != 102 && tag != 115 && tag != 98),
{
    lemma_dec_str0_err_kind(b, pos, end);
}

/// Reading a padded string fails only for want of bytes or for broken
/// padding.
proof fn lemma_dec_str0_err_kind(b: Seq<u8>, pos: int, end: int)
    ensures
        dec_str0(b, pos, end) matches Err(e) ==> (e == Error::Io || e == Error::BadPadding),
    decreases end - pos,
{
    if pos + 4 <= end && first_zero_in_group(b, pos) == 4 {
        lemma_dec_str0_err_kind(b, pos + 4, end);
    }
}

/// A negative packet length fails with `BadFormat` before anything else
/// is read; a length past the end of the available bytes fails with
/// `Io`.
pub proof fn law_length_sanity(b: Seq<u8>, pos: int, end: int)
    requires
        0 <= pos,
        pos + 4 <= end <= b.len(),
    ensures
        dec_i32_at(b, pos) < 0 ==> crate::wire::dec_packet(b, pos, end) == Err::<
            (PacketV, int),
            Error,
        >(Error::BadFormat),
        dec_i32_at(b, pos) >= 0 && pos + 4 + dec_i32_at(b, pos) > end ==> crate::wire::dec_packet(
            b,
            pos,
            end,
        ) == Err::<(PacketV, int), Error>(Error::Io),
{
}

/// A non-zero byte between a string's null terminator and its 4-byte
/// boundary fails with `BadPadding`.
pub proof fn law_bad_string_padding(b: Seq<u8>, pos: int, end: int)
    requires
        0 <= pos,
        pos + 4 <= end <= b.len(),
        first_zero_in_group(b, pos) < 4,
        !group_pad_ok(b, pos, first_zero_in_group(b, pos)),
    ensures
        dec_str0(b, pos, end) == Err::<(Seq<u8>, int), Error>(Error::BadPadding),
{
}

/// A non-zero byte among a blob's padding bytes fails with `BadPadding`.
pub proof fn law_bad_blob_padding(b: Seq<u8>, pos: int, end: int)
    requires
        0 <= pos,
        pos + 4 <= end <= b.len(),
        dec_i32_at(b, pos) >= 0,
        pos + 4 + dec_i32_at(b, pos) + blob_pad(dec_i32_at(b, pos) as nat) <= end,
        !blob_pad_zeros(b, pos + 4 + dec_i32_at(b, pos), blob_pad(dec_i32_at(b, pos) as nat) as int),
    ensures
        dec_blob(b, pos, end) == Err::<(Seq<u8>, int), Error>(Error::BadPadding),
{
}

/// The bytes of a window known to hold `s` read back as `s`, one index
/// at a time.
proof fn lemma_subrange_transfer(b: Seq<u8>, pos: int, s: Seq<u8>)
    requires
        0 <= pos,
        pos + s.len() <= b.len(),
        b.subrange(pos, pos + s.len() as int) == s,
    ensures
        forall|k: int| 0 <= k < s.len() ==> b[pos + k] == #[trigger] s[k],
{
    assert forall|k: int| 0 <= k < s.len() implies b[pos + k] == s[k] by {
        assert(b.subrange(pos, pos + s.len() as int)[k] == b[pos + k]);
    }
}

/// A window of a window: when `[pos, pos + s.len())` of `b` holds `s`,
/// any sub-window holds the matching piece of `s`.
proof fn lemma_subrange_of_subrange(b: Seq<u8>, pos: int, s: Seq<u8>, off: int, len: int)
    requires
        0 <= pos,
        pos + s.len() <= b.len(),
        b.subrange(pos, pos + s.len() as int) == s,
        0 <= off,
        0 <= len,
        off + len <= s.len(),
    ensures
        b.subrange(pos + off, pos + off + len) == s.subrange(off, off + len),
{
    let bw = b.subrange(pos + off, pos + off + len);
    let sw = s.subrange(off, off + len);
    assert forall|j: int| 0 <= j < len implies #[trigger] bw[j] == sw[j] by {
        assert(b.subrange(pos, pos + s.len() as int)[off + j] == b[pos + off + j]);
        assert(bw[j] == b[pos + off + j]);
        assert(sw[j] == s[off + j]);
    }
    assert(bw =~= sw);
}

/// A padded string whose bytes hold no zero reads back as itself, the
/// cursor landing just past its padding.
proof fn lemma_dec_str0_enc(b: Seq<u8>, pos: int, end: int, bs: Seq<u8>)
    requires
        0 <= pos,
        pos + enc_padded(bs).len() <= end <= b.len(),
        b.subrange(pos, pos + enc_padded(bs).len() as int) == enc_padded(bs),
        forall|i: int| 0 <= i < bs.len() ==> bs[i] != 0,
    ensures
        dec_str0(b, pos, end) == Ok::<(Seq<u8>, int), Error>((bs, pos + enc_padded(bs).len())),
    decreases bs.len(),
{
    crate::wire::lemma_enc_padded_len(bs);
    lemma_subrange_transfer(b, pos, enc_padded(bs));
    if bs.len() >= 4 {
        assert(enc_padded(bs)[0] == bs[0] && enc_padded(bs)[1] == bs[1] && enc_padded(bs)[2]
            == bs[2] && enc_padded(bs)[3] == bs[3]);
        assert(first_zero_in_group(b, pos) == 4);
        let bs2 = bs.skip(4);
        crate::wire::lemma_mod4_add(4, bs2.len());
        assert(str_pad(bs2.len()) == str_pad(bs.len()));
        assert(enc_padded(bs2) =~= enc_padded(bs).skip(4));
        assert forall|j: int|
            0 <= j < enc_padded(bs2).len() implies b.subrange(
            pos + 4,
            pos + 4 + enc_padded(bs2).len() as int,
        )[j] == enc_padded(bs2)[j] by {
            assert(b.subrange(pos + 4, pos + 4 + enc_padded(bs2).len() as int)[j] == b[pos + 4
                + j]);
            assert(enc_padded(bs)[4 + j] == enc_padded(bs2)[j]);
        }
        assert(b.subrange(pos + 4, pos + 4 + enc_padded(bs2).len() as int) =~= enc_padded(bs2));
        lemma_dec_str0_enc(b, pos + 4, end, bs2);
        assert(b.subrange(pos, pos + 4) + bs2 =~= bs) by {
            assert(b.subrange(pos, pos + 4)[0] == b[pos]);
            assert(b.subrange(pos, pos + 4)[1] == b[pos + 1]);
            assert(b.subrange(pos, pos + 4)[2] == b[pos + 2]);
            assert(b.subrange(pos, pos + 4)[3] == b[pos + 3]);
        }
        assert(pos + 4 + enc_padded(bs2).len() == pos + enc_padded(bs).len());
    } else {
        assert(enc_padded(bs).len() == 4);
        assert(enc_padded(bs)[bs.len() as int] == 0);
        if bs.len() >= 1 {
            assert(enc_padded(bs)[0] == bs[0]);
        }
        if bs.len() >= 2 {
            assert(enc_padded(bs)[1] == bs[1]);
        }
        if bs.len() >= 3 {
            assert(enc_padded(bs)[2] == bs[2]);
        }
        if bs.len() <= 1 {
            assert(enc_padded(bs)[1] == 0);
        }
        if bs.len() <= 2 {
            assert(enc_padded(bs)[2] == 0);
        }
        assert(enc_padded(bs)[3] == 0);
        assert(first_zero_in_group(b, pos) == bs.len());
        assert(group_pad_ok(b, pos, bs.len() as int));
        assert(b.subrange(pos, pos + bs.len() as int) =~= bs);
    }
}

/// An encoded argument reads back as itself under its own tag.
proof fn lemma_dec_arg_enc(b: Seq<u8>, pos: int, end: int, a: ArgV)
    requires
        crate::wire::arg_wf(a),
        0 <= pos,
        pos + enc_arg(a).len() <= end <= b.len(),
        b.subrange(pos, pos + enc_arg(a).len() as int) == enc_arg(a),
    ensures
        dec_arg(b, pos, end, arg_tag(a)) == Ok::<(ArgV, int), Error>((
            a,
            pos + enc_arg(a).len(),
        )),
{
    match a {
        ArgV::I32(v) => {
            assert(b.subrange(pos, pos + 4) =~= enc_i32(v));
            lemma_dec_enc_i32(b, pos, v);
        },
        ArgV::F32(x) => {
            assert(b.subrange(pos, pos + 4) =~= enc_u32(x));
            lemma_dec_enc_u32(b, pos, x);
        },
        ArgV::Str(s) => {
            let sb = encode_utf8(s);
            assert(b.subrange(pos, pos + enc_padded(sb).len() as int) =~= enc_padded(sb));
            lemma_dec_str0_enc(b, pos, end, sb);
            vstd::utf8::encode_utf8_valid_utf8(s);
            vstd::utf8::encode_utf8_decode_utf8(s);
        },
        ArgV::Blob(bs) => {
            crate::wire::lemma_enc_blob_len(bs);
            lemma_subrange_transfer(b, pos, enc_blob(bs));
            let n = bs.len() as i32;
            assert(b.subrange(pos, pos + 4) =~= enc_blob(bs).subrange(0, 4)) by {
                assert(enc_blob(bs)[0] == b[pos] && enc_blob(bs)[1] == b[pos + 1] && enc_blob(
                    bs,
                )[2] == b[pos + 2] && enc_blob(bs)[3] == b[pos + 3]);
            }
            assert(enc_blob(bs).subrange(0, 4) =~= enc_i32(n));
            lemma_dec_enc_i32(b, pos, n);
            let pad = blob_pad(bs.len());
            if pad >= 1 {
                assert(enc_blob(bs)[4 + bs.len() as int] == 0);
            }
            if pad >= 2 {
                assert(enc_blob(bs)[5 + bs.len() as int] == 0);
            }
            if pad >= 3 {
                assert(enc_blob(bs)[6 + bs.len() as int] == 0);
            }
            assert(blob_pad_zeros(b, pos + 4 + bs.len(), pad as int));
            assert forall|j: int|
                0 <= j < bs.len() implies b.subrange(pos + 4, pos + 4 + bs.len() as int)[j]
                == bs[j] by {
                assert(b.subrange(pos + 4, pos + 4 + bs.len() as int)[j] == b[pos + 4 + j]);
                assert(enc_blob(bs)[4 + j] == bs[j]);
            }
            assert(b.subrange(pos + 4, pos + 4 + bs.len() as int) =~= bs);
        },
    }
}

/// Encoded arguments read back as themselves when parsed under their own
/// tag bytes.
proof fn lemma_dec_args_enc(b: Seq<u8>, pos: int, end: int, args: Seq<ArgV>, i: int)
    requires
        0 <= i <= args.len(),
        forall|j: int| 0 <= j < args.len() ==> crate::wire::arg_wf(#[trigger] args[j]),
        0 <= pos,
        pos + enc_args(args, i).len() <= end <= b.len(),
        b.subrange(pos, pos + enc_args(args, i).len() as int) == enc_args(args, i),
    ensures
        dec_args(b, pos, end, tags_of(args).skip(i)) == Ok::<(Seq<ArgV>, int), Error>((
            args.skip(i),
            pos + enc_args(args, i).len(),
        )),
    decreases args.len() - i,
{
    if i == args.len() {
        assert(tags_of(args).skip(i) =~= Seq::<u8>::empty());
        assert(args.skip(i) =~= Seq::<ArgV>::empty());
    } else {
        let a = args[i];
        let s = enc_args(args, i);
        let alen = enc_arg(a).len() as int;
        lemma_subrange_of_subrange(b, pos, s, 0, alen);
        assert(s.subrange(0, alen) =~= enc_arg(a));
        lemma_dec_arg_enc(b, pos, end, a);
        lemma_subrange_of_subrange(b, pos, s, alen, enc_args(args, i + 1).len() as int);
        assert(s.subrange(alen, alen + enc_args(args, i + 1).len() as int) =~= enc_args(
            args,
            i + 1,
        ));
        lemma_dec_args_enc(b, pos + alen, end, args, i + 1);
        let tags = tags_of(args).skip(i);
        assert(tags[0] == arg_tag(a));
        assert(tags.drop_first() =~= tags_of(args).skip(i + 1));
        assert(seq![a] + args.skip(i + 1) =~= args.skip(i));
    }
}

/// The rest of an encoded message payload, after the address, reads back
/// as the message's arguments, consuming the payload exactly.
proof fn lemma_dec_msg_rest_enc(
    b: Seq<u8>,
    pos: int,
    end: int,
    address: Seq<char>,
    args: Seq<ArgV>,
)
    requires
        forall|j: int| 0 <= j < args.len() ==> crate::wire::arg_wf(#[trigger] args[j]),
        0 <= pos,
        end == pos + enc_padded(comma_tags(args)).len() + enc_args(args, 0).len(),
        end <= b.len(),
        b.subrange(pos, end) == enc_padded(comma_tags(args)) + enc_args(args, 0),
    ensures
        crate::wire::dec_msg_rest(b, pos, end, address) == Ok::<PacketV, Error>(
            PacketV::Message { address, args },
        ),
{
    crate::wire::lemma_enc_padded_len(comma_tags(args));
    assert forall|i: int| 0 <= i < comma_tags(args).len() implies comma_tags(args)[i] != 0 by {
        if i > 0 {
            assert(comma_tags(args)[i] == arg_tag(args[i - 1]));
        }
    }
    let s = enc_padded(comma_tags(args)) + enc_args(args, 0);
    let tlen = enc_padded(comma_tags(args)).len() as int;
    lemma_subrange_of_subrange(b, pos, s, 0, tlen);
    assert(s.subrange(0, tlen) =~= enc_padded(comma_tags(args)));
    lemma_dec_str0_enc(b, pos, end, comma_tags(args));
    let np = pos + tlen;
    assert(effective_tags(comma_tags(args)) =~= tags_of(args));
    assert(tags_of(args).skip(0) =~= tags_of(args));
    lemma_subrange_of_subrange(b, pos, s, tlen, enc_args(args, 0).len() as int);
    assert(s.subrange(tlen, tlen + enc_args(args, 0).len() as int) =~= enc_args(args, 0));
    lemma_dec_args_enc(b, np, end, args, 0);
    assert(args.skip(0) =~= args);
}

/// An encoded packet payload reads back as the packet it encodes.
proof fn lemma_dec_payload_enc(b: Seq<u8>, pos: int, end: int, p: PacketV)
    requires
        crate::wire::packet_wf(p),
        0 <= pos,
        end == pos + payload_of(p).len(),
        end <= b.len(),
        b.subrange(pos, end) == payload_of(p),
    ensures
        crate::wire::dec_payload(b, pos, end) == Ok::<PacketV, Error>(p),
    decreases p, 0int, 0int,
{
    lemma_payload_len(p);
    match p {
        PacketV::Message { address, args } => {
            let ab = encode_utf8(address);
            let s = payload_of(p);
            crate::wire::lemma_enc_padded_len(ab);
            let alen = enc_padded(ab).len() as int;
            lemma_subrange_of_subrange(b, pos, s, 0, alen);
            assert(s.subrange(0, alen) =~= enc_padded(ab));
            lemma_dec_str0_enc(b, pos, end, ab);
            let np = pos + alen;
            vstd::utf8::encode_utf8_valid_utf8(address);
            vstd::utf8::encode_utf8_decode_utf8(address);
            let rest_len = (enc_padded(comma_tags(args)).len() + enc_args(args, 0).len()) as int;
            lemma_subrange_of_subrange(b, pos, s, alen, rest_len);
            assert(s.subrange(alen, alen + rest_len) =~= enc_padded(comma_tags(args)) + enc_args(
                args,
                0,
            ));
            lemma_dec_msg_rest_enc(b, np, end, address, args);
        },
        PacketV::Bundle { sec, frac, elements } => {
            let s = payload_of(p);
            crate::wire::lemma_enc_padded_len(bundle_lit());
            assert(forall|i: int| 0 <= i < bundle_lit().len() ==> bundle_lit()[i] != 0);
            lemma_subrange_of_subrange(b, pos, s, 0, 8);
            assert(s.subrange(0, 8) =~= enc_padded(bundle_lit()));
            lemma_dec_str0_enc(b, pos, end, bundle_lit());
            let np = pos + 8;
            lemma_subrange_of_subrange(b, pos, s, 8, 4);
            assert(s.subrange(8, 12) =~= enc_u32(sec));
            lemma_dec_enc_u32(b, np, sec);
            lemma_subrange_of_subrange(b, pos, s, 12, 4);
            assert(s.subrange(12, 16) =~= enc_u32(frac));
            lemma_dec_enc_u32(b, np + 4, frac);
            let elen = crate::wire::enc_elements(elements, 0).len() as int;
            lemma_subrange_of_subrange(b, pos, s, 16, elen);
            assert(s.subrange(16, 16 + elen) =~= crate::wire::enc_elements(elements, 0));
            lemma_dec_elements_enc(b, np + 8, end, elements, 0);
            assert(elements.skip(0) =~= elements);
        },
    }
}

/// Encoded bundle elements read back as themselves, consuming the
/// payload exactly.
proof fn lemma_dec_elements_enc(b: Seq<u8>, pos: int, end: int, elements: Seq<PacketV>, i: int)
    requires
        0 <= i <= elements.len(),
        forall|j: int| 0 <= j < elements.len() ==> crate::wire::packet_wf(#[trigger] elements[j]),
        0 <= pos,
        end == pos + crate::wire::enc_elements(elements, i).len(),
        end <= b.len(),
        b.subrange(pos, end) == crate::wire::enc_elements(elements, i),
    ensures
        crate::wire::dec_elements(b, pos, end) == Ok::<Seq<PacketV>, Error>(elements.skip(i)),
    decreases elements, 2int, elements.len() - i,
{
    if i == elements.len() {
        assert(elements.skip(i) =~= Seq::<PacketV>::empty());
    } else {
        let el = elements[i];
        let s = crate::wire::enc_elements(elements, i);
        lemma_enc_packet_len(el);
        let plen = enc_packet(el).len() as int;
        lemma_subrange_of_subrange(b, pos, s, 0, plen);
        assert(s.subrange(0, plen) =~= enc_packet(el));
        lemma_dec_packet_enc(b, pos, end, el);
        let np = pos + plen;
        let rlen = crate::wire::enc_elements(elements, i + 1).len() as int;
        lemma_subrange_of_subrange(b, pos, s, plen, rlen);
        assert(s.subrange(plen, plen + rlen) =~= crate::wire::enc_elements(elements, i + 1));
        lemma_dec_elements_enc(b, np, end, elements, i + 1);
        assert(seq![el] + elements.skip(i + 1) =~= elements.skip(i));
    }
}

/// An encoded packet, length prefix included, reads back as itself.
proof fn lemma_dec_packet_enc(b: Seq<u8>, pos: int, end: int, p: PacketV)
    requires
        crate::wire::packet_wf(p),
        0 <= pos,
        pos + enc_packet(p).len() <= end <= b.len(),
        b.subrange(pos, pos + enc_packet(p).len() as int) == enc_packet(p),
    ensures
        crate::wire::dec_packet(b, pos, end) == Ok::<(PacketV, int), Error>((
            p,
            pos + enc_packet(p).len(),
        )),
    decreases p, 1int, 0int,
{
    lemma_enc_packet_len(p);
    lemma_payload_len(p);
    let pl = payload_of(p);
    let s = enc_packet(p);
    lemma_subrange_of_subrange(b, pos, s, 0, 4);
    assert(s.subrange(0, 4) =~= enc_i32(pl.len() as i32));
    lemma_dec_enc_i32(b, pos, pl.len() as i32);
    lemma_subrange_of_subrange(b, pos, s, 4, pl.len() as int);
    assert(s.subrange(4, 4 + pl.len() as int) =~= pl);
    lemma_dec_payload_enc(b, pos + 4, pos + 4 + pl.len() as int, p);
}

/// Round trip: decoding an encoded packet yields the packet back, both
/// with the length prefix on the wire and as a bare payload.
pub proof fn law_round_trip(p: PacketV)
    requires
        crate::wire::packet_wf(p),
    ensures
        crate::wire::dec_framed(enc_packet(p)) == Ok::<PacketV, Error>(p),
        crate::wire::dec_unframed(payload_of(p)) == Ok::<PacketV, Error>(p),
{
    lemma_enc_packet_len(p);
    lemma_payload_len(p);
    let b = enc_packet(p);
    assert(b.subrange(0, b.len() as int) =~= b);
    lemma_dec_packet_enc(b, 0, b.len() as int, p);
    let pb = payload_of(p);
    assert(pb.subrange(0, pb.len() as int) =~= pb);
    lemma_dec_payload_enc(pb, 0, pb.len() as int, p);
}

/// Length prefix exactness: the `i32` the encoder writes before a
/// payload is exactly that payload's byte count, itself a multiple of
/// four.
pub proof fn law_length_prefix(p: PacketV)
    requires
        payload_of(p).len() <= 0x7fffffff,
    ensures
        enc_packet(p) == enc_i32(payload_of(p).len() as i32) + payload_of(p),
        dec_i32_at(enc_packet(p), 0) == payload_of(p).len(),
        payload_of(p).len() % 4 == 0,
{
    lemma_payload_len(p);
    lemma_enc_packet_len(p);
    assert(enc_packet(p).subrange(0, 4) =~= enc_i32(payload_of(p).len() as i32));
    lemma_dec_enc_i32(enc_packet(p), 0, payload_of(p).len() as i32);
}

} // verus!
