use serde_osc::de::from_slice;
use serde_osc::error::Error;
use serde_osc::oscarg::{OscArg, Packet, TimeTag};
use serde_osc::ser::to_vec;
use serde_osc::Framing;

#[test]
fn negative_length() {
    // a negative length header fails with BadFormat without reading on
    let test_input = b"\xFF\xFF\xFF\xFF/ts\0,\0\0\0";
    let r = from_slice(&test_input[..], Framing::Framed);
    assert!(matches!(r, Err(Error::BadFormat)));
}

#[test]
fn length_past_available_bytes() {
    // a length larger than the bytes that follow fails with Io
    let test_input = b"\x00\x00\x00\x20/ts\0,\0\0\0";
    let r = from_slice(&test_input[..], Framing::Framed);
    assert!(matches!(r, Err(Error::Io)));
}

#[test]
fn truncated_header() {
    let test_input = b"\x00\x00";
    let r = from_slice(&test_input[..], Framing::Framed);
    assert!(matches!(r, Err(Error::Io)));
}

#[test]
fn bad_string_padding() {
    // the type-tag string's padding carries a non-zero byte
    let test_input = b"\x00\x00\x00\x08/ts\0,\0\0\x01";
    let r = from_slice(&test_input[..], Framing::Framed);
    assert!(matches!(r, Err(Error::BadPadding)));
}

#[test]
fn bad_blob_padding() {
    // a blob of declared length 5 whose final pad byte is non-zero
    let test_input = b"\x00\x00\x00\x14/b\0\0,b\0\0\x00\x00\x00\x05\xde\xad\xbe\xef\xff\0\0\x01";
    let r = from_slice(&test_input[..], Framing::Framed);
    assert!(matches!(r, Err(Error::BadPadding)));
}

#[test]
fn unsupported_type_tag() {
    // 'x' is not one of the four OSC 1.0 argument tags
    let test_input = b"\x00\x00\x00\x0c/ts\0,x\0\0\0\0\0\0";
    let r = from_slice(&test_input[..], Framing::Framed);
    assert!(matches!(r, Err(Error::UnsupportedType)));
}

#[test]
fn non_utf8_address() {
    // 0xFF can start no UTF-8 sequence
    let test_input = b"\x00\x00\x00\x08\xff\xfe\xfd\0,\0\0\0";
    let r = from_slice(&test_input[..], Framing::Framed);
    assert!(matches!(r, Err(Error::BadString)));
}

#[test]
fn non_utf8_string_arg() {
    let test_input = b"\x00\x00\x00\x0c/s\0\0,s\0\0\xff\xfe\xfd\0";
    let r = from_slice(&test_input[..], Framing::Framed);
    assert!(matches!(r, Err(Error::BadString)));
}

#[test]
fn residual_bytes_after_args() {
    // four junk bytes after the declared arguments: the payload is not
    // consumed exactly
    let test_input = b"\x00\x00\x00\x0c/ts\0,\0\0\0\x01\x02\x03\x04";
    let r = from_slice(&test_input[..], Framing::Framed);
    assert!(matches!(r, Err(Error::BadFormat)));
}

#[test]
fn negative_blob_length() {
    let test_input = b"\x00\x00\x00\x10/b\0\0,b\0\0\xff\xff\xff\xff\0\0\0\0";
    let r = from_slice(&test_input[..], Framing::Framed);
    assert!(matches!(r, Err(Error::BadFormat)));
}

#[test]
fn truncated_arguments() {
    // the tag string declares an i32 but the payload ends first
    let test_input = b"\x00\x00\x00\x08/ts\0,i\0\0";
    let r = from_slice(&test_input[..], Framing::Framed);
    assert!(matches!(r, Err(Error::Io)));
}

#[test]
fn empty_bundle_round_trips() {
    let pkt = Packet::Bundle { time: TimeTag { sec: 1, frac: 2 }, elements: vec![] };
    let bytes = to_vec(&pkt, Framing::Framed).unwrap();
    assert_eq!(bytes.len(), 4 + 8 + 8);
    let back = from_slice(&bytes[..], Framing::Framed).unwrap();
    assert_eq!(back, pkt);
}
