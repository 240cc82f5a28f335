use serde_osc::de::from_slice;
use serde_osc::de::pkt_deserializer::{OwnedPktDeserializer, PktDeserializer};
use serde_osc::maybeskipcomma::MaybeSkipComma;
use serde_osc::oscarg::{OscArg, Packet, TimeTag};
use serde_osc::Framing;

#[test]
fn auto_de() {
    let expected = Packet::Message {
        address: "/example/path".to_owned(),
        args: vec![
            OscArg::I32(0x01020304),
            OscArg::F32(440.0f32.to_bits()),
            OscArg::Blob(vec![0xde, 0xad, 0xbe, 0xef, 0xff]),
        ],
    };

    // Note: 0x43dc0000 is 440.0 in f32.
    let test_input = b"\x00\x00\x00\x2C/example/path\0\0\0,ifb\0\0\0\0\x01\x02\x03\x04\x43\xdc\0\0\0\0\0\x05\xde\xad\xbe\xef\xff\x00\x00\x00";

    let deserialized = from_slice(&test_input[..], Framing::Framed).unwrap();
    assert_eq!(deserialized, expected);
}

#[test]
fn manual_de() {
    let test_input = b"\x00\x00\x00\x2C/example/path\0\0\0,ifb\0\0\0\0\x01\x02\x03\x04\x43\xdc\0\0\0\0\0\x05\xde\xad\xbe\xef\xff\x00\x00\x00";
    let expected = Packet::Message {
        address: "/example/path".to_owned(),
        args: vec![
            OscArg::I32(0x01020304),
            OscArg::F32(440.0f32.to_bits()),
            OscArg::Blob(vec![0xde, 0xad, 0xbe, 0xef, 0xff]),
        ],
    };
    let mut test_de = PktDeserializer::new(&test_input[..]);
    let deserialized = test_de.deserialize().unwrap();
    match &deserialized {
        Packet::Message { address, args } => {
            assert_eq!(address, "/example/path");
            assert_eq!(args.len(), 3);
        }
        Packet::Bundle { .. } => panic!("expected a message"),
    }
    assert_eq!(deserialized, expected);
}

#[test]
fn basic() {
    let test_input = b"\x00\x00\x00\x1c/example/path\0\0\0,ii\0\x01\x02\x03\x04\x05\x06\x07\x08";
    let expected = Packet::Message {
        address: "/example/path".to_owned(),
        args: vec![OscArg::I32(0x01020304), OscArg::I32(0x05060708)],
    };
    let mut test_de = OwnedPktDeserializer::new(test_input.to_vec());
    let deserialized = test_de.deserialize().unwrap();
    assert_eq!(deserialized, expected);
}

#[test]
fn to_tuple() {
    let expected = Packet::Message { address: "/ts".to_owned(), args: vec![] };
    let test_input = b"\x00\x00\x00\x08/ts\0,\0\0\0";
    let deserialized = from_slice(&test_input[..], Framing::Framed).unwrap();
    assert_eq!(deserialized, expected);
}

#[test]
fn to_array() {
    let expected = Packet::Message { address: "/ts".to_owned(), args: vec![] };
    let test_input = b"\x00\x00\x00\x08/ts\0,\0\0\0";
    let deserialized = from_slice(&test_input[..], Framing::Framed).unwrap();
    assert_eq!(deserialized, expected);
}

#[test]
fn to_unit_struct() {
    let expected = Packet::Message { address: "/ts".to_owned(), args: vec![] };
    let test_input = b"\x00\x00\x00\x08/ts\0,\0\0\0";
    let deserialized = from_slice(&test_input[..], Framing::Framed).unwrap();
    assert_eq!(deserialized, expected);
}

#[test]
fn bundle_bundle() {
    let expected = Packet::Bundle {
        time: TimeTag { sec: 0x01020304, frac: 0x05060708 },
        elements: vec![
            Packet::Message {
                address: "/m1".to_owned(),
                args: vec![OscArg::I32(0x5eeeeeed)],
            },
            Packet::Message {
                address: "/m2".to_owned(),
                args: vec![OscArg::F32(440.0f32.to_bits())],
            },
        ],
    };

    // Note: 0x43dc0000 is 440.0 in f32.
    let test_input = b"\x00\x00\x00\x30#bundle\0\x01\x02\x03\x04\x05\x06\x07\x08\x00\x00\x00\x0C/m1\0,i\0\0\x5E\xEE\xEE\xED\x00\x00\x00\x0C/m2\0,f\0\0\x43\xdc\x00\x00";

    let deserialized = from_slice(&test_input[..], Framing::Framed).unwrap();
    assert_eq!(deserialized, expected);
}

#[test]
fn missing_comma_tolerated() {
    // the same two-int message, with the type-tag string written without
    // its leading comma: decoding yields the same arguments
    let with_comma = b"\x00\x00\x00\x1c/example/path\0\0\0,ii\0\x01\x02\x03\x04\x05\x06\x07\x08";
    let without_comma = b"\x00\x00\x00\x1c/example/path\0\0\0ii\0\0\x01\x02\x03\x04\x05\x06\x07\x08";
    let a = from_slice(&with_comma[..], Framing::Framed).unwrap();
    let b = from_slice(&without_comma[..], Framing::Framed).unwrap();
    assert_eq!(a, b);
}

#[test]
fn unframed_decode() {
    let payload = b"/ts\0,\0\0\0";
    let expected = Packet::Message { address: "/ts".to_owned(), args: vec![] };
    let deserialized = from_slice(&payload[..], Framing::Unframed).unwrap();
    assert_eq!(deserialized, expected);
}

#[test]
fn non_ascii_string_arg() {
    // "/s" message with one string argument holding a two-byte UTF-8
    // character: 0xC3 0xA9 is 'e' with an acute accent
    let test_input = b"\x00\x00\x00\x0c/s\0\0,s\0\0\xc3\xa9\0\0";
    let deserialized = from_slice(&test_input[..], Framing::Framed).unwrap();
    let expected = Packet::Message {
        address: "/s".to_owned(),
        args: vec![OscArg::Str("\u{e9}".to_owned())],
    };
    assert_eq!(deserialized, expected);
}

#[test]
fn packet_stream() {
    // two framed packets back to back: the cursor lands on the second
    let test_input = b"\x00\x00\x00\x08/ts\0,\0\0\0\x00\x00\x00\x08/t2\0,\0\0\0";
    let mut de = PktDeserializer::new(&test_input[..]);
    let first = de.deserialize().unwrap();
    let second = de.deserialize().unwrap();
    assert_eq!(first, Packet::Message { address: "/ts".to_owned(), args: vec![] });
    assert_eq!(second, Packet::Message { address: "/t2".to_owned(), args: vec![] });
}

#[test]
fn comma_cursor() {
    // a leading comma is dropped; every later byte comes back verbatim
    let mut tags = MaybeSkipComma::new(vec![b',', b'i', b'f', b',']);
    assert_eq!(tags.next(), Some(b'i'));
    assert_eq!(tags.next(), Some(b'f'));
    assert_eq!(tags.next(), Some(b','));
    assert_eq!(tags.next(), None);
    // without a leading comma the first byte is kept
    let mut tags = MaybeSkipComma::new(vec![b'i', b'f']);
    assert_eq!(tags.next(), Some(b'i'));
    assert_eq!(tags.next(), Some(b'f'));
    assert_eq!(tags.next(), None);
}
