use serde_osc::oscarg::{OscArg, Packet, TimeTag};
use serde_osc::ser::pkt_serializer::{PktContents, PktSerializer};
use serde_osc::ser::pkt_type_decoder::{PktType, PktTypeDecoder};
use serde_osc::ser::timetag_ser::TimetagSer;
use serde_osc::error::Error;
use serde_osc::ser::to_vec;
use serde_osc::Framing;

#[test]
fn auto_ser() {
    let test_input = Packet::Message {
        address: "/example/path".to_owned(),
        args: vec![
            OscArg::I32(0x01020304),
            OscArg::F32(440.0f32.to_bits()),
            OscArg::Blob(vec![0xde, 0xad, 0xbe, 0xef, 0xff]),
        ],
    };

    // Note: 0x43dc0000 is 440.0 in f32.
    let expected = b"\x00\x00\x00\x2C/example/path\0\0\0,ifb\0\0\0\0\x01\x02\x03\x04\x43\xdc\0\0\0\0\0\x05\xde\xad\xbe\xef\xff\x00\x00\x00".to_vec();

    let output = to_vec(&test_input, Framing::Framed).unwrap();
    assert_eq!(output, expected);
}

#[test]
fn tuple_ser() {
    let test_input = Packet::Message {
        address: "/example/path".to_owned(),
        args: vec![
            OscArg::I32(0x01020304),
            OscArg::F32(440.0f32.to_bits()),
            OscArg::Blob(vec![0xde, 0xad, 0xbe, 0xef, 0xff]),
        ],
    };

    // Note: 0x43dc0000 is 440.0 in f32.
    let expected = b"/example/path\0\0\0,ifb\0\0\0\0\x01\x02\x03\x04\x43\xdc\0\0\0\0\0\x05\xde\xad\xbe\xef\xff\x00\x00\x00".to_vec();

    let output = to_vec(&test_input, Framing::Unframed).unwrap();
    assert_eq!(output, expected);
}

#[test]
fn unit_ser() {
    let test_input = Packet::Message { address: "/ts".to_owned(), args: vec![] };

    let expected = b"/ts\0,\0\0\0".to_vec();

    let output = to_vec(&test_input, Framing::Unframed).unwrap();
    assert_eq!(output, expected);
}

#[test]
fn bundle_ser() {
    let test_input = Packet::Bundle {
        time: TimeTag { sec: 0x01020304, frac: 0x05060708 },
        elements: vec![
            Packet::Message {
                address: "/m1".to_owned(),
                args: vec![OscArg::I32(0x5eeeeeed)],
            },
            Packet::Message {
                address: "/m2".to_owned(),
                args: vec![OscArg::F32(440.0f32.to_bits())],
            },
        ],
    };

    // Note: 0x43dc0000 is 440.0 in f32.
    let expected = b"\x00\x00\x00\x30#bundle\0\x01\x02\x03\x04\x05\x06\x07\x08\x00\x00\x00\x0C/m1\0,i\0\0\x5E\xEE\xEE\xED\x00\x00\x00\x0C/m2\0,f\0\0\x43\xdc\x00\x00".to_vec();

    let output = to_vec(&test_input, Framing::Framed).unwrap();
    assert_eq!(output, expected);
}

#[test]
fn serializer_appends_packets() {
    // a serializer keeps writing into the same buffer: two packets in a
    // row give one framed stream
    let mut ser = PktSerializer::new(Vec::new());
    ser.serialize_packet(&Packet::Message { address: "/ts".to_owned(), args: vec![] }).unwrap();
    ser.serialize_packet(&Packet::Message { address: "/t2".to_owned(), args: vec![] }).unwrap();
    let out = ser.into_inner();
    assert_eq!(out, b"\x00\x00\x00\x08/ts\0,\0\0\0\x00\x00\x00\x08/t2\0,\0\0\0".to_vec());
}

#[test]
fn length_prefix_counts_payload() {
    // the length field equals the payload byte count, and the payload is
    // 4-byte aligned
    let pkt = Packet::Message {
        address: "/a".to_owned(),
        args: vec![OscArg::Str("hi".to_owned()), OscArg::Blob(vec![1, 2, 3])],
    };
    let framed = to_vec(&pkt, Framing::Framed).unwrap();
    let payload = to_vec(&pkt, Framing::Unframed).unwrap();
    let n = i32::from_be_bytes([framed[0], framed[1], framed[2], framed[3]]);
    assert_eq!(n as usize, payload.len());
    assert_eq!(payload.len() % 4, 0);
    assert_eq!(&framed[4..], &payload[..]);
}

#[test]
fn blob_padding_on_wire() {
    // a blob of declared length 5 takes 4 + 5 + 3 bytes on the wire and
    // its final three bytes are zero
    let pkt = Packet::Message {
        address: "/b".to_owned(),
        args: vec![OscArg::Blob(vec![0xde, 0xad, 0xbe, 0xef, 0xff])],
    };
    let payload = to_vec(&pkt, Framing::Unframed).unwrap();
    // payload: "/b\0\0" ",b\0\0" then the blob
    assert_eq!(payload.len(), 4 + 4 + 4 + 5 + 3);
    assert_eq!(&payload[12..17], &[0xde, 0xad, 0xbe, 0xef, 0xff]);
    assert_eq!(&payload[17..20], &[0, 0, 0]);
}

#[test]
fn string_padding_on_wire() {
    // a 4-character address is followed by four zero bytes: always at
    // least one terminator, and the field ends on a 4-byte boundary
    let pkt = Packet::Message { address: "/abc".to_owned(), args: vec![] };
    let payload = to_vec(&pkt, Framing::Unframed).unwrap();
    assert_eq!(&payload[..], b"/abc\0\0\0\0,\0\0\0");
}

#[test]
fn timetag_arity() {
    // a time tag is exactly two u32s: fewer fails on close, a third is
    // refused outright
    let mut one = TimetagSer::new();
    one.serialize_u32(5).unwrap();
    assert!(matches!(one.finish(), Err(Error::BadFormat)));

    let mut three = TimetagSer::new();
    three.serialize_u32(1).unwrap();
    three.serialize_u32(2).unwrap();
    assert!(matches!(three.serialize_u32(3), Err(Error::BadFormat)));

    let mut two = TimetagSer::new();
    two.serialize_u32(1).unwrap();
    two.serialize_u32(2).unwrap();
    let tag = two.finish().unwrap();
    assert_eq!((tag.sec, tag.frac), (1, 2));
}

#[test]
fn probe_classifies_first_field() {
    let mut probe = PktTypeDecoder::new();
    assert!(matches!(probe.pkt_type(), PktType::Unknown));
    probe.serialize_str("/x");
    assert!(matches!(probe.pkt_type(), PktType::Msg));
    assert_eq!(probe.data(), b"/x\0\0".to_vec());

    let mut probe = PktTypeDecoder::new();
    probe.accept_timetag(TimeTag { sec: 0x01020304, frac: 0x05060708 });
    assert!(matches!(probe.pkt_type(), PktType::Bundle));
    assert_eq!(probe.data(), b"\x01\x02\x03\x04\x05\x06\x07\x08".to_vec());
}

#[test]
fn empty_packet_refused() {
    // a packet whose sequence closes before any field arrives has no
    // variant to commit to
    let pc = PktContents::new();
    let mut out: Vec<u8> = Vec::new();
    assert!(matches!(pc.end(&mut out), Err(Error::BadFormat)));
    assert!(out.is_empty());
}
