use serde_osc::de::from_slice;
use serde_osc::oscarg::{OscArg, Packet, TimeTag};
use serde_osc::ser::to_vec;
use serde_osc::Framing;

fn example_message() -> Packet {
    Packet::Message {
        address: "/example/path".to_owned(),
        args: vec![
            OscArg::I32(0x01020304),
            OscArg::F32(440.0f32.to_bits()),
            OscArg::Str("hello".to_owned()),
            OscArg::Blob(vec![0xde, 0xad, 0xbe, 0xef, 0xff]),
        ],
    }
}

fn check_round_trip(pkt: &Packet) {
    let framed = to_vec(pkt, Framing::Framed).unwrap();
    let back = from_slice(&framed[..], Framing::Framed).unwrap();
    assert_eq!(&back, pkt);
    let payload = to_vec(pkt, Framing::Unframed).unwrap();
    let back2 = from_slice(&payload[..], Framing::Unframed).unwrap();
    assert_eq!(&back2, pkt);
}

#[test]
fn message_all_arg_kinds() {
    check_round_trip(&example_message());
}

#[test]
fn blob_sizes() {
    for n in [0usize, 1, 2, 3, 4, 5, 63, 64, 1023, 1024] {
        let data = (0..n).map(|i| (i % 251) as u8).collect::<Vec<u8>>();
        let pkt = Packet::Message {
            address: "/blob".to_owned(),
            args: vec![OscArg::Blob(data)],
        };
        check_round_trip(&pkt);
    }
}

#[test]
fn string_lengths() {
    for n in 0usize..9 {
        let s = "x".repeat(n);
        let pkt = Packet::Message {
            address: "/str".to_owned(),
            args: vec![OscArg::Str(s)],
        };
        check_round_trip(&pkt);
    }
}

#[test]
fn nested_bundles() {
    let mut pkt = Packet::Message {
        address: "/leaf".to_owned(),
        args: vec![OscArg::I32(7)],
    };
    for depth in 0u32..4 {
        pkt = Packet::Bundle {
            time: TimeTag { sec: depth, frac: depth + 1 },
            elements: vec![pkt],
        };
        check_round_trip(&pkt);
    }
}

#[test]
fn bundle_of_many() {
    let elements = (0..5)
        .map(|i: i32| Packet::Message {
            address: format!("/m/{}", i),
            args: vec![OscArg::I32(i)],
        })
        .collect::<Vec<Packet>>();
    let pkt = Packet::Bundle { time: TimeTag { sec: 9, frac: 10 }, elements };
    check_round_trip(&pkt);
}

#[test]
fn scenario_bytes_round_trip() {
    // the three wire scenarios re-encode to their exact input bytes
    let inputs: [&[u8]; 3] = [
        b"\x00\x00\x00\x2C/example/path\0\0\0,ifb\0\0\0\0\x01\x02\x03\x04\x43\xdc\0\0\0\0\0\x05\xde\xad\xbe\xef\xff\x00\x00\x00",
        b"\x00\x00\x00\x08/ts\0,\0\0\0",
        b"\x00\x00\x00\x30#bundle\0\x01\x02\x03\x04\x05\x06\x07\x08\x00\x00\x00\x0C/m1\0,i\0\0\x5E\xEE\xEE\xED\x00\x00\x00\x0C/m2\0,f\0\0\x43\xdc\x00\x00",
    ];
    for input in inputs {
        let pkt = from_slice(input, Framing::Framed).unwrap();
        let out = to_vec(&pkt, Framing::Framed).unwrap();
        assert_eq!(&out[..], input);
    }
}

#[test]
fn negative_and_extreme_ints() {
    let pkt = Packet::Message {
        address: "/i".to_owned(),
        args: vec![
            OscArg::I32(i32::MIN),
            OscArg::I32(-1),
            OscArg::I32(0),
            OscArg::I32(i32::MAX),
            OscArg::F32(f32::NEG_INFINITY.to_bits()),
            OscArg::F32(0.0f32.to_bits()),
        ],
    };
    check_round_trip(&pkt);
}

#[test]
fn time_tag_extremes() {
    let pkt = Packet::Bundle {
        time: TimeTag { sec: u32::MAX, frac: 0 },
        elements: vec![Packet::Message { address: "/t".to_owned(), args: vec![] }],
    };
    check_round_trip(&pkt);
}
