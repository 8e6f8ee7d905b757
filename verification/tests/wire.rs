use oscquery::osc::{Arg, Bundle, Message, Packet};
use oscquery::wire::{decode, import_arg, import_packet, DecodeFailure};
use rosc::{
    OscArray, OscBundle, OscColor, OscMessage, OscMidiMessage, OscPacket, OscTime, OscType,
};

fn encoded(packet: &OscPacket) -> Vec<u8> {
    rosc::encoder::encode(packet).unwrap()
}

#[test]
fn a_message_with_every_kind_of_argument() {
    let raw = OscPacket::Message(OscMessage {
        addr: "/foo/bar".to_string(),
        args: vec![
            OscType::Int(-5),
            OscType::Float(1.5),
            OscType::String("hello".to_string()),
            OscType::Blob(vec![1, 2, 3, 4, 5]),
            OscType::Time(OscTime {
                seconds: 100,
                fractional: 7,
            }),
            OscType::Long(1 << 40),
            OscType::Double(-2.25),
            OscType::Char('q'),
            OscType::Color(OscColor {
                red: 1,
                green: 2,
                blue: 3,
                alpha: 4,
            }),
            OscType::Midi(OscMidiMessage {
                port: 9,
                status: 8,
                data1: 7,
                data2: 6,
            }),
            OscType::Bool(true),
            OscType::Bool(false),
            OscType::Array(OscArray {
                content: vec![
                    OscType::Int(1),
                    OscType::Array(OscArray {
                        content: vec![OscType::Float(-0.0), OscType::Nil],
                    }),
                ],
            }),
            OscType::Nil,
            OscType::Inf,
        ],
    });
    let expected = Packet::Message(Message {
        addr: "/foo/bar".to_string(),
        args: vec![
            Arg::Int(-5),
            Arg::Float(0x3fc0_0000),
            Arg::String("hello".to_string()),
            Arg::Blob(vec![1, 2, 3, 4, 5]),
            Arg::Time(100, 7),
            Arg::Long(1 << 40),
            Arg::Double(0xc002_0000_0000_0000),
            Arg::Char('q'),
            Arg::Color(1, 2, 3, 4),
            Arg::Midi(9, 8, 7, 6),
            Arg::Bool(true),
            Arg::Bool(false),
            Arg::Array(vec![
                Arg::Int(1),
                Arg::Array(vec![Arg::Float(0x8000_0000), Arg::Nil]),
            ]),
            Arg::Nil,
            Arg::Inf,
        ],
    });
    assert_eq!(decode(&encoded(&raw)), Ok(expected));
}

#[test]
fn floats_come_as_their_bits() {
    for x in [0.0f32, -0.0, 1.0, -1.0, 3.5, f32::MAX, f32::MIN_POSITIVE, f32::INFINITY] {
        assert_eq!(import_arg(&OscType::Float(x)), Arg::Float(x.to_bits()));
    }
    for x in [0.0f64, -0.0, 1.0, -1.0, 3.5, f64::MAX, f64::MIN_POSITIVE, f64::NEG_INFINITY] {
        assert_eq!(import_arg(&OscType::Double(x)), Arg::Double(x.to_bits()));
    }
    match import_arg(&OscType::Float(f32::NAN)) {
        Arg::Float(bits) => assert!(f32::from_bits(bits).is_nan()),
        other => panic!("{:?}", other),
    }
    assert_eq!(import_arg(&OscType::Float(1.0)), Arg::Float(0x3f80_0000));
    assert_eq!(
        import_arg(&OscType::Double(1.0)),
        Arg::Double(0x3ff0_0000_0000_0000)
    );
}

#[test]
fn a_message_without_arguments() {
    let raw = OscPacket::Message(OscMessage {
        addr: "/ping".to_string(),
        args: vec![],
    });
    assert_eq!(
        decode(&encoded(&raw)),
        Ok(Packet::Message(Message {
            addr: "/ping".to_string(),
            args: vec![],
        }))
    );
    assert_eq!(
        decode(b"/ping\0\0\0,\0\0\0"),
        Ok(Packet::Message(Message {
            addr: "/ping".to_string(),
            args: vec![],
        }))
    );
}

#[test]
fn a_message_by_its_bytes() {
    let bytes = b"/a\0\0,if\0\0\0\0\x07\x3f\x80\0\0";
    assert_eq!(
        decode(bytes),
        Ok(Packet::Message(Message {
            addr: "/a".to_string(),
            args: vec![Arg::Int(7), Arg::Float(0x3f80_0000)],
        }))
    );
}

#[test]
fn nested_bundles() {
    let raw = OscPacket::Bundle(OscBundle {
        timetag: OscTime {
            seconds: 1,
            fractional: 2,
        },
        content: vec![
            OscPacket::Message(OscMessage {
                addr: "/a".to_string(),
                args: vec![OscType::Int(1)],
            }),
            OscPacket::Bundle(OscBundle {
                timetag: OscTime {
                    seconds: 3,
                    fractional: 4,
                },
                content: vec![OscPacket::Message(OscMessage {
                    addr: "/b".to_string(),
                    args: vec![OscType::String("x".to_string())],
                })],
            }),
            OscPacket::Bundle(OscBundle {
                timetag: OscTime {
                    seconds: 5,
                    fractional: 6,
                },
                content: vec![],
            }),
        ],
    });
    let expected = Packet::Bundle(Bundle {
        timetag: (1, 2),
        content: vec![
            Packet::Message(Message {
                addr: "/a".to_string(),
                args: vec![Arg::Int(1)],
            }),
            Packet::Bundle(Bundle {
                timetag: (3, 4),
                content: vec![Packet::Message(Message {
                    addr: "/b".to_string(),
                    args: vec![Arg::String("x".to_string())],
                })],
            }),
            Packet::Bundle(Bundle {
                timetag: (5, 6),
                content: vec![],
            }),
        ],
    });
    assert_eq!(import_packet(&raw), expected);
    assert_eq!(decode(&encoded(&raw)), Ok(expected));
}

#[test]
fn bytes_that_are_no_packet() {
    assert_eq!(decode(b""), Err(DecodeFailure));
    assert_eq!(decode(b"hello"), Err(DecodeFailure));
    assert_eq!(decode(b"foo\0"), Err(DecodeFailure));
    assert_eq!(decode(b"/a\0\0,i\0\0\0\0"), Err(DecodeFailure));
    assert_eq!(decode(b"#bundle\0\0\0\0"), Err(DecodeFailure));
    assert_eq!(decode(b"/a\0\0,z\0\0"), Err(DecodeFailure));
    assert_eq!(decode(&[0xff, 0xfe, 0, 0]), Err(DecodeFailure));
    assert_eq!(decode(b"{\"COMMAND\":\"LISTEN\"}"), Err(DecodeFailure));
}

#[test]
fn what_follows_the_packet_is_ignored() {
    let mut bytes = encoded(&OscPacket::Message(OscMessage {
        addr: "/a".to_string(),
        args: vec![OscType::Int(1)],
    }));
    bytes.extend_from_slice(b"trailing");
    assert_eq!(
        decode(&bytes),
        Ok(Packet::Message(Message {
            addr: "/a".to_string(),
            args: vec![Arg::Int(1)],
        }))
    );
}
