use osc_send::arg::OscArg;
use osc_send::encoder::{encode, type_tag_string};
use osc_send::message::OscMessage;
use rosc::{OscPacket, OscType};

fn message(addr: &str, args: Vec<OscArg>) -> OscMessage {
    OscMessage { addr: addr.to_string(), args }
}

fn reference_bytes(msg: &OscMessage) -> Vec<u8> {
    let args = msg
        .args
        .iter()
        .map(|arg| match arg {
            OscArg::Int(i) => OscType::Int(*i),
            OscArg::Float(bits) => OscType::Float(f32::from_bits(*bits)),
            OscArg::String(s) => OscType::String(s.clone()),
        })
        .collect();
    let packet = OscPacket::Message(rosc::OscMessage { addr: msg.addr.clone(), args });
    rosc::encoder::encode(&packet).unwrap()
}

#[test]
fn no_arguments() {
    let bytes = encode(&message("/test", vec![]));
    assert_eq!(&bytes[..8], b"/test\0\0\0");
    assert_eq!(&bytes[8..12], b",\0\0\0");
    assert_eq!(bytes.len(), 12);
}

#[test]
fn one_integer() {
    let bytes = encode(&message("/foo", vec![OscArg::Int(42)]));
    assert_eq!(&bytes[..8], b"/foo\0\0\0\0");
    assert_eq!(&bytes[8..12], b",i\0\0");
    assert_eq!(&bytes[12..], [0x00, 0x00, 0x00, 0x2A]);
}

#[test]
fn one_text() {
    let bytes = encode(&message("/bar", vec![OscArg::String("hi".to_string())]));
    assert_eq!(&bytes[..8], b"/bar\0\0\0\0");
    assert_eq!(&bytes[8..12], b",s\0\0");
    assert_eq!(&bytes[12..], b"hi\0\0");
}

#[test]
fn integer_float_and_text() {
    let args = vec![
        OscArg::Int(1),
        OscArg::Float(2.5f32.to_bits()),
        OscArg::String("x".to_string()),
    ];
    let bytes = encode(&message("/mix", args));
    assert_eq!(&bytes[..8], b"/mix\0\0\0\0");
    assert_eq!(&bytes[8..16], b",ifs\0\0\0\0");
    assert_eq!(&bytes[16..20], [0x00, 0x00, 0x00, 0x01]);
    assert_eq!(&bytes[20..24], [0x40, 0x20, 0x00, 0x00]);
    assert_eq!(&bytes[24..28], b"x\0\0\0");
    assert_eq!(bytes.len(), 28);
}

#[test]
fn integers_are_big_endian_twos_complement() {
    let cases: [(i32, [u8; 4]); 7] = [
        (0, [0x00, 0x00, 0x00, 0x00]),
        (1, [0x00, 0x00, 0x00, 0x01]),
        (-1, [0xFF, 0xFF, 0xFF, 0xFF]),
        (-2, [0xFF, 0xFF, 0xFF, 0xFE]),
        (0x01020304, [0x01, 0x02, 0x03, 0x04]),
        (i32::MAX, [0x7F, 0xFF, 0xFF, 0xFF]),
        (i32::MIN, [0x80, 0x00, 0x00, 0x00]),
    ];
    for (value, expected) in cases {
        let bytes = encode(&message("/n", vec![OscArg::Int(value)]));
        assert_eq!(&bytes[8..], expected);
        assert_eq!(&bytes[8..], value.to_be_bytes());
    }
}

#[test]
fn floats_are_big_endian_single_precision() {
    let cases: [(f32, [u8; 4]); 6] = [
        (0.0, [0x00, 0x00, 0x00, 0x00]),
        (1.0, [0x3F, 0x80, 0x00, 0x00]),
        (-2.0, [0xC0, 0x00, 0x00, 0x00]),
        (2.5, [0x40, 0x20, 0x00, 0x00]),
        (f32::INFINITY, [0x7F, 0x80, 0x00, 0x00]),
        (f32::MAX, [0x7F, 0x7F, 0xFF, 0xFF]),
    ];
    for (value, expected) in cases {
        let bytes = encode(&message("/x", vec![OscArg::Float(value.to_bits())]));
        assert_eq!(&bytes[..4], b"/x\0\0");
        assert_eq!(&bytes[4..8], b",f\0\0");
        assert_eq!(&bytes[8..], expected);
    }
}

#[test]
fn text_is_terminated_and_aligned() {
    let cases: [(&str, &[u8]); 6] = [
        ("", b"\0\0\0\0"),
        ("a", b"a\0\0\0"),
        ("ab", b"ab\0\0"),
        ("abc", b"abc\0"),
        ("abcd", b"abcd\0\0\0\0"),
        ("abcde", b"abcde\0\0\0"),
    ];
    for (text, expected) in cases {
        let bytes = encode(&message("/t", vec![OscArg::String(text.to_string())]));
        assert_eq!(&bytes[8..], expected);
    }
}

#[test]
fn address_is_terminated_and_aligned() {
    let cases: [(&str, &[u8]); 5] = [
        ("", b"\0\0\0\0"),
        ("/", b"/\0\0\0"),
        ("/ab", b"/ab\0"),
        ("/abc", b"/abc\0\0\0\0"),
        ("/synth/freq", b"/synth/freq\0"),
    ];
    for (addr, expected) in cases {
        let bytes = encode(&message(addr, vec![]));
        assert_eq!(&bytes[..expected.len()], expected);
        assert_eq!(&bytes[expected.len()..], b",\0\0\0");
    }
}

#[test]
fn type_tags_fill_a_word_exactly() {
    let three = vec![OscArg::Int(1), OscArg::Int(2), OscArg::Int(3)];
    let bytes = encode(&message("/a", three));
    assert_eq!(&bytes[4..12], b",iii\0\0\0\0");
    assert_eq!(bytes.len(), 4 + 8 + 12);
    let two = vec![OscArg::Int(1), OscArg::Int(2)];
    let bytes = encode(&message("/a", two));
    assert_eq!(&bytes[4..8], b",ii\0");
    assert_eq!(bytes.len(), 4 + 4 + 8);
}

#[test]
fn type_tags_follow_the_arguments() {
    assert_eq!(type_tag_string(&vec![]), ",");
    let args = vec![
        OscArg::String("a".to_string()),
        OscArg::Float(0),
        OscArg::Int(0),
        OscArg::Int(1),
        OscArg::String(String::new()),
    ];
    assert_eq!(type_tag_string(&args), ",sfiis");
}

#[test]
fn text_outside_ascii_goes_out_as_utf8() {
    let bytes = encode(&message("/é", vec![OscArg::String("日本".to_string())]));
    assert_eq!(&bytes[..4], [b'/', 0xC3, 0xA9, 0x00]);
    assert_eq!(&bytes[4..8], b",s\0\0");
    assert_eq!(&bytes[8..], [0xE6, 0x97, 0xA5, 0xE6, 0x9C, 0xAC, 0x00, 0x00]);
}

#[test]
fn malformed_address_is_encoded_as_given() {
    let bytes = encode(&message("no slash here", vec![]));
    assert_eq!(&bytes[..16], b"no slash here\0\0\0");
    assert_eq!(&bytes[16..], b",\0\0\0");
}

#[test]
fn length_is_a_multiple_of_four() {
    let mut args = Vec::new();
    for n in 0..40usize {
        let addr = "/".repeat(n);
        assert_eq!(encode(&message(&addr, args.clone())).len() % 4, 0);
        args.push(match n % 3 {
            0 => OscArg::Int(n as i32),
            1 => OscArg::Float((n as f32).to_bits()),
            _ => OscArg::String("x".repeat(n)),
        });
        assert_eq!(encode(&message(&addr, args.clone())).len() % 4, 0);
    }
}

#[test]
fn encoding_twice_gives_the_same_bytes() {
    let msg = message(
        "/synth/freq",
        vec![
            OscArg::Int(-7),
            OscArg::Float(440.0f32.to_bits()),
            OscArg::String("sine".to_string()),
        ],
    );
    let first = encode(&msg);
    let second = encode(&msg);
    assert_eq!(first, second);
    assert_eq!(encode(&msg.clone()), first);
}

#[test]
fn order_of_arguments_is_kept() {
    let ab = encode(&message("/o", vec![OscArg::Int(1), OscArg::String("b".to_string())]));
    let ba = encode(&message("/o", vec![OscArg::String("b".to_string()), OscArg::Int(1)]));
    assert_eq!(&ab[4..], b",is\0\0\0\0\x01b\0\0\0");
    assert_eq!(&ba[4..], b",si\0b\0\0\0\0\0\0\x01");
}

#[test]
fn agrees_with_rosc_on_whole_messages() {
    let texts = ["", "a", "ab", "abc", "abcd", "hello world", "naïve", "日本語"];
    let ints = [0, 1, -1, 42, i32::MAX, i32::MIN, 0x01020304];
    let floats = [0.0f32, -0.0, 1.0, 2.5, 3.14, -1e-30, f32::MAX, f32::MIN_POSITIVE, f32::INFINITY];
    let mut args = Vec::new();
    for round in 0..9usize {
        args.push(OscArg::String(texts[round % texts.len()].to_string()));
        args.push(OscArg::Int(ints[round % ints.len()]));
        args.push(OscArg::Float(floats[round].to_bits()));
        for addr in ["", "/", "/a", "/ab", "/abc", "/synth/1/freq"] {
            let msg = message(addr, args.clone());
            assert_eq!(encode(&msg), reference_bytes(&msg));
            let tail = message(addr, args[round..].to_vec());
            assert_eq!(encode(&tail), reference_bytes(&tail));
        }
    }
}

#[test]
fn agrees_with_rosc_on_every_float_class() {
    let patterns: [u32; 8] = [
        0x0000_0000,
        0x8000_0000,
        0x0000_0001,
        0x7F80_0000,
        0xFF80_0000,
        0x7FC0_0000,
        0xFFC0_0000,
        0x3F80_0000,
    ];
    for bits in patterns {
        let msg = message("/f", vec![OscArg::Float(bits)]);
        let bytes = encode(&msg);
        assert_eq!(&bytes[8..], bits.to_be_bytes());
        assert_eq!(bytes, reference_bytes(&msg));
    }
}
