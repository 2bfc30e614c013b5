use flight_rpc::codec::{
    marshal_string, marshal_u32, marshal_u32_array, marshal_u8, unmarshal_string, unmarshal_u32,
    unmarshal_u32_array, unmarshal_u8,
};

#[test]
fn u8_round_trip_boundaries() {
    for v in [0u8, 1, 127, 255] {
        let mut buf = vec![9u8];
        marshal_u8(v, &mut buf);
        assert_eq!(buf, vec![9, v]);
        assert_eq!(unmarshal_u8(&buf, 1), (v, 2));
    }
}

#[test]
fn u32_is_big_endian() {
    let mut buf = Vec::new();
    marshal_u32(0x0102_0304, &mut buf);
    assert_eq!(buf, vec![1, 2, 3, 4]);
    assert_eq!(unmarshal_u32(&buf, 0), (0x0102_0304, 4));
}

#[test]
fn u32_round_trip_boundaries() {
    for v in [0u32, 1, 255, 256, 1_700_000_000, u32::MAX] {
        let mut buf = vec![7u8, 7];
        marshal_u32(v, &mut buf);
        assert_eq!(buf.len(), 6);
        assert_eq!(unmarshal_u32(&buf, 2), (v, 6));
    }
    let mut max = Vec::new();
    marshal_u32(u32::MAX, &mut max);
    assert_eq!(max, vec![255, 255, 255, 255]);
}

#[test]
fn string_round_trip_empty() {
    let mut buf = Vec::new();
    marshal_string("", &mut buf);
    assert_eq!(buf, vec![0]);
    assert_eq!(unmarshal_string(&buf, 0), (String::new(), 1));
}

#[test]
fn string_layout_and_round_trip() {
    let mut buf = vec![42u8];
    marshal_string("AB", &mut buf);
    assert_eq!(buf, vec![42, 2, b'A', b'B']);
    assert_eq!(unmarshal_string(&buf, 1), ("AB".to_string(), 4));
}

#[test]
fn string_round_trip_255_bytes() {
    let s = "x".repeat(255);
    let mut buf = Vec::new();
    marshal_string(&s, &mut buf);
    assert_eq!(buf.len(), 256);
    assert_eq!(buf[0], 255);
    assert_eq!(unmarshal_string(&buf, 0), (s, 256));
}

#[test]
fn string_round_trip_multibyte() {
    let s = "Z\u{fc}rich \u{4eac}";
    let mut buf = Vec::new();
    marshal_string(s, &mut buf);
    assert_eq!(buf[0] as usize, s.len());
    assert_eq!(unmarshal_string(&buf, 0), (s.to_string(), 1 + s.len()));
}

#[test]
fn string_length_prefix_wraps_past_255() {
    let s = "y".repeat(300);
    let mut buf = Vec::new();
    marshal_string(&s, &mut buf);
    assert_eq!(buf[0], (300 % 256) as u8);
    assert_eq!(buf.len(), 301);
}

#[test]
fn invalid_utf8_is_replaced_not_rejected() {
    let buf = vec![3u8, b'a', 0xff, b'b'];
    let (s, next) = unmarshal_string(&buf, 0);
    assert_eq!(s, "a\u{FFFD}b");
    assert_eq!(next, 4);
}

#[test]
fn u32_array_round_trip_empty() {
    let mut buf = Vec::new();
    marshal_u32_array(&[], &mut buf);
    assert_eq!(buf, vec![0]);
    assert_eq!(unmarshal_u32_array(&buf, 0), (vec![], 1));
}

#[test]
fn u32_array_layout() {
    let mut buf = Vec::new();
    marshal_u32_array(&[1, 0x0a0b0c0d], &mut buf);
    assert_eq!(buf, vec![2, 0, 0, 0, 1, 0x0a, 0x0b, 0x0c, 0x0d]);
    assert_eq!(unmarshal_u32_array(&buf, 0), (vec![1, 0x0a0b0c0d], 9));
}

#[test]
fn u32_array_round_trip_255_elements() {
    let v: Vec<u32> = (0..255u32).map(|k| k.wrapping_mul(16_777_619) ^ u32::MAX).collect();
    let mut buf = vec![1u8];
    marshal_u32_array(&v, &mut buf);
    assert_eq!(buf.len(), 1 + 1 + 4 * 255);
    assert_eq!(unmarshal_u32_array(&buf, 1), (v, buf.len()));
}
