//! Tests of the translation-unit generator and the byte-array writer.

use szmelc_player::codegen::{c_string_literal, embed_frame, Generator};

/// Pulls the decimal elements back out of an emitted unit: everything
/// between the first `{` and the closing `};`, split on commas.
fn parse_array_elements(unit: &[u8]) -> Vec<u8> {
    let open = unit.iter().position(|&b| b == b'{').expect("array head");
    let close = unit.iter().position(|&b| b == b'}').expect("array close");
    let body = &unit[open + 1..close];
    body.split(|&b| b == b',')
        .filter(|part| !part.is_empty())
        .map(|part| {
            let s = std::str::from_utf8(part).expect("ascii digits");
            s.parse::<u8>().expect("byte value")
        })
        .collect()
}

fn round_trip(len: usize) {
    let payload: Vec<u8> = (0..len).map(|i| (i % 256) as u8).collect();
    let generator = Generator::new();
    let mut writer = generator.const_byte_array(b"video_data");
    for &b in &payload {
        writer.byte(b);
    }
    let generator = writer.finish();
    let unit = generator.finalize();
    assert_eq!(parse_array_elements(&unit), payload);
}

#[test]
fn round_trip_empty() {
    round_trip(0);
}

#[test]
fn round_trip_single() {
    round_trip(1);
}

#[test]
fn round_trip_every_byte_value() {
    round_trip(256);
}

#[test]
fn round_trip_large() {
    round_trip(70000);
}

#[test]
fn draining_does_not_change_the_unit() {
    let payload: Vec<u8> = (0..1000).map(|i| (i % 251) as u8).collect();

    let generator = Generator::new();
    let mut writer = generator.const_byte_array(b"audio_data");
    for &b in &payload {
        writer.byte(b);
    }
    let whole = writer.finish().finalize();

    let mut generator = Generator::new();
    let mut streamed: Vec<u8> = Vec::new();
    streamed.extend_from_slice(&generator.take_pending());
    let mut writer = generator.const_byte_array(b"audio_data");
    for &b in &payload {
        writer.byte(b);
        let piece = writer.take_pending();
        streamed.extend_from_slice(&piece);
        assert!(writer.take_pending().is_empty());
    }
    let generator = writer.finish();
    streamed.extend_from_slice(&generator.finalize());

    assert_eq!(streamed, whole);
}

#[test]
fn define_forms() {
    let mut generator = Generator::new();
    generator.define(b"SZMELC_BUILD");
    generator.define_value(b"VIDEO_WIDTH", b"320");
    let unit = generator.take_pending();
    assert_eq!(unit, b"#define SZMELC_BUILD\n#define VIDEO_WIDTH 320\n");
}

#[test]
fn numeric_defines_render_in_decimal() {
    let mut generator = Generator::new();
    generator.define_u64(b"SLEEP_INTERVAL", 33333);
    generator.define_u64(b"VIDEO_FRAME_COUNT", 0);
    let unit = generator.take_pending();
    assert_eq!(
        unit,
        b"#define SLEEP_INTERVAL 33333\n#define VIDEO_FRAME_COUNT 0\n"
    );
}

#[test]
fn array_head_names_the_array() {
    let generator = Generator::new();
    let mut writer = generator.const_byte_array(b"video_data");
    writer.byte(7);
    let unit = writer.finish().finalize();
    let text = String::from_utf8(unit).expect("ascii");
    assert!(text.contains("unsigned char video_data[] = {7,};"));
}

#[test]
fn string_literal_escapes() {
    assert_eq!(c_string_literal(b"/tmp/plain.h"), b"\"/tmp/plain.h\"");
    assert_eq!(c_string_literal(b"a\"b"), b"\"a\\\"b\"");
    assert_eq!(c_string_literal(b"a\\b"), b"\"a\\\\b\"");
    assert_eq!(c_string_literal(b"a\nb"), b"\"a\\nb\"");
}

#[test]
fn embedded_frames_are_frame_sized_chunks() {
    let frame_a = vec![1u8, 2, 3, 4, 5, 6];
    let frame_b = vec![7u8, 8, 9, 10, 11, 12];
    let generator = Generator::new();
    let mut writer = generator.const_byte_array(b"video_data");
    let mut frame_count: usize = 0;
    embed_frame(&mut writer, &frame_a, &mut frame_count);
    embed_frame(&mut writer, &frame_b, &mut frame_count);
    assert_eq!(frame_count, 2);
    let unit = writer.finish().finalize();
    let elements = parse_array_elements(&unit);
    assert_eq!(elements.len(), frame_count * 6);
    assert_eq!(&elements[..6], &frame_a[..]);
    assert_eq!(&elements[6..], &frame_b[..]);
}
