//! Tests of the frame-size option parser.

use szmelc_player::options::{FrameSize, SizeParseError};

#[test]
fn parses_width_and_height() {
    assert_eq!(FrameSize::from_str("1920x1080"), Ok(FrameSize(1920, 1080)));
    assert_eq!(FrameSize::from_str("1x1"), Ok(FrameSize(1, 1)));
    assert_eq!(FrameSize::from_str("0x0"), Ok(FrameSize(0, 0)));
    assert_eq!(
        FrameSize::from_str("4294967295x4294967295"),
        Ok(FrameSize(u32::MAX, u32::MAX))
    );
}

#[test]
fn missing_separator_is_rejected() {
    assert_eq!(FrameSize::from_str("1920"), Err(SizeParseError::MissingHeight));
}

#[test]
fn non_numeric_width_is_rejected() {
    assert_eq!(FrameSize::from_str("abcx100"), Err(SizeParseError::BadWidth));
    assert_eq!(FrameSize::from_str(""), Err(SizeParseError::BadWidth));
    assert_eq!(FrameSize::from_str("x100"), Err(SizeParseError::BadWidth));
    assert_eq!(FrameSize::from_str("-1x100"), Err(SizeParseError::BadWidth));
}

#[test]
fn non_numeric_height_is_rejected() {
    assert_eq!(FrameSize::from_str("100xabc"), Err(SizeParseError::BadHeight));
    assert_eq!(FrameSize::from_str("100x"), Err(SizeParseError::BadHeight));
    assert_eq!(FrameSize::from_str("100x-2"), Err(SizeParseError::BadHeight));
}

#[test]
fn too_large_components_are_rejected() {
    assert_eq!(
        FrameSize::from_str("4294967296x100"),
        Err(SizeParseError::BadWidth)
    );
    assert_eq!(
        FrameSize::from_str("100x4294967296"),
        Err(SizeParseError::BadHeight)
    );
}

#[test]
fn text_after_a_second_separator_is_ignored() {
    assert_eq!(FrameSize::from_str("10x20x30"), Ok(FrameSize(10, 20)));
}
