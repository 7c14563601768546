//! Tests of the decimal lookup table and its generated header.

use szmelc_player::lut::{generate_numberlut, number_lut, u64_decimal};

#[test]
fn table_has_one_entry_per_byte_value() {
    let lut = number_lut();
    assert_eq!(lut.len(), 256);
}

#[test]
fn named_entries() {
    let lut = number_lut();
    assert_eq!(lut[7].len(), 1);
    assert_eq!(lut[7], b"7");
    assert_eq!(lut[255].len(), 3);
    assert_eq!(lut[255], b"255");
    assert_eq!(lut[0].len(), 1);
    assert_eq!(lut[0], b"0");
}

#[test]
fn every_entry_renders_its_index() {
    let lut = number_lut();
    for (i, entry) in lut.iter().enumerate() {
        assert_eq!(entry, i.to_string().as_bytes());
    }
}

#[test]
fn decimal_rendering_matches_formatting() {
    for n in [0u64, 1, 9, 10, 99, 100, 255, 256, 12345, u64::MAX] {
        assert_eq!(u64_decimal(n), n.to_string().as_bytes());
    }
}

#[test]
fn generated_header_lists_every_record() {
    let header = generate_numberlut();
    assert_eq!(header.matches("\"},").count(), 256);
    assert!(header.contains("{1, \"7\"},"));
    assert!(header.contains("{3, \"255\"},"));
    assert!(header.starts_with("static const struct { size_t len; const char *str; }"));
    assert!(header.contains("{1, \"0\"},"));
    assert!(header.ends_with("};\n"));
}
