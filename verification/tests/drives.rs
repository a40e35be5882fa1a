use photocopy::drives::{format_drive_label, get_drives, GetLogicalDrivesError};

#[test]
fn decode_single_bit_yields_c() {
    let r = get_drives(0b100, 0);
    let ds = r.ok().expect("bit 2 alone is a well-formed bitmask");
    assert_eq!(ds.len(), 1);
    assert!(ds.contains('C'));
    assert!(!ds.contains('A'));
    assert!(!ds.contains('D'));
    assert_eq!(ds.letter_at(0), 'C');
}

#[test]
fn decode_yields_exactly_the_set_bits() {
    // bits 1, 4 and 6 set: drives B, E and G.
    let r = get_drives(0b101_0010, 0);
    let ds = r.ok().expect("only bits below 26 are set");
    assert_eq!(ds.len(), 3);
    assert!(ds.contains('B'));
    assert!(ds.contains('E'));
    assert!(ds.contains('G'));
    for c in 'A'..='Z' {
        assert_eq!(ds.contains(c), c == 'B' || c == 'E' || c == 'G');
    }
}

#[test]
fn decode_all_valid_bits_yields_every_letter() {
    let r = get_drives(0x03FF_FFFF, 0);
    let ds = r.ok().expect("all 26 letter bits set is well-formed");
    assert_eq!(ds.len(), 26);
    for (k, c) in ('A'..='Z').enumerate() {
        assert!(ds.contains(c));
        assert_eq!(ds.letter_at(k), c);
    }
}

#[test]
fn zero_bitmask_is_api_failure() {
    let r = get_drives(0, 123);
    assert!(matches!(r, Err(GetLogicalDrivesError::ApiError(123))));
}

#[test]
fn zero_bitmask_is_never_an_empty_set() {
    let r = get_drives(0, 0);
    assert!(r.is_err());
}

#[test]
fn bit_30_is_too_many_drives() {
    let r = get_drives(1 << 30, 0);
    assert!(matches!(r, Err(GetLogicalDrivesError::TooManyDrivesError)));
}

#[test]
fn too_many_drives_regardless_of_low_bits() {
    for high in 26..32 {
        let r = get_drives((1 << high) | 0b101, 0);
        assert!(matches!(r, Err(GetLogicalDrivesError::TooManyDrivesError)));
    }
}

#[test]
fn error_messages_are_exact() {
    assert_eq!(GetLogicalDrivesError::TooManyDrivesError.message(), "TooManyDrive");
    assert_eq!(GetLogicalDrivesError::ApiError(123).message(), "ApiError123");
    assert_eq!(GetLogicalDrivesError::ApiError(0).message(), "ApiError0");
    assert_eq!(GetLogicalDrivesError::ApiError(10).message(), "ApiError10");
    assert_eq!(
        GetLogicalDrivesError::ApiError(u32::MAX).message(),
        "ApiError4294967295"
    );
}

#[test]
fn format_drive_label_exact_values() {
    assert_eq!(format_drive_label('C'), "C:/");
    assert_eq!(format_drive_label('A'), "A:/");
    assert_eq!(format_drive_label('Z'), "Z:/");
}
