use prisme::snapshot::{check_state_header, state_header, StateError, STATE_HEADER_LEN};

#[test]
fn a_state_header_spells_magic_version_and_rom() {
    let h = state_header(0x1234, 0x10000);
    assert_eq!(h.len(), STATE_HEADER_LEN);
    assert_eq!(&h[..8], b"SNES-ST\0");
    assert_eq!(&h[8..12], &[1, 0, 0, 0]);
    assert_eq!(&h[12..14], &[0x34, 0x12]);
    assert_eq!(&h[14..18], &[0x00, 0x00, 0x01, 0x00]);
}

#[test]
fn a_state_is_accepted_by_its_rom_only() {
    let mut blob = state_header(0x1234, 0x10000);
    blob.extend_from_slice(&[9, 9, 9]);
    assert_eq!(check_state_header(&blob, 0x1234, 0x10000), Ok(()));
    assert_eq!(
        check_state_header(&blob, 0x5678, 0x10000),
        Err(StateError::OtherRom { checksum: 0x1234, rom_len: 0x10000 })
    );
    assert_eq!(
        check_state_header(&blob, 0x1234, 0x20000),
        Err(StateError::OtherRom { checksum: 0x1234, rom_len: 0x10000 })
    );
}

#[test]
fn short_and_corrupt_headers_are_refused() {
    assert_eq!(check_state_header(&[], 1, 1), Err(StateError::TooShort { len: 0 }));
    assert_eq!(check_state_header(&[0, 1, 2, 3], 1, 1), Err(StateError::TooShort { len: 4 }));
    let good = state_header(0x1234, 0x10000);
    let mut blob = good.clone();
    blob[0] ^= 0xFF;
    assert_eq!(check_state_header(&blob, 0x1234, 0x10000), Err(StateError::BadMagic));
    let mut blob = good.clone();
    blob[8] ^= 0xFF;
    assert_eq!(check_state_header(&blob, 0x1234, 0x10000), Err(StateError::BadVersion { version: 0xFE }));
}
