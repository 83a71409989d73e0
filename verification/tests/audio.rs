use prisme::audio::{step_volume, wav_bytes};

#[test]
fn step_volume_walks_the_ten_percent_grid() {
    assert_eq!(step_volume(100, true), 100, "clamped at the top");
    assert_eq!(step_volume(90, true), 100);
    assert_eq!(step_volume(0, false), 0, "clamped at the bottom");
    assert_eq!(step_volume(10, false), 0);
    assert_eq!(step_volume(50, true), 60);
    assert_eq!(step_volume(50, false), 40);
    assert_eq!(step_volume(42, true), 50);
    assert_eq!(step_volume(42, false), 40);
    assert_eq!(step_volume(250, false), 90);
}

#[test]
fn a_step_up_and_a_step_down_cancel_on_the_grid() {
    for v in (10..100).step_by(10) {
        assert_eq!(step_volume(step_volume(v, true), false), v);
        assert_eq!(step_volume(step_volume(v, false), true), v);
    }
}

#[test]
fn write_wav_header_is_canonical() {
    let samples = vec![(0i16, 0i16), (1000, -1000), (32767, -32768)];
    let rate = 32_000u32;
    let bytes = wav_bytes(&samples, rate);

    let block_align = 4u32; // 2 ch * 16 bit / 8
    let data_len = samples.len() as u32 * block_align; // 12
    assert_eq!(bytes.len(), 44 + data_len as usize);
    assert_eq!(&bytes[0..4], b"RIFF");
    assert_eq!(u32::from_le_bytes(bytes[4..8].try_into().unwrap()), 36 + data_len);
    assert_eq!(&bytes[8..12], b"WAVE");
    assert_eq!(&bytes[12..16], b"fmt ");
    assert_eq!(u32::from_le_bytes(bytes[16..20].try_into().unwrap()), 16); // PCM fmt size
    assert_eq!(u16::from_le_bytes(bytes[20..22].try_into().unwrap()), 1); // PCM
    assert_eq!(u16::from_le_bytes(bytes[22..24].try_into().unwrap()), 2); // channels
    assert_eq!(u32::from_le_bytes(bytes[24..28].try_into().unwrap()), rate);
    assert_eq!(u32::from_le_bytes(bytes[28..32].try_into().unwrap()), rate * block_align); // byte_rate
    assert_eq!(u16::from_le_bytes(bytes[32..34].try_into().unwrap()), block_align as u16);
    assert_eq!(u16::from_le_bytes(bytes[34..36].try_into().unwrap()), 16); // bits
    assert_eq!(&bytes[36..40], b"data");
    assert_eq!(u32::from_le_bytes(bytes[40..44].try_into().unwrap()), data_len);
    // First interleaved frame is L=0,R=0; second is L=1000,R=-1000 LE.
    assert_eq!(&bytes[44..48], &[0, 0, 0, 0]);
    assert_eq!(i16::from_le_bytes(bytes[48..50].try_into().unwrap()), 1000);
    assert_eq!(i16::from_le_bytes(bytes[50..52].try_into().unwrap()), -1000);
    assert_eq!(&bytes[52..56], &[0xFF, 0x7F, 0x00, 0x80]);
}

#[test]
fn an_empty_recording_is_a_bare_header() {
    let bytes = wav_bytes(&[], 48_000);
    assert_eq!(bytes.len(), 44);
    assert_eq!(u32::from_le_bytes(bytes[4..8].try_into().unwrap()), 36);
    assert_eq!(u32::from_le_bytes(bytes[40..44].try_into().unwrap()), 0);
}
