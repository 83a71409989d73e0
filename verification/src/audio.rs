//! The volume control's ten-percent grid, and the bytes of the WAV file
//! the headless run writes its audio to.

use vstd::prelude::*;

verus! {

/// One step of the volume control: 10-point increments, snapped to the grid
/// and clamped to 0..=100; an off-grid value snaps to the next grid point in
/// the requested direction.
pub open spec fn spec_step_volume(volume: u8, up: bool) -> u8 {
    let v = if volume > 100 { 100 } else { volume };
    if up {
        if v / 10 * 10 + 10 > 100 { 100 } else { (v / 10 * 10 + 10) as u8 }
    } else {
        let floor = v / 10 * 10;
        if floor == v {
            if v >= 10 { (v - 10) as u8 } else { 0 }
        } else {
            floor as u8
        }
    }
}

/// One step of the volume control.
pub fn step_volume(volume: u8, up: bool) -> (r: u8)
    ensures
        r == spec_step_volume(volume, up),
        r <= 100,
        r % 10 == 0,
{
    let v = if volume > 100 { 100 } else { volume };
    if up {
        let next = v / 10 * 10 + 10;
        if next > 100 { 100 } else { next }
    } else {
        let floor = v / 10 * 10;
        if floor == v {
            v.saturating_sub(10)
        } else {
            floor
        }
    }
}

/// Stepping up then down returns to any grid point below the top, and down
/// then up to any grid point above the bottom.
pub proof fn law_steps_undo_each_other(v: u8)
    requires
        v <= 100,
        v % 10 == 0,
    ensures
        v < 100 ==> spec_step_volume(spec_step_volume(v, true), false) == v,
        v > 0 ==> spec_step_volume(spec_step_volume(v, false), true) == v,
{
}

/// `n` as two little-endian bytes.
pub open spec fn le16(n: u16) -> Seq<u8> {
    seq![(n % 256) as u8, (n / 256) as u8]
}

/// `n` as four little-endian bytes.
pub open spec fn le32(n: u32) -> Seq<u8> {
    seq![(n % 256) as u8, ((n / 256) % 256) as u8, ((n / 65536) % 256) as u8, (n / 16777216) as u8]
}

/// Interleaved little-endian `L, R` sample frames.
pub open spec fn pcm_bytes(samples: Seq<(i16, i16)>) -> Seq<u8>
    decreases samples.len(),
{
    if samples.len() == 0 {
        Seq::empty()
    } else {
        pcm_bytes(samples.drop_last()) + le16(samples.last().0 as u16) + le16(samples.last().1 as u16)
    }
}

/// The canonical 44-byte header of a 16-bit stereo PCM WAV holding `frames`
/// sample frames at `rate`: `RIFF` with the size after it, `WAVE`, a
/// 16-byte `fmt ` chunk (PCM, 2 channels, the rate, the byte rate, a 4-byte
/// block, 16 bits), then `data` with its size.
pub open spec fn wav_header(frames: nat, rate: u32) -> Seq<u8> {
    let data_len = (frames * 4) as u32;
    seq![0x52u8, 0x49, 0x46, 0x46] + le32((36 + data_len) as u32) + seq![0x57u8, 0x41, 0x56, 0x45]
        + seq![0x66u8, 0x6D, 0x74, 0x20] + le32(16) + le16(1) + le16(2) + le32(rate)
        + le32((rate * 4) as u32) + le16(4) + le16(16) + seq![0x64u8, 0x61, 0x74, 0x61] + le32(data_len)
}

fn push_le16(v: &mut Vec<u8>, n: u16)
    ensures
        final(v)@ == old(v)@ + le16(n),
{
    v.push((n % 256) as u8);
    v.push((n / 256) as u8);
    assert(final(v)@ =~= old(v)@ + le16(n));
}

fn push_le32(v: &mut Vec<u8>, n: u32)
    ensures
        final(v)@ == old(v)@ + le32(n),
{
    v.push((n % 256) as u8);
    v.push(((n / 256) % 256) as u8);
    v.push(((n / 65536) % 256) as u8);
    v.push((n / 16777216) as u8);
    assert(final(v)@ =~= old(v)@ + le32(n));
}

fn push_tag(v: &mut Vec<u8>, a: u8, b: u8, c: u8, d: u8)
    ensures
        final(v)@ == old(v)@ + seq![a, b, c, d],
{
    v.push(a);
    v.push(b);
    v.push(c);
    v.push(d);
    assert(final(v)@ =~= old(v)@ + seq![a, b, c, d]);
}

/// The whole WAV file for `samples` (left, right) at `sample_rate`: the
/// canonical header, then the frames interleaved little-endian. The sizes
/// the header records must fit in 32 bits.
pub fn wav_bytes(samples: &[(i16, i16)], sample_rate: u32) -> (r: Vec<u8>)
    requires
        samples@.len() * 4 + 36 <= 0xFFFF_FFFF,
        sample_rate as int * 4 <= 0xFFFF_FFFF,
    ensures
        r@ == wav_header(samples@.len(), sample_rate) + pcm_bytes(samples@),
{
    let data_len: u32 = (samples.len() as u32) * 4;
    let mut v: Vec<u8> = Vec::new();
    push_tag(&mut v, 0x52, 0x49, 0x46, 0x46);
    push_le32(&mut v, 36 + data_len);
    push_tag(&mut v, 0x57, 0x41, 0x56, 0x45);
    push_tag(&mut v, 0x66, 0x6D, 0x74, 0x20);
    push_le32(&mut v, 16);
    push_le16(&mut v, 1);
    push_le16(&mut v, 2);
    push_le32(&mut v, sample_rate);
    push_le32(&mut v, sample_rate * 4);
    push_le16(&mut v, 4);
    push_le16(&mut v, 16);
    push_tag(&mut v, 0x64, 0x61, 0x74, 0x61);
    push_le32(&mut v, data_len);
    assert(v@ =~= wav_header(samples@.len(), sample_rate));
    let ghost h = v@;
    let mut i: usize = 0;
    while i < samples.len()
        invariant
            i <= samples@.len(),
            v@ == h + pcm_bytes(samples@.take(i as int)),
        decreases samples@.len() - i,
    {
        let (l, r) = samples[i];
        push_le16(&mut v, l as u16);
        push_le16(&mut v, r as u16);
        i = i + 1;
        assert(samples@.take(i as int).drop_last() =~= samples@.take(i - 1));
        assert(v@ =~= h + pcm_bytes(samples@.take(i as int)));
    }
    assert(samples@.take(samples@.len() as int) =~= samples@);
    v
}

} // verus!
