//! The fixed prefix of a save-state blob: the magic `SNES-ST\0`, the format
//! version, and the header checksum and length of the ROM the state was
//! taken from, all little-endian. The serialized console follows it; a blob
//! is only restored onto the ROM it names.

use vstd::prelude::*;

verus! {

/// The first eight bytes of every blob: `SNES-ST\0`.
pub const STATE_MAGIC: [u8; 8] = [0x53, 0x4E, 0x45, 0x53, 0x2D, 0x53, 0x54, 0x00];

/// Format version; a blob of another version is refused.
pub const STATE_VERSION: u32 = 1;

/// Magic, version, ROM checksum and ROM length.
pub const STATE_HEADER_LEN: usize = 18;

/// `x` as two little-endian bytes.
pub open spec fn le16(x: u16) -> Seq<u8> {
    seq![(x & 0xFF) as u8, (x >> 8u16) as u8]
}

/// `x` as four little-endian bytes.
pub open spec fn le32(x: u32) -> Seq<u8> {
    seq![(x & 0xFF) as u8, ((x >> 8u32) & 0xFF) as u8, ((x >> 16u32) & 0xFF) as u8, (x >> 24u32) as u8]
}

/// The number two little-endian bytes spell.
pub open spec fn from_le16(b: Seq<u8>) -> int {
    b[0] + 256 * b[1]
}

/// The number four little-endian bytes spell.
pub open spec fn from_le32(b: Seq<u8>) -> int {
    b[0] + 256 * b[1] + 65536 * b[2] + 16777216 * b[3]
}

/// The header of a state taken while the ROM with header checksum `checksum`
/// and length `rom_len` (kept to 32 bits) was loaded.
pub open spec fn spec_state_header(checksum: u16, rom_len: usize) -> Seq<u8> {
    STATE_MAGIC@ + le32(STATE_VERSION) + le16(checksum) + le32(rom_len as u32)
}

/// Why a blob cannot be restored onto the loaded ROM.
#[derive(Debug, Clone, Copy, PartialEq, Eq, Structural)]
pub enum StateError {
    /// Shorter than the header.
    TooShort { len: usize },
    /// Not a save-state blob.
    BadMagic,
    /// Written by a build with another format version.
    BadVersion { version: u32 },
    /// Taken on another game.
    OtherRom { checksum: u16, rom_len: u32 },
}

/// What the header check answers for `data` on the ROM (`checksum`,
/// `rom_len`): the first failing test, in the order short, magic, version,
/// ROM.
pub open spec fn spec_check_header(data: Seq<u8>, checksum: u16, rom_len: usize) -> Result<(), StateError> {
    if data.len() < STATE_HEADER_LEN {
        Err(StateError::TooShort { len: data.len() as usize })
    } else if data.subrange(0, 8) != STATE_MAGIC@ {
        Err(StateError::BadMagic)
    } else if from_le32(data.subrange(8, 12)) != STATE_VERSION {
        Err(StateError::BadVersion { version: from_le32(data.subrange(8, 12)) as u32 })
    } else if from_le16(data.subrange(12, 14)) != checksum || from_le32(data.subrange(14, 18)) != rom_len {
        Err(StateError::OtherRom {
            checksum: from_le16(data.subrange(12, 14)) as u16,
            rom_len: from_le32(data.subrange(14, 18)) as u32,
        })
    } else {
        Ok(())
    }
}

proof fn lemma_le16(x: u16)
    ensures
        from_le16(le16(x)) == x,
{
    let b0 = (x & 0xFF) as u8;
    let b1 = (x >> 8u16) as u8;
    assert(b0 + 256 * b1 == x) by (bit_vector)
        requires
            b0 == (x & 0xFF) as u8,
            b1 == (x >> 8u16) as u8,
    ;
}

proof fn lemma_le32(x: u32)
    ensures
        from_le32(le32(x)) == x,
{
    let b0 = (x & 0xFF) as u8;
    let b1 = ((x >> 8u32) & 0xFF) as u8;
    let b2 = ((x >> 16u32) & 0xFF) as u8;
    let b3 = (x >> 24u32) as u8;
    assert(b0 + 256 * b1 + 65536 * b2 + 16777216 * b3 == x) by (bit_vector)
        requires
            b0 == (x & 0xFF) as u8,
            b1 == ((x >> 8u32) & 0xFF) as u8,
            b2 == ((x >> 16u32) & 0xFF) as u8,
            b3 == (x >> 24u32) as u8,
    ;
}

fn push_le16(out: &mut Vec<u8>, x: u16)
    ensures
        final(out)@ == old(out)@ + le16(x),
{
    out.push((x & 0xFF) as u8);
    out.push((x >> 8) as u8);
    assert(final(out)@ =~= old(out)@ + le16(x));
}

fn push_le32(out: &mut Vec<u8>, x: u32)
    ensures
        final(out)@ == old(out)@ + le32(x),
{
    out.push((x & 0xFF) as u8);
    out.push(((x >> 8) & 0xFF) as u8);
    out.push(((x >> 16) & 0xFF) as u8);
    out.push((x >> 24) as u8);
    assert(final(out)@ =~= old(out)@ + le32(x));
}

/// The header a state taken on this ROM starts with.
pub fn state_header(checksum: u16, rom_len: usize) -> (r: Vec<u8>)
    ensures
        r@ == spec_state_header(checksum, rom_len),
        r@.len() == STATE_HEADER_LEN,
{
    let mut out: Vec<u8> = Vec::new();
    let mut i: usize = 0;
    while i < 8
        invariant
            i <= 8,
            out@ == STATE_MAGIC@.take(i as int),
        decreases 8 - i,
    {
        out.push(STATE_MAGIC[i]);
        i = i + 1;
        assert(out@ =~= STATE_MAGIC@.take(i as int));
    }
    assert(STATE_MAGIC@.take(8) =~= STATE_MAGIC@);
    push_le32(&mut out, STATE_VERSION);
    push_le16(&mut out, checksum);
    push_le32(&mut out, rom_len as u32);
    out
}

fn le16_at(data: &[u8], at: usize) -> (r: u16)
    requires
        at + 2 <= data@.len(),
    ensures
        r == from_le16(data@.subrange(at as int, at + 2)),
{
    data[at] as u16 + 256 * data[at + 1] as u16
}

fn le32_at(data: &[u8], at: usize) -> (r: u32)
    requires
        at + 4 <= data@.len(),
    ensures
        r == from_le32(data@.subrange(at as int, at + 4)),
{
    data[at] as u32 + 256 * data[at + 1] as u32 + 65536 * data[at + 2] as u32 + 16777216 * data[at + 3] as u32
}

/// Check a blob's header against the loaded ROM before its body is read:
/// the blob must hold a whole header, start with the magic, carry this
/// format version, and name this ROM's header checksum and length.
pub fn check_state_header(data: &[u8], checksum: u16, rom_len: usize) -> (r: Result<(), StateError>)
    ensures
        r == spec_check_header(data@, checksum, rom_len),
{
    if data.len() < STATE_HEADER_LEN {
        return Err(StateError::TooShort { len: data.len() });
    }
    let mut i: usize = 0;
    while i < 8
        invariant
            i <= 8,
            data@.len() >= STATE_HEADER_LEN,
            forall|k: int| 0 <= k < i ==> data@[k] == STATE_MAGIC@[k],
        decreases 8 - i,
    {
        if data[i] != STATE_MAGIC[i] {
            assert(data@.subrange(0, 8)[i as int] != STATE_MAGIC@[i as int]);
            return Err(StateError::BadMagic);
        }
        i = i + 1;
    }
    assert(data@.subrange(0, 8) =~= STATE_MAGIC@);
    let version = le32_at(data, 8);
    if version != STATE_VERSION {
        return Err(StateError::BadVersion { version });
    }
    let saved_checksum = le16_at(data, 12);
    let saved_len = le32_at(data, 14);
    if saved_checksum != checksum || saved_len as usize != rom_len {
        return Err(StateError::OtherRom { checksum: saved_checksum, rom_len: saved_len });
    }
    Ok(())
}

/// A state is restored onto the ROM it was taken on: its header passes the
/// check there, whatever body follows it, and is refused by a ROM with
/// another header checksum or length.
pub proof fn law_a_state_fits_only_its_rom(checksum: u16, rom_len: usize, body: Seq<u8>, other_checksum: u16, other_len: usize)
    requires
        rom_len <= u32::MAX,
        other_checksum != checksum || other_len != rom_len,
    ensures
        spec_check_header(spec_state_header(checksum, rom_len) + body, checksum, rom_len) is Ok,
        spec_check_header(spec_state_header(checksum, rom_len) + body, other_checksum, other_len) == Err::<(), StateError>(
            StateError::OtherRom { checksum, rom_len: rom_len as u32 },
        ),
{
    let h = spec_state_header(checksum, rom_len);
    let d = h + body;
    assert(h.len() == 18);
    assert(d.subrange(0, 8) =~= STATE_MAGIC@);
    assert(d.subrange(8, 12) =~= le32(STATE_VERSION));
    assert(d.subrange(12, 14) =~= le16(checksum));
    assert(d.subrange(14, 18) =~= le32(rom_len as u32));
    lemma_le32(STATE_VERSION);
    lemma_le16(checksum);
    lemma_le32(rom_len as u32);
}

} // verus!
