//! The game library's pure logic: a game's stable identity, the entries a
//! scan produces and the cache they are reused from, search folding, display
//! order, the game sheet's formatting, play-time accounting and the order in
//! which the background worker takes its jobs.

use crate::i18n::{msg_text, slot_label, spec_slot_label, Lang, Msg};
use crate::paths::{file_name, file_stem, parent, join, extension, path_extension, path_file_name, path_file_stem, path_join, path_parent, Disk, disk_is_file};
use crate::stamp::{append, sanitize_file_stem, spec_sanitize, CalendarTime};
use crate::text::{
    ascii_alnum, ascii_upper, char_alnum, char_lowercase, chars_of, dec, decimal, fixed, fixed_digits, is_alphanumeric, push_chars,
    push_str, str_eq, to_lowercase, trim_chars, trimmed, padded, padded_signed, zpad, zpad_signed,
};
use vstd::prelude::*;

verus! {

/// Name of the metadata cache inside the application's data directory.
pub const CACHE_FILE: &'static str = "library.json";

/// Layout version of the cache; a file with another version is discarded.
pub const CACHE_VERSION: u32 = 1;

/// How many bytes of the image feed the fallback fingerprint.
pub const ID_FINGERPRINT_BYTES: usize = 512;

/// The folder the library scans: the dedicated preference, then the last
/// folder the ROM picker used, then `roms`.
pub fn library_dir(preferred: Option<String>, last_rom_dir: Option<String>) -> (r: String)
    ensures
        r@ == (match (preferred, last_rom_dir) {
            (Some(d), _) => d@,
            (None, Some(d)) => d@,
            (None, None) => "roms"@,
        }),
{
    match preferred {
        Some(d) => d,
        None => match last_rom_dir {
            Some(d) => d,
            None => String::from_str("roms"),
        },
    }
}

/// The eight little-endian bytes of `n`.
pub open spec fn le_bytes(n: u64) -> Seq<u8> {
    Seq::new(8, |i: int| ((n >> (8 * i) as u64) & 0xff) as u8)
}

/// FNV-1a (32 bits) over `bytes`, from `h`.
pub open spec fn fnv(h: u32, bytes: Seq<u8>) -> u32
    decreases bytes.len(),
{
    if bytes.len() == 0 {
        h
    } else {
        (fnv(h, bytes.drop_last()) ^ (bytes.last() as u32)).wrapping_mul(0x0100_0193)
    }
}

/// FNV-1a over the image length (eight little-endian bytes) followed by its
/// first 512 bytes.
pub open spec fn spec_fingerprint(rom: Seq<u8>) -> u32 {
    fnv(0x811C_9DC5, le_bytes(rom.len() as u64) + (if rom.len() > 512 { rom.take(512) } else { rom }))
}

fn fnv_step(h: u32, b: u8) -> (r: u32)
    ensures
        r == (h ^ (b as u32)).wrapping_mul(0x0100_0193),
{
    (h ^ (b as u32)).wrapping_mul(0x0100_0193)
}

fn fingerprint(rom: &[u8]) -> (r: u32)
    ensures
        r == spec_fingerprint(rom@),
{
    let len: u64 = rom.len() as u64;
    let mut bytes: Vec<u8> = Vec::new();
    let mut k: u64 = 0;
    while k < 8
        invariant
            k <= 8,
            bytes@ == le_bytes(len).take(k as int),
        decreases 8 - k,
    {
        bytes.push(((len >> (8 * k)) & 0xff) as u8);
        k = k + 1;
        assert(bytes@ =~= le_bytes(len).take(k as int));
    }
    assert(bytes@ =~= le_bytes(len));
    let n: usize = if rom.len() > ID_FINGERPRINT_BYTES { ID_FINGERPRINT_BYTES } else { rom.len() };
    let mut i: usize = 0;
    while i < n
        invariant
            n <= rom@.len(),
            n == (if rom@.len() > 512 { 512 } else { rom@.len() }),
            i <= n,
            bytes@ == le_bytes(len) + rom@.take(i as int),
        decreases n - i,
    {
        bytes.push(rom[i]);
        i = i + 1;
        assert(bytes@ =~= le_bytes(len) + rom@.take(i as int));
    }
    proof {
        if rom@.len() <= 512 {
            assert(rom@.take(n as int) =~= rom@);
        }
    }
    let mut h: u32 = 0x811C_9DC5;
    let mut j: usize = 0;
    while j < bytes.len()
        invariant
            j <= bytes@.len(),
            h == fnv(0x811C_9DC5, bytes@.take(j as int)),
        decreases bytes@.len() - j,
    {
        proof {
            assert(bytes@.take(j + 1).drop_last() =~= bytes@.take(j as int));
        }
        h = fnv_step(h, bytes[j]);
        j = j + 1;
    }
    assert(bytes@.take(bytes@.len() as int) =~= bytes@);
    h
}

/// The identity of a game: its sanitized title and header checksum
/// (`SUPER_MARIOWORLD-A0DA`), with a fingerprint of the image appended when
/// the header has no title or no checksum.
pub open spec fn spec_game_id(title: Seq<char>, checksum: u16, rom: Seq<u8>) -> Seq<char> {
    let base = spec_sanitize(title) + "-"@ + fixed_digits(checksum as nat, 16, 4);
    if trimmed(title).len() > 0 && checksum != 0 {
        base
    } else {
        base + "-"@ + fixed_digits(spec_fingerprint(rom) as nat, 16, 8)
    }
}

/// Stable identity of a game, independent of where its file lives.
pub fn game_id(title: &str, checksum: u16, rom: &[u8]) -> (r: String)
    ensures
        r@ == spec_game_id(title@, checksum, rom@),
{
    let mut r = sanitize_file_stem(title);
    push_str(&mut r, "-");
    let c = fixed(checksum as u64, 16, 4);
    push_chars(&mut r, c.as_slice());
    let tv = chars_of(title);
    let t = trim_chars(tv.as_slice());
    if t.len() > 0 && checksum != 0 {
        return r;
    }
    push_str(&mut r, "-");
    let f = fixed(fingerprint(rom) as u64, 16, 8);
    push_chars(&mut r, f.as_slice());
    r
}

/// One game as the library knows it: what the header says plus the file
/// facts the cache invalidates on.
#[derive(Debug, Clone, PartialEq, Eq)]
pub struct GameEntry {
    pub id: String,
    pub path: String,
    pub file_size: u64,
    pub modified: i64,
    pub title: String,
    pub mapping: String,
    pub region: String,
    pub rom_bytes: u64,
    pub sram_bytes: u64,
    pub coprocessor: Option<String>,
    pub fastrom: bool,
    pub checksum: u16,
    pub checksum_valid: bool,
    pub missing: bool,
}

/// The file name of an entry's ROM, empty when the path has none.
pub open spec fn entry_file_name(e: GameEntry) -> Seq<char> {
    match path_file_name(e.path@) {
        Some(n) => n,
        None => Seq::empty(),
    }
}

/// The header title when it is not blank, else the file name.
pub open spec fn entry_display_title(e: GameEntry) -> Seq<char> {
    if trimmed(e.title@).len() == 0 {
        entry_file_name(e)
    } else {
        e.title@
    }
}

impl GameEntry {
    /// File name of the ROM, used by the search.
    pub fn file_name(&self) -> (r: String)
        ensures
            r@ == entry_file_name(*self),
    {
        match file_name(self.path.as_str()) {
            Some(n) => n,
            None => String::new(),
        }
    }

    /// Header title if it is not blank, else the file name.
    pub fn display_title(&self) -> (r: String)
        ensures
            r@ == entry_display_title(*self),
    {
        let v = chars_of(self.title.as_str());
        let t = trim_chars(v.as_slice());
        if t.len() == 0 {
            self.file_name()
        } else {
            self.title.clone()
        }
    }
}

/// Whether a path's extension is one the library scans: `sfc`, `smc` or
/// `zip`, in any letter case.
pub open spec fn rom_extension(e: Seq<char>) -> bool {
    e.map_values(|c: char| crate::i18n::ascii_lower(c)) == "sfc"@
        || e.map_values(|c: char| crate::i18n::ascii_lower(c)) == "smc"@
        || e.map_values(|c: char| crate::i18n::ascii_lower(c)) == "zip"@
}

fn lower_is(v: &Vec<char>, w: &str) -> (r: bool)
    ensures
        r == (v@.map_values(|c: char| crate::i18n::ascii_lower(c)) == w@),
{
    let wv = chars_of(w);
    if v.len() != wv.len() {
        proof {
            assert(v@.map_values(|c: char| crate::i18n::ascii_lower(c)).len() != w@.len());
        }
        return false;
    }
    let mut i: usize = 0;
    while i < v.len()
        invariant
            wv@ == w@,
            v@.len() == wv@.len(),
            i <= v@.len(),
            forall|k: int| 0 <= k < i ==> crate::i18n::ascii_lower(#[trigger] v@[k]) == wv@[k],
        decreases v@.len() - i,
    {
        let c = v[i];
        let l = if 'A' <= c && c <= 'Z' { ((c as u32) + 32) as u8 as char } else { c };
        proof {
            if 'A' <= c <= 'Z' {
                assert(((c as u32) + 32) < 256);
            }
        }
        if l != wv[i] {
            proof {
                assert(v@.map_values(|c: char| crate::i18n::ascii_lower(c))[i as int] != w@[i as int]);
            }
            return false;
        }
        i = i + 1;
    }
    assert(v@.map_values(|c: char| crate::i18n::ascii_lower(c)) =~= w@);
    true
}

/// True when `path`'s extension is one the library scans (case-insensitive).
pub fn is_rom_file(path: &str) -> (r: bool)
    ensures
        r == (path_extension(path@) matches Some(e) && rom_extension(e)),
{
    match extension(path) {
        Some(e) => {
            let v = chars_of(e.as_str());
            lower_is(&v, "sfc") || lower_is(&v, "smc") || lower_is(&v, "zip")
        },
        None => false,
    }
}

/// A listed path the scan takes: a file (not a directory) with a ROM
/// extension.
pub open spec fn listed_rom(entry: (Seq<char>, bool)) -> bool {
    !entry.1 && (path_extension(entry.0) matches Some(e) && rom_extension(e))
}

/// The ROM paths of a folder listing (path, is a directory), in listing
/// order.
pub open spec fn listed_roms(listing: Seq<(Seq<char>, bool)>) -> Seq<Seq<char>>
    decreases listing.len(),
{
    if listing.len() == 0 {
        Seq::empty()
    } else if listed_rom(listing.last()) {
        listed_roms(listing.drop_last()).push(listing.last().0)
    } else {
        listed_roms(listing.drop_last())
    }
}

/// `x` inserted into the sorted `s` after every path it does not come
/// strictly before.
pub open spec fn insert_path(s: Seq<Seq<char>>, x: Seq<char>) -> Seq<Seq<char>>
    decreases s.len(),
{
    if s.len() == 0 || !lex_less(x, s.last()) {
        s.push(x)
    } else {
        insert_path(s.drop_last(), x).push(s.last())
    }
}

/// Paths in code-point order (the order of a directory's `PathBuf`s, which
/// share their parent and differ in the file name).
pub open spec fn paths_sorted(s: Seq<Seq<char>>) -> Seq<Seq<char>>
    decreases s.len(),
{
    if s.len() == 0 {
        s
    } else {
        insert_path(paths_sorted(s.drop_last()), s.last())
    }
}

pub open spec fn listing_views(listing: Seq<(String, bool)>) -> Seq<(Seq<char>, bool)> {
    listing.map_values(|e: (String, bool)| (e.0@, e.1))
}

proof fn lemma_insert_path_at(s: Seq<Seq<char>>, x: Seq<char>, j: int)
    requires
        0 <= j <= s.len(),
        forall|k: int| j <= k < s.len() ==> lex_less(x, #[trigger] s[k]),
        j == 0 || !lex_less(x, s[j - 1]),
    ensures
        insert_path(s, x) == s.take(j).push(x) + s.skip(j),
    decreases s.len(),
{
    if s.len() == j {
        assert(s.skip(j) =~= Seq::<Seq<char>>::empty());
        assert(s.take(j) =~= s);
    } else {
        let t = s.drop_last();
        assert forall|k: int| j <= k < t.len() implies lex_less(x, #[trigger] t[k]) by {
            assert(t[k] == s[k]);
        }
        if j > 0 {
            assert(t[j - 1] == s[j - 1]);
        }
        lemma_insert_path_at(t, x, j);
        assert(lex_less(x, s[s.len() - 1]));
        assert(insert_path(s, x) =~= s.take(j).push(x) + s.skip(j));
    }
}

/// The ROM files of a folder listing, sorted by path: directories and files
/// without a ROM extension are left out.
pub fn rom_paths(listing: &[(String, bool)]) -> (r: Vec<String>)
    ensures
        r@.map_values(|p: String| p@) == paths_sorted(listed_roms(listing_views(listing@))),
{
    let ghost lv = listing_views(listing@);
    let mut found: Vec<String> = Vec::new();
    let mut i: usize = 0;
    while i < listing.len()
        invariant
            lv == listing_views(listing@),
            i <= listing@.len(),
            found@.map_values(|p: String| p@) == listed_roms(lv.take(i as int)),
        decreases listing@.len() - i,
    {
        assert(lv.take(i + 1).drop_last() =~= lv.take(i as int));
        assert(lv.take(i + 1).last() == (listing@[i as int].0@, listing@[i as int].1));
        if !listing[i].1 && is_rom_file(listing[i].0.as_str()) {
            let ghost f0 = found@.map_values(|p: String| p@);
            found.push(listing[i].0.clone());
            assert(found@.map_values(|p: String| p@) =~= f0.push(listing@[i as int].0@));
        }
        i = i + 1;
    }
    assert(lv.take(lv.len() as int) =~= lv);
    let ghost all = found@.map_values(|p: String| p@);
    let mut sorted: Vec<String> = Vec::new();
    let mut i: usize = 0;
    assert(sorted@.map_values(|p: String| p@) =~= paths_sorted(all.take(0)));
    while i < found.len()
        invariant
            all == found@.map_values(|p: String| p@),
            i <= found@.len(),
            sorted@.map_values(|p: String| p@) == paths_sorted(all.take(i as int)),
        decreases found@.len() - i,
    {
        let x = found[i].clone();
        assert(x@ == all[i as int]);
        let xc = chars_of(x.as_str());
        let mut j: usize = sorted.len();
        let ghost sv = sorted@.map_values(|p: String| p@);
        while j > 0 && lex_less_exec(&xc, &chars_of(sorted[j - 1].as_str()))
            invariant
                j <= sorted@.len(),
                sv == sorted@.map_values(|p: String| p@),
                xc@ == x@,
                forall|k: int| j <= k < sorted@.len() ==> lex_less(x@, #[trigger] sv[k]),
            decreases j,
        {
            assert(sv[j - 1] == sorted@[j - 1]@);
            j = j - 1;
        }
        proof {
            if j > 0 {
                assert(sv[j - 1] == sorted@[j - 1]@);
                assert(!lex_less(x@, sv[j - 1]));
            }
            lemma_insert_path_at(sv, x@, j as int);
            assert(all.take(i + 1).drop_last() =~= all.take(i as int));
        }
        sorted.insert(j, x);
        assert(sorted@.map_values(|p: String| p@) =~= sv.take(j as int).push(all[i as int]) + sv.skip(j as int));
        i = i + 1;
    }
    assert(all.take(all.len() as int) =~= all);
    sorted
}

/// The on-disk metadata cache: the last scan's entries, in scan order.
#[derive(Debug, Clone, PartialEq, Eq)]
pub struct Cache {
    pub version: u32,
    pub entries: Vec<GameEntry>,
}

impl Default for Cache {
    fn default() -> (r: Cache)
        ensures
            r.version == CACHE_VERSION,
            r.entries@.len() == 0,
    {
        Cache { version: CACHE_VERSION, entries: Vec::new() }
    }
}

/// An entry recorded for `path` with the given size and mtime.
pub open spec fn entry_fits(e: GameEntry, path: Seq<char>, size: u64, modified: i64) -> bool {
    e.path@ == path && e.file_size == size && e.modified == modified
}

impl Cache {
    /// The first cached entry for `path` whose recorded size and mtime still
    /// match; `None` when the file is unknown or changed since.
    pub fn valid_entry(&self, path: &str, size: u64, modified: i64) -> (r: Option<&GameEntry>)
        ensures
            r is None <==> forall|k: int| 0 <= k < self.entries@.len() ==> !entry_fits(#[trigger] self.entries@[k], path@, size, modified),
            r matches Some(e) ==> exists|k: int| 0 <= k < self.entries@.len() && self.entries@[k] == *e
                && entry_fits(*e, path@, size, modified)
                && forall|j: int| 0 <= j < k ==> !entry_fits(#[trigger] self.entries@[j], path@, size, modified),
    {
        let mut i: usize = 0;
        while i < self.entries.len()
            invariant
                i <= self.entries@.len(),
                forall|k: int| 0 <= k < i ==> !entry_fits(#[trigger] self.entries@[k], path@, size, modified),
            decreases self.entries@.len() - i,
        {
            let e = &self.entries[i];
            if e.file_size == size && e.modified == modified && str_eq(e.path.as_str(), path) {
                return Some(e);
            }
            i = i + 1;
        }
        None
    }
}

/// A copy of an entry, field for field.
pub fn copy_entry(e: &GameEntry) -> (r: GameEntry)
    ensures
        r == *e,
{
    GameEntry {
        id: e.id.clone(),
        path: e.path.clone(),
        file_size: e.file_size,
        modified: e.modified,
        title: e.title.clone(),
        mapping: e.mapping.clone(),
        region: e.region.clone(),
        rom_bytes: e.rom_bytes,
        sram_bytes: e.sram_bytes,
        coprocessor: match &e.coprocessor {
            Some(c) => Some(c.clone()),
            None => None,
        },
        fastrom: e.fastrom,
        checksum: e.checksum,
        checksum_valid: e.checksum_valid,
        missing: e.missing,
    }
}

fn copy_entries(v: &Vec<GameEntry>) -> (r: Vec<GameEntry>)
    ensures
        r@ == v@,
{
    let mut r: Vec<GameEntry> = Vec::new();
    let mut i: usize = 0;
    while i < v.len()
        invariant
            i <= v@.len(),
            r@ == v@.take(i as int),
        decreases v@.len() - i,
    {
        r.push(copy_entry(&v[i]));
        i = i + 1;
        assert(r@ =~= v@.take(i as int));
    }
    assert(v@.take(v@.len() as int) =~= v@);
    r
}

/// The first cached entry for `path`, whatever its size and mtime.
pub open spec fn cached_at(entries: Seq<GameEntry>, path: Seq<char>) -> Option<GameEntry>
    decreases entries.len(),
{
    if entries.len() == 0 {
        None
    } else if entries[0].path@ == path {
        Some(entries[0])
    } else {
        cached_at(entries.drop_first(), path)
    }
}

/// The name a game is shown under when nothing was ever read from it: its
/// file name, or the whole path when it has none.
pub open spec fn bare_name(path: Seq<char>) -> Seq<char> {
    match path_file_name(path) {
        Some(n) => n,
        None => path,
    }
}

/// `e` is the placeholder for an added game whose file is gone: the last
/// known entry for its path marked missing, else the bare minimum built from
/// the file name (no header, so the id is derived from the name).
pub open spec fn is_missing_entry(e: GameEntry, path: Seq<char>, entries: Seq<GameEntry>) -> bool {
    match cached_at(entries, path) {
        Some(known) => e == (GameEntry { missing: true, ..known }),
        None => {
            &&& e.id@ == "missing-"@ + spec_normalize(bare_name(path))
            &&& e.path@ == path
            &&& e.file_size == 0 && e.modified == 0
            &&& e.title@ == bare_name(path)
            &&& e.mapping@.len() == 0 && e.region@.len() == 0
            &&& e.rom_bytes == 0 && e.sram_bytes == 0
            &&& e.coprocessor is None
            &&& !e.fastrom && e.checksum == 0 && !e.checksum_valid
            &&& e.missing
        },
    }
}

/// Placeholder for an added game whose file is gone (see
/// `is_missing_entry`): it still gets a card, marked unreachable.
pub fn missing_entry(path: &str, cache: &Cache) -> (r: GameEntry)
    ensures
        is_missing_entry(r, path@, cache.entries@),
{
    let mut i: usize = 0;
    assert(cache.entries@.skip(0) =~= cache.entries@);
    while i < cache.entries.len()
        invariant
            i <= cache.entries@.len(),
            cached_at(cache.entries@, path@) == cached_at(cache.entries@.skip(i as int), path@),
        decreases cache.entries@.len() - i,
    {
        proof {
            let t = cache.entries@.skip(i as int);
            assert(t.drop_first() =~= cache.entries@.skip(i + 1));
            assert(t[0] == cache.entries@[i as int]);
        }
        if str_eq(cache.entries[i].path.as_str(), path) {
            let mut e = copy_entry(&cache.entries[i]);
            e.missing = true;
            return e;
        }
        i = i + 1;
    }
    let name = match file_name(path) {
        Some(n) => n,
        None => String::from_str(path),
    };
    proof {
        reveal_strlit("missing-");
    }
    let mut id = String::from_str("missing-");
    let folded = normalize(name.as_str());
    push_str(&mut id, folded.as_str());
    GameEntry {
        id,
        path: String::from_str(path),
        file_size: 0,
        modified: 0,
        title: name,
        mapping: String::new(),
        region: String::new(),
        rom_bytes: 0,
        sram_bytes: 0,
        coprocessor: None,
        fastrom: false,
        checksum: 0,
        checksum_valid: false,
        missing: true,
    }
}

/// One ROM file as a scan met it: its path, the key two spellings of one
/// file share (the canonical path when it resolves), and its entry — reused
/// from the cache or freshly read — or `None` when it could not be read.
#[derive(Debug)]
pub struct Probe {
    pub path: String,
    pub key: String,
    pub entry: Option<GameEntry>,
}

/// The entries of the files that were read, in order.
pub open spec fn found_entries(folder: Seq<Probe>) -> Seq<GameEntry>
    decreases folder.len(),
{
    if folder.len() == 0 {
        Seq::empty()
    } else {
        found_entries(folder.drop_last()) + match folder.last().entry {
            Some(e) => seq![e],
            None => Seq::<GameEntry>::empty(),
        }
    }
}

/// The added games that are new: in order, each whose key is neither
/// already `seen` nor that of an earlier one kept.
pub open spec fn first_new(seen: Seq<Seq<char>>, extra: Seq<Probe>) -> Seq<Probe>
    decreases extra.len(),
{
    if extra.len() == 0 {
        Seq::empty()
    } else if seen.contains(extra[0].key@) {
        first_new(seen, extra.drop_first())
    } else {
        seq![extra[0]] + first_new(seen.push(extra[0].key@), extra.drop_first())
    }
}

pub open spec fn probe_keys(s: Seq<Probe>) -> Seq<Seq<char>> {
    s.map_values(|p: Probe| p.key@)
}

/// The card an added game gets: its entry, or the missing placeholder.
pub open spec fn added_card(e: GameEntry, p: Probe, entries: Seq<GameEntry>) -> bool {
    match p.entry {
        Some(x) => e == x,
        None => is_missing_entry(e, p.path@, entries),
    }
}

/// What a scan lists: the folder's files that were read, in folder order,
/// then every added game not already listed, each as its entry or, when it
/// could not be read, as the missing placeholder.
pub open spec fn scan_result(r: Seq<GameEntry>, folder: Seq<Probe>, extra: Seq<Probe>, entries: Seq<GameEntry>) -> bool {
    let f = found_entries(folder);
    let k = first_new(probe_keys(folder), extra);
    &&& r.len() == f.len() + k.len()
    &&& r.take(f.len() as int) == f
    &&& forall|i: int| 0 <= i < k.len() ==> added_card(#[trigger] r[f.len() + i], k[i], entries)
}

/// A game added by hand is listed once: one the folder (or an earlier added
/// game) already lists under the same key gets no second card, and every
/// other added game gets one.
pub proof fn law_an_added_game_is_listed_once(seen: Seq<Seq<char>>, extra: Seq<Probe>)
    ensures
        forall|i: int| 0 <= i < first_new(seen, extra).len() ==> !seen.contains(#[trigger] first_new(seen, extra)[i].key@),
        forall|i: int, j: int| 0 <= i < j < first_new(seen, extra).len()
            ==> #[trigger] first_new(seen, extra)[i].key@ != #[trigger] first_new(seen, extra)[j].key@,
        forall|i: int| 0 <= i < extra.len() && !seen.contains(#[trigger] extra[i].key@)
            ==> probe_keys(first_new(seen, extra)).contains(extra[i].key@),
    decreases extra.len(),
{
    if extra.len() > 0 {
        let rest = extra.drop_first();
        let k = first_new(seen, extra);
        if seen.contains(extra[0].key@) {
            law_an_added_game_is_listed_once(seen, rest);
            assert forall|i: int| 0 <= i < extra.len() && !seen.contains(#[trigger] extra[i].key@)
                implies probe_keys(k).contains(extra[i].key@) by {
                assert(i > 0);
                assert(extra[i] == rest[i - 1]);
            }
        } else {
            let s2 = seen.push(extra[0].key@);
            let t = first_new(s2, rest);
            law_an_added_game_is_listed_once(s2, rest);
            assert(k == seq![extra[0]] + t);
            assert forall|i: int| 0 <= i < k.len() implies !seen.contains(#[trigger] k[i].key@) by {
                if i > 0 {
                    assert(k[i] == t[i - 1]);
                    assert(!s2.contains(t[i - 1].key@));
                    if seen.contains(k[i].key@) {
                        let w = choose|w: int| 0 <= w < seen.len() && seen[w] == k[i].key@;
                        assert(s2[w] == seen[w]);
                    }
                }
            }
            assert forall|i: int, j: int| 0 <= i < j < k.len() implies #[trigger] k[i].key@ != #[trigger] k[j].key@ by {
                assert(k[j] == t[j - 1]);
                assert(!s2.contains(t[j - 1].key@));
                if i == 0 {
                    assert(s2[seen.len() as int] == extra[0].key@);
                } else {
                    assert(k[i] == t[i - 1]);
                }
            }
            assert forall|i: int| 0 <= i < extra.len() && !seen.contains(#[trigger] extra[i].key@)
                implies probe_keys(k).contains(extra[i].key@) by {
                assert(probe_keys(k)[0] == extra[0].key@);
                if i > 0 {
                    assert(extra[i] == rest[i - 1]);
                    if extra[i].key@ != extra[0].key@ {
                        if s2.contains(extra[i].key@) {
                            let w = choose|w: int| 0 <= w < s2.len() && s2[w] == extra[i].key@;
                            if w < seen.len() {
                                assert(seen[w] == s2[w]);
                            }
                        }
                        assert(probe_keys(t).contains(rest[i - 1].key@));
                        let w = choose|w: int| 0 <= w < probe_keys(t).len() && probe_keys(t)[w] == rest[i - 1].key@;
                        assert(probe_keys(k)[w + 1] == probe_keys(t)[w]);
                    }
                }
            }
        }
    }
}

pub open spec fn string_views(v: Seq<String>) -> Seq<Seq<char>> {
    v.map_values(|s: String| s@)
}

fn contains_key(seen: &Vec<String>, key: &str) -> (r: bool)
    ensures
        r == string_views(seen@).contains(key@),
{
    let mut i: usize = 0;
    while i < seen.len()
        invariant
            i <= seen@.len(),
            forall|k: int| 0 <= k < i ==> seen@[k]@ != key@,
        decreases seen@.len() - i,
    {
        if str_eq(seen[i].as_str(), key) {
            proof {
                assert(string_views(seen@)[i as int] == key@);
            }
            return true;
        }
        i = i + 1;
    }
    proof {
        let sv = string_views(seen@);
        if sv.contains(key@) {
            let k = choose|k: int| 0 <= k < sv.len() && sv[k] == key@;
            assert(seen@[k]@ == key@);
        }
    }
    false
}

/// Fold a folder scan and the games added one by one into the library list
/// (see `scan_result`); the cache becomes exactly that list, so entries of
/// files that are gone disappear. `folder` is the folder's ROM files in
/// order, `extra` the added games.
pub fn scan(folder: &Vec<Probe>, extra: &Vec<Probe>, cache: &mut Cache) -> (r: Vec<GameEntry>)
    ensures
        scan_result(r@, folder@, extra@, old(cache).entries@),
        final(cache).version == CACHE_VERSION,
        final(cache).entries@ == r@,
{
    let mut r: Vec<GameEntry> = Vec::new();
    let mut seen: Vec<String> = Vec::new();
    let mut i: usize = 0;
    while i < folder.len()
        invariant
            i <= folder@.len(),
            r@ == found_entries(folder@.take(i as int)),
            seen@.len() == i,
            string_views(seen@) == probe_keys(folder@.take(i as int)),
        decreases folder@.len() - i,
    {
        assert(folder@.take(i + 1).drop_last() =~= folder@.take(i as int));
        match &folder[i].entry {
            Some(e) => {
                r.push(copy_entry(e));
            },
            None => {},
        }
        let ghost s0 = seen@;
        let key = folder[i].key.clone();
        assert(key@ == folder@[i as int].key@);
        seen.push(key);
        assert(seen@ == s0.push(key));
        i = i + 1;
        assert(r@ =~= found_entries(folder@.take(i as int)));
        assert forall|k: int| 0 <= k < i implies #[trigger] string_views(seen@)[k] == probe_keys(folder@.take(i as int))[k] by {
            if k < i - 1 {
                assert(seen@[k] == s0[k]);
                assert(string_views(s0)[k] == probe_keys(folder@.take(i - 1))[k]);
                assert(folder@.take(i - 1)[k] == folder@.take(i as int)[k]);
            } else {
                assert(seen@[k] == key);
                assert(folder@.take(i as int)[k] == folder@[k]);
            }
        }
        assert(string_views(seen@) =~= probe_keys(folder@.take(i as int)));
    }
    assert(folder@.take(folder@.len() as int) =~= folder@);
    let ghost f = r@;
    let ghost goal = first_new(probe_keys(folder@), extra@);
    let ghost mut acc: Seq<Probe> = Seq::empty();
    let mut j: usize = 0;
    assert(extra@.skip(0) =~= extra@);
    while j < extra.len()
        invariant
            j <= extra@.len(),
            f == found_entries(folder@),
            goal == first_new(probe_keys(folder@), extra@),
            acc + first_new(string_views(seen@), extra@.skip(j as int)) == goal,
            r@.len() == f.len() + acc.len(),
            r@.take(f.len() as int) == f,
            forall|k: int| 0 <= k < acc.len() ==> added_card(#[trigger] r@[f.len() + k], acc[k], cache.entries@),
        decreases extra@.len() - j,
    {
        let p = &extra[j];
        let ghost sv = string_views(seen@);
        let ghost rest = extra@.skip(j as int);
        assert(rest[0] == *p);
        assert(rest.drop_first() =~= extra@.skip(j + 1));
        if !contains_key(&seen, p.key.as_str()) {
            let card = match &p.entry {
                Some(e) => copy_entry(e),
                None => missing_entry(p.path.as_str(), cache),
            };
            let ghost r0 = r@;
            let ghost a0 = acc;
            r.push(card);
            seen.push(p.key.clone());
            proof {
                assert(string_views(seen@) =~= sv.push(p.key@));
                assert(a0.push(*p) + first_new(sv.push(p.key@), rest.drop_first()) =~= a0 + first_new(sv, rest));
                acc = a0.push(*p);
                assert(r@.take(f.len() as int) =~= r0.take(f.len() as int));
                assert forall|k: int| 0 <= k < acc.len() implies added_card(#[trigger] r@[f.len() + k], acc[k], cache.entries@) by {
                    if k < a0.len() {
                        assert(r@[f.len() + k] == r0[f.len() + k]);
                        assert(acc[k] == a0[k]);
                    }
                }
            }
        }
        j = j + 1;
    }
    assert(extra@.skip(extra@.len() as int) =~= Seq::<Probe>::empty());
    cache.version = CACHE_VERSION;
    cache.entries = copy_entries(&r);
    r
}

/// Sort order offered by the library screen.
#[derive(Debug, Clone, Copy, PartialEq, Eq, Structural)]
pub enum SortMode {
    /// Alphabetical by displayed title.
    Title,
    /// Most recently played first; never-played games after them.
    Recent,
}

impl Default for SortMode {
    fn default() -> (r: SortMode)
        ensures
            r == SortMode::Title,
    {
        SortMode::Title
    }
}

pub open spec fn sort_pref_text(m: SortMode) -> Seq<char> {
    match m {
        SortMode::Title => "title"@,
        SortMode::Recent => "recent"@,
    }
}

impl SortMode {
    /// Value stored in the preferences.
    pub fn as_pref(self) -> (r: &'static str)
        ensures
            r@ == sort_pref_text(self),
    {
        match self {
            SortMode::Title => "title",
            SortMode::Recent => "recent",
        }
    }

    /// `recent` reads as `Recent`; anything else as `Title`.
    pub fn from_pref(s: &str) -> (r: SortMode)
        ensures
            r == (if s@ == "recent"@ { SortMode::Recent } else { SortMode::Title }),
    {
        if str_eq(s, "recent") {
            SortMode::Recent
        } else {
            SortMode::Title
        }
    }

    /// The label the sort menu shows.
    pub fn label(self, lang: Lang) -> (r: &'static str)
        ensures
            r@ == (match self {
                SortMode::Title => msg_text(Msg::SortTitle, lang),
                SortMode::Recent => msg_text(Msg::SortRecent, lang),
            }),
    {
        match self {
            SortMode::Title => Msg::SortTitle.text(lang),
            SortMode::Recent => Msg::SortRecent.text(lang),
        }
    }
}

/// A stored sort order reads back as itself.
pub proof fn law_sort_pref_round_trip(m: SortMode)
    ensures
        (if sort_pref_text(m) == "recent"@ { SortMode::Recent } else { SortMode::Title }) == m,
{
    reveal_strlit("title");
    reveal_strlit("recent");
    assert("title"@.len() != "recent"@.len());
}

/// Common accented Latin letters reduced to their base letter.
pub open spec fn fold_accent(c: char) -> char {
    if c == 'à' || c == 'á' || c == 'â' || c == 'ä' || c == 'ã' || c == 'å' || c == 'À' || c == 'Á' || c == 'Â' || c == 'Ä' || c == 'Ã' || c == 'Å' {
        'a'
    } else if c == 'ç' || c == 'Ç' {
        'c'
    } else if c == 'è' || c == 'é' || c == 'ê' || c == 'ë' || c == 'È' || c == 'É' || c == 'Ê' || c == 'Ë' {
        'e'
    } else if c == 'ì' || c == 'í' || c == 'î' || c == 'ï' || c == 'Ì' || c == 'Í' || c == 'Î' || c == 'Ï' {
        'i'
    } else if c == 'ñ' || c == 'Ñ' {
        'n'
    } else if c == 'ò' || c == 'ó' || c == 'ô' || c == 'ö' || c == 'õ' || c == 'Ò' || c == 'Ó' || c == 'Ô' || c == 'Ö' || c == 'Õ' {
        'o'
    } else if c == 'ù' || c == 'ú' || c == 'û' || c == 'ü' || c == 'Ù' || c == 'Ú' || c == 'Û' || c == 'Ü' {
        'u'
    } else if c == 'ý' || c == 'ÿ' || c == 'Ý' {
        'y'
    } else {
        c
    }
}

fn fold_accent_char(c: char) -> (r: char)
    ensures
        r == fold_accent(c),
{
    if c == 'à' || c == 'á' || c == 'â' || c == 'ä' || c == 'ã' || c == 'å' || c == 'À' || c == 'Á' || c == 'Â' || c == 'Ä' || c == 'Ã' || c == 'Å' {
        'a'
    } else if c == 'ç' || c == 'Ç' {
        'c'
    } else if c == 'è' || c == 'é' || c == 'ê' || c == 'ë' || c == 'È' || c == 'É' || c == 'Ê' || c == 'Ë' {
        'e'
    } else if c == 'ì' || c == 'í' || c == 'î' || c == 'ï' || c == 'Ì' || c == 'Í' || c == 'Î' || c == 'Ï' {
        'i'
    } else if c == 'ñ' || c == 'Ñ' {
        'n'
    } else if c == 'ò' || c == 'ó' || c == 'ô' || c == 'ö' || c == 'õ' || c == 'Ò' || c == 'Ó' || c == 'Ô' || c == 'Ö' || c == 'Õ' {
        'o'
    } else if c == 'ù' || c == 'ú' || c == 'û' || c == 'ü' || c == 'Ù' || c == 'Ú' || c == 'Û' || c == 'Ü' {
        'u'
    } else if c == 'ý' || c == 'ÿ' || c == 'Ý' {
        'y'
    } else {
        c
    }
}

/// A string folded for searching: accents folded, everything that is not
/// alphanumeric dropped, the rest lowered.
pub open spec fn spec_normalize(s: Seq<char>) -> Seq<char>
    decreases s.len(),
{
    if s.len() == 0 {
        Seq::empty()
    } else {
        let c = fold_accent(s.last());
        if char_alnum(c) {
            spec_normalize(s.drop_last()) + char_lowercase(c)
        } else {
            spec_normalize(s.drop_last())
        }
    }
}

/// An ASCII letter lowered.
pub open spec fn ascii_lower(c: char) -> char {
    if ascii_upper(c) {
        ((c as u32) + 0x20) as char
    } else {
        c
    }
}

/// What `spec_normalize` is on text whose characters all fold to ASCII:
/// letters and digits kept, letters lowered, the rest dropped.
pub open spec fn spec_normalize_ascii(s: Seq<char>) -> Seq<char>
    decreases s.len(),
{
    if s.len() == 0 {
        Seq::empty()
    } else {
        let c = fold_accent(s.last());
        if ascii_alnum(c) {
            spec_normalize_ascii(s.drop_last()).push(ascii_lower(c))
        } else {
            spec_normalize_ascii(s.drop_last())
        }
    }
}

/// Every character of `s` folds to an ASCII one.
pub open spec fn folds_to_ascii(s: Seq<char>) -> bool {
    forall|i: int| 0 <= i < s.len() ==> (fold_accent(#[trigger] s[i]) as u32) < 0x80
}

/// Fold a string for searching: lowercase, common accented Latin letters
/// reduced to their base letter, everything that is not alphanumeric dropped.
pub fn normalize(s: &str) -> (r: String)
    ensures
        r@ == spec_normalize(s@),
        folds_to_ascii(s@) ==> r@ == spec_normalize_ascii(s@),
{
    let v = chars_of(s);
    let mut out: Vec<char> = Vec::new();
    let mut i: usize = 0;
    while i < v.len()
        invariant
            v@ == s@,
            i <= v@.len(),
            out@ == spec_normalize(v@.take(i as int)),
            folds_to_ascii(v@) ==> out@ == spec_normalize_ascii(v@.take(i as int)),
        decreases v@.len() - i,
    {
        proof {
            assert(v@.take(i + 1).drop_last() =~= v@.take(i as int));
            assert(v@.take(i + 1).last() == v@[i as int]);
        }
        let c = fold_accent_char(v[i]);
        if is_alphanumeric(c) {
            let low = to_lowercase(c);
            proof {
                if folds_to_ascii(v@) {
                    assert((fold_accent(v@[i as int]) as u32) < 0x80);
                    assert(low@ =~= seq![ascii_lower(c)]);
                }
            }
            let ghost before = out@;
            let mut k: usize = 0;
            while k < low.len()
                invariant
                    k <= low@.len(),
                    out@ == before + low@.take(k as int),
                decreases low@.len() - k,
            {
                out.push(low[k]);
                k = k + 1;
                assert(out@ =~= before + low@.take(k as int));
            }
            assert(low@.take(low@.len() as int) =~= low@);
        }
        i = i + 1;
    }
    assert(v@.take(v@.len() as int) =~= v@);
    let mut r = String::new();
    push_chars(&mut r, out.as_slice());
    r
}

/// `q` occurs in `s` as a contiguous run.
pub open spec fn occurs_in(q: Seq<char>, s: Seq<char>) -> bool {
    exists|i: int| 0 <= i && i + q.len() <= s.len() && #[trigger] s.subrange(i, i + q.len()) == q
}

fn contains_str(s: &str, q: &str) -> (r: bool)
    ensures
        r == occurs_in(q@, s@),
{
    let sv = chars_of(s);
    let qv = chars_of(q);
    if qv.len() > sv.len() {
        return false;
    }
    if qv.len() == 0 {
        assert(s@.subrange(0int, 0int + q@.len()) =~= q@);
        return true;
    }
    let last = sv.len() - qv.len();
    let mut i: usize = 0;
    while i <= last
        invariant
            sv@ == s@,
            qv@ == q@,
            last == sv@.len() - qv@.len(),
            1 <= qv@.len() <= sv@.len() <= usize::MAX,
            i <= last + 1,
            forall|j: int| 0 <= j < i ==> #[trigger] sv@.subrange(j, j + qv@.len()) != qv@,
        decreases last + 1 - i,
    {
        let mut k: usize = 0;
        let mut same = true;
        while k < qv.len()
            invariant
                sv@ == s@,
                qv@ == q@,
                i <= last,
                last == sv@.len() - qv@.len(),
                1 <= qv@.len() <= sv@.len() <= usize::MAX,
                k <= qv@.len(),
                same == forall|m: int| 0 <= m < k ==> sv@[i + m] == #[trigger] qv@[m],
            decreases qv@.len() - k,
        {
            assert(k < qv@.len());
            assert(i + k < sv@.len());
            if sv[i + k] != qv[k] {
                same = false;
            }
            k = k + 1;
        }
        if same {
            assert(sv@.subrange(i as int, i + qv@.len()) =~= qv@);
            return true;
        }
        proof {
            if sv@.subrange(i as int, i + qv@.len()) == qv@ {
                assert forall|m: int| 0 <= m < qv@.len() implies sv@[i + m] == #[trigger] qv@[m] by {
                    assert(sv@.subrange(i as int, i + qv@.len())[m] == sv@[i + m]);
                }
            }
        }
        i = i + 1;
    }
    proof {
        if occurs_in(q@, s@) {
            let j = choose|j: int| 0 <= j && j + q@.len() <= s@.len() && #[trigger] s@.subrange(j, j + q@.len()) == q@;
            assert(sv@.subrange(j, j + qv@.len()) == qv@);
        }
    }
    false
}

/// Whether an entry matches a query already folded by `normalize`: a
/// substring of the folded title or file name; an empty query matches all.
pub open spec fn spec_matches(e: GameEntry, query: Seq<char>) -> bool {
    query.len() == 0 || occurs_in(query, spec_normalize(entry_display_title(e)))
        || occurs_in(query, spec_normalize(entry_file_name(e)))
}

/// Whether `entry` matches the search box (`query` already folded).
pub fn matches(entry: &GameEntry, query: &str) -> (r: bool)
    ensures
        r == spec_matches(*entry, query@),
{
    let qv = chars_of(query);
    if qv.len() == 0 {
        return true;
    }
    let t = normalize(entry.display_title().as_str());
    if contains_str(t.as_str(), query) {
        return true;
    }
    let f = normalize(entry.file_name().as_str());
    contains_str(f.as_str(), query)
}

/// A size with one decimal, the value in tenths rounded half to even.
pub open spec fn tenths_of_mib(bytes: u64) -> nat {
    let q = (bytes as nat * 10) / 1048576;
    let r = (bytes as nat * 10) % 1048576;
    if r > 524288 || (r == 524288 && q % 2 == 1) {
        q + 1
    } else {
        q
    }
}

/// The game sheet's size line, in each language's units and decimal mark.
pub open spec fn spec_format_size(lang: Lang, bytes: u64) -> Seq<char> {
    let fr = lang == Lang::Fr;
    if bytes >= 1048576 {
        let t = tenths_of_mib(bytes);
        dec(t / 10) + (if fr { ","@ } else { "."@ }) + dec(t % 10) + (if fr { " Mo"@ } else { " MB"@ })
    } else if bytes >= 1024 {
        dec((bytes / 1024) as nat) + (if fr { " Ko"@ } else { " KB"@ })
    } else {
        dec(bytes as nat) + (if fr { " o"@ } else { " B"@ })
    }
}

/// Human size: `2,5 Mo` in French, `2.5 MB` in English. Mebibytes keep one
/// decimal, rounded half to even on the exact quotient.
pub fn format_size(lang: Lang, bytes: u64) -> (r: String)
    ensures
        r@ == spec_format_size(lang, bytes),
{
    let fr = match lang {
        Lang::Fr => true,
        Lang::En => false,
    };
    let mut r = String::new();
    if bytes >= 1048576 {
        let x: u128 = bytes as u128 * 10;
        let q: u128 = x / 1048576;
        let rem: u128 = x % 1048576;
        let t: u128 = if rem > 524288 || (rem == 524288 && q % 2 == 1) { q + 1 } else { q };
        assert(t == tenths_of_mib(bytes));
        let whole = decimal((t / 10) as u64);
        push_chars(&mut r, whole.as_slice());
        push_str(&mut r, if fr { "," } else { "." });
        let frac = decimal((t % 10) as u64);
        push_chars(&mut r, frac.as_slice());
        push_str(&mut r, if fr { " Mo" } else { " MB" });
    } else if bytes >= 1024 {
        let k = decimal(bytes / 1024);
        push_chars(&mut r, k.as_slice());
        push_str(&mut r, if fr { " Ko" } else { " KB" });
    } else {
        let b = decimal(bytes);
        push_chars(&mut r, b.as_slice());
        push_str(&mut r, if fr { " o" } else { " B" });
    }
    r
}

/// Battery SRAM line of the game sheet: `Aucune` / `None` without any.
pub fn format_sram(lang: Lang, bytes: u64) -> (r: String)
    ensures
        r@ == (if bytes == 0 { msg_text(Msg::NoneFeminine, lang) } else { spec_format_size(lang, bytes) }),
{
    if bytes == 0 {
        String::from_str(Msg::NoneFeminine.text(lang))
    } else {
        format_size(lang, bytes)
    }
}

/// Cumulated play time: never, under a minute, whole minutes, then hours and
/// two-digit minutes.
pub open spec fn spec_play_time(lang: Lang, seconds: u64) -> Seq<char> {
    if seconds == 0 {
        msg_text(Msg::NeverPlayed, lang)
    } else if seconds < 60 {
        msg_text(Msg::LessThanAMinute, lang)
    } else if seconds / 60 < 60 {
        dec((seconds / 60) as nat) + " min"@
    } else {
        dec((seconds / 60 / 60) as nat) + " h "@ + crate::text::zpad((seconds / 60 % 60) as nat, 2)
    }
}

/// Cumulated play time, rounded down to the minute.
pub fn format_play_time(lang: Lang, seconds: u64) -> (r: String)
    ensures
        r@ == spec_play_time(lang, seconds),
{
    if seconds == 0 {
        return String::from_str(Msg::NeverPlayed.text(lang));
    }
    if seconds < 60 {
        return String::from_str(Msg::LessThanAMinute.text(lang));
    }
    let minutes = seconds / 60;
    let mut r = String::new();
    if minutes < 60 {
        let m = decimal(minutes);
        push_chars(&mut r, m.as_slice());
        push_str(&mut r, " min");
        return r;
    }
    let h = decimal(minutes / 60);
    push_chars(&mut r, h.as_slice());
    push_str(&mut r, " h ");
    let m = crate::text::padded(minutes % 60, 2);
    push_chars(&mut r, m.as_slice());
    r
}

// --- time --------------------------------------------------------------

#[verifier::external_type_specification]
#[verifier::external_body]
pub struct ExSystemTime(std::time::SystemTime);

/// What `t.duration_since(UNIX_EPOCH)` gives, in whole seconds: `Ok` at or
/// after the epoch, `Err` (the error's duration) before it.
pub uninterp spec fn epoch_offset_of(t: std::time::SystemTime) -> Result<u64, u64>;

/// Calls `SystemTime::duration_since(UNIX_EPOCH)` and keeps the whole
/// seconds. The result is a function of the time value alone, named by
/// `epoch_offset_of`; what the value holds is not visible to the library.
#[verifier::external_body]
fn epoch_offset(t: std::time::SystemTime) -> (r: Result<u64, u64>)
    ensures
        r == epoch_offset_of(t),
{
    match t.duration_since(std::time::UNIX_EPOCH) {
        Ok(d) => Ok(d.as_secs()),
        Err(e) => Err(e.duration().as_secs()),
    }
}

/// Calls `SystemTime::now()`: the clock, of which nothing is stated.
#[verifier::external_body]
fn clock_now() -> std::time::SystemTime {
    std::time::SystemTime::now()
}

/// Seconds after (`Ok`) or before (`Err`) the epoch as a signed count: the
/// seconds taken as `i64` (wrapping, as a cast does), negated before the
/// epoch, the negation wrapping at `i64::MIN`.
pub open spec fn signed_secs(offset: Result<u64, u64>) -> i64 {
    match offset {
        Ok(s) => s as i64,
        Err(s) => if s as i64 == i64::MIN {
            i64::MIN
        } else {
            (-(s as i64)) as i64
        },
    }
}

/// An offset from the epoch as a signed count of seconds.
pub fn secs_from_offset(offset: Result<u64, u64>) -> (r: i64)
    ensures
        r == signed_secs(offset),
{
    match offset {
        Ok(s) => s as i64,
        Err(s) => {
            let v = s as i64;
            if v == i64::MIN {
                i64::MIN
            } else {
                -v
            }
        },
    }
}

/// `SystemTime` -> seconds since the Unix epoch, negative before 1970: the
/// signed count of the offset the time value holds.
pub fn unix_secs(t: std::time::SystemTime) -> (r: i64)
    ensures
        r == signed_secs(epoch_offset_of(t)),
{
    secs_from_offset(epoch_offset(t))
}

/// Now, as a Unix timestamp.
pub fn now_unix() -> (r: i64) {
    unix_secs(clock_now())
}

/// `JJ/MM/AAAA HH:MM` in French, ISO `AAAA-MM-JJ HH:MM` in English.
pub open spec fn spec_format_date(lang: Lang, t: CalendarTime) -> Seq<char> {
    let clock = seq![' '] + zpad(t.hour as nat, 2) + seq![':'] + zpad(t.minute as nat, 2);
    match lang {
        Lang::Fr => zpad(t.day as nat, 2) + seq!['/'] + zpad(t.month as nat, 2) + seq!['/']
            + zpad_signed(t.year as int, 4) + clock,
        Lang::En => zpad_signed(t.year as int, 4) + seq!['-'] + zpad(t.month as nat, 2) + seq!['-']
            + zpad(t.day as nat, 2) + clock,
    }
}

/// A calendar date and time as the game sheet writes it: day first in
/// French, ISO in English, never month first. The time is the local one,
/// which the caller breaks the timestamp down into.
pub fn format_date(lang: Lang, t: &CalendarTime) -> (r: String)
    ensures
        r@ == spec_format_date(lang, *t),
{
    let mut v: Vec<char> = Vec::new();
    match lang {
        Lang::Fr => {
            append(&mut v, &padded(t.day as u64, 2));
            v.push('/');
            append(&mut v, &padded(t.month as u64, 2));
            v.push('/');
            append(&mut v, &padded_signed(t.year as i64, 4));
        },
        Lang::En => {
            append(&mut v, &padded_signed(t.year as i64, 4));
            v.push('-');
            append(&mut v, &padded(t.month as u64, 2));
            v.push('-');
            append(&mut v, &padded(t.day as u64, 2));
        },
    }
    v.push(' ');
    append(&mut v, &padded(t.hour as u64, 2));
    v.push(':');
    append(&mut v, &padded(t.minute as u64, 2));
    let mut r = String::new();
    push_chars(&mut r, v.as_slice());
    assert(r@ =~= spec_format_date(lang, *t));
    r
}

/// A save state that exists on disk for a game.
#[derive(Debug, Clone, PartialEq, Eq)]
pub struct StateFile {
    /// Manual slot number, or `None` for the automatic session state.
    pub slot: Option<u8>,
    pub path: String,
    pub size: u64,
    pub modified: i64,
    /// Picture written beside the state when it was saved, when there is one.
    pub preview: Option<String>,
}

impl StateFile {
    pub fn label(&self, lang: Lang) -> (r: String)
        ensures
            r@ == spec_slot_label(lang, self.slot),
    {
        slot_label(lang, self.slot)
    }
}

/// The folder the screenshot hotkey writes a game's captures to.
pub open spec fn spec_screenshot_dir(rom: Seq<char>, preferred: Option<Seq<char>>) -> Seq<char> {
    match preferred {
        Some(d) => d,
        None => match path_parent(rom) {
            Some(p) => if p.len() > 0 { path_join(p, "Screenshots"@) } else { "Screenshots"@ },
            None => "Screenshots"@,
        },
    }
}

/// The screenshot folder: the preference when set, else `Screenshots` beside
/// the ROM.
pub fn screenshot_dir(rom_path: &str, preferred: Option<String>) -> (r: String)
    ensures
        r@ == spec_screenshot_dir(rom_path@, match preferred { Some(d) => Some(d@), None => None }),
{
    match preferred {
        Some(d) => d,
        None => match parent(rom_path) {
            Some(p) => if chars_of(p.as_str()).len() > 0 {
                join(p.as_str(), "Screenshots")
            } else {
                String::from_str("Screenshots")
            },
            None => String::from_str("Screenshots"),
        },
    }
}

/// The picture to show for a game: the promoted screenshot while it exists,
/// else the generated thumbnail while it exists; `None` means a thumbnail is
/// still to be generated.
pub open spec fn spec_picture(custom: Option<Seq<char>>, generated: Option<Seq<char>>, d: Seq<crate::paths::Entry>) -> Option<Seq<char>> {
    if custom is Some && disk_is_file(d, custom->0) {
        custom
    } else if generated is Some && disk_is_file(d, generated->0) {
        generated
    } else {
        None
    }
}

pub fn resolve_picture(custom: Option<&str>, generated: Option<&str>, disk: &Disk) -> (r: Option<String>)
    ensures
        (match r { Some(p) => Some(p@), None => None }) == spec_picture(
            crate::paths::opt_view(custom),
            crate::paths::opt_view(generated),
            disk.entries@,
        ),
{
    if let Some(c) = custom {
        if disk.is_file(c) {
            return Some(String::from_str(c));
        }
    }
    match generated {
        Some(g) => if disk.is_file(g) {
            Some(String::from_str(g))
        } else {
            None
        },
        None => None,
    }
}

/// A file is a PNG (in any letter case).
pub open spec fn is_png(path: Seq<char>) -> bool {
    path_extension(path) matches Some(e) && e.map_values(|c: char| crate::i18n::ascii_lower(c)) == "png"@
}

/// A capture of the game whose file stem is `stem`: a PNG, named
/// `<stem>_…` when it sits in the flat folder (`require_prefix`).
pub open spec fn is_capture(path: Seq<char>, stem: Seq<char>, require_prefix: bool) -> bool {
    is_png(path) && (require_prefix ==> (path_file_stem(path) matches Some(n) && n.len() >= stem.len() + 1
        && n.take(stem.len() + 1int) == stem + "_"@))
}

/// The captures among listed `(path, mtime)` files, as `(mtime, path)`.
pub open spec fn captures_in(list: Seq<(String, i64)>, stem: Seq<char>, require_prefix: bool) -> Seq<(i64, Seq<char>)>
    decreases list.len(),
{
    if list.len() == 0 {
        Seq::empty()
    } else {
        let rest = captures_in(list.drop_last(), stem, require_prefix);
        if is_capture(list.last().0@, stem, require_prefix) {
            rest.push((list.last().1, list.last().0@))
        } else {
            rest
        }
    }
}

/// Newest first; equal times in path order.
pub open spec fn captured_before(a: (i64, Seq<char>), b: (i64, Seq<char>)) -> bool {
    a.0 > b.0 || (a.0 == b.0 && lex_less(a.1, b.1))
}

pub open spec fn insert_capture(s: Seq<(i64, Seq<char>)>, x: (i64, Seq<char>)) -> Seq<(i64, Seq<char>)>
    decreases s.len(),
{
    if s.len() == 0 || !captured_before(x, s.last()) {
        s.push(x)
    } else {
        insert_capture(s.drop_last(), x).push(s.last())
    }
}

/// The captures in display order (a stable sort, newest first).
pub open spec fn captures_sorted(s: Seq<(i64, Seq<char>)>) -> Seq<(i64, Seq<char>)>
    decreases s.len(),
{
    if s.len() == 0 {
        s
    } else {
        insert_capture(captures_sorted(s.drop_last()), s.last())
    }
}

proof fn lemma_insert_capture_at(s: Seq<(i64, Seq<char>)>, x: (i64, Seq<char>), j: int)
    requires
        0 <= j <= s.len(),
        forall|k: int| j <= k < s.len() ==> captured_before(x, #[trigger] s[k]),
        j == 0 || !captured_before(x, s[j - 1]),
    ensures
        insert_capture(s, x) == s.take(j).push(x) + s.skip(j),
    decreases s.len(),
{
    if s.len() == j {
        assert(s.skip(j) =~= Seq::<(i64, Seq<char>)>::empty());
        assert(s.take(j) =~= s);
    } else {
        let t = s.drop_last();
        assert forall|k: int| j <= k < t.len() implies captured_before(x, #[trigger] t[k]) by {
            assert(t[k] == s[k]);
        }
        if j > 0 {
            assert(t[j - 1] == s[j - 1]);
        }
        lemma_insert_capture_at(t, x, j);
        assert(captured_before(x, s[s.len() - 1]));
        assert(insert_capture(s, x) =~= s.take(j).push(x) + s.skip(j));
    }
}

pub open spec fn capture_views(v: Seq<(i64, String)>) -> Seq<(i64, Seq<char>)> {
    v.map_values(|p: (i64, String)| (p.0, p.1@))
}

fn lex_before(a: &(i64, String), b: &(i64, String)) -> (r: bool)
    ensures
        r == captured_before((a.0, a.1@), (b.0, b.1@)),
{
    if a.0 != b.0 {
        return a.0 > b.0;
    }
    let av = chars_of(a.1.as_str());
    let bv = chars_of(b.1.as_str());
    lex_less_exec(&av, &bv)
}

fn has_stem_prefix(n: &str, stem: &str) -> (r: bool)
    ensures
        r == (n@.len() >= stem@.len() + 1 && n@.take(stem@.len() + 1int) == stem@ + "_"@),
{
    let mut want = String::from_str(stem);
    push_str(&mut want, "_");
    let nv = chars_of(n);
    let wv = chars_of(want.as_str());
    proof {
        reveal_strlit("_");
    }
    if nv.len() < wv.len() {
        false
    } else {
        let head = crate::text::sub_chars(nv.as_slice(), 0, wv.len());
        assert(head@ =~= n@.take(wv@.len() as int));
        crate::text::chars_eq(head.as_slice(), wv.as_slice())
    }
}

fn collect_captures(list: &[(String, i64)], stem: &str, require_prefix: bool, out: &mut Vec<(i64, String)>)
    ensures
        capture_views(final(out)@) == capture_views(old(out)@) + captures_in(list@, stem@, require_prefix),
{
    let ghost o0 = capture_views(out@);
    let mut i: usize = 0;
    proof {
        reveal_strlit("png");
        reveal_strlit("_");
    }
    while i < list.len()
        invariant
            i <= list@.len(),
            capture_views(out@) == o0 + captures_in(list@.take(i as int), stem@, require_prefix),
        decreases list@.len() - i,
    {
        assert(list@.take(i + 1).drop_last() =~= list@.take(i as int));
        let path = list[i].0.as_str();
        let png = match extension(path) {
            Some(e) => {
                let v = chars_of(e.as_str());
                lower_is(&v, "png")
            },
            None => false,
        };
        let named = if !require_prefix {
            true
        } else {
            match file_stem(path) {
                Some(n) => has_stem_prefix(n.as_str(), stem),
                None => false,
            }
        };
        proof {
            assert(png == is_png(path@));
            if require_prefix {
                match path_file_stem(path@) {
                    Some(n) => {
                        assert(named == (n.len() >= stem@.len() + 1 && n.take(stem@.len() + 1int) == stem@ + "_"@));
                    },
                    None => {
                        assert(!named);
                    },
                }
            }
            assert((png && named) == is_capture(list@[i as int].0@, stem@, require_prefix));
        }
        if png && named {
            let ghost c0 = capture_views(out@);
            out.push((list[i].1, list[i].0.clone()));
            assert(capture_views(out@) =~= c0.push((list@[i as int].1, list@[i as int].0@)));
        }
        i = i + 1;
    }
    assert(list@.take(list@.len() as int) =~= list@);
}

/// Captures of the game titled `title`, newest first (equal times in path
/// order): the PNGs of the flat capture folder named `<stem>_…`, where the
/// stem is the title made a file name, and every PNG of the per-game
/// sub-folder. `flat` and `nested` are the two folders' files with their
/// modification times.
pub fn screenshots(title: &str, flat: &[(String, i64)], nested: &[(String, i64)]) -> (r: Vec<String>)
    ensures
        r@.map_values(|p: String| p@) == captures_sorted(
            captures_in(flat@, spec_sanitize(title@), true) + captures_in(nested@, spec_sanitize(title@), false),
        ).map_values(|p: (i64, Seq<char>)| p.1),
{
    let stem = sanitize_file_stem(title);
    let mut found: Vec<(i64, String)> = Vec::new();
    collect_captures(flat, stem.as_str(), true, &mut found);
    collect_captures(nested, stem.as_str(), false, &mut found);
    let ghost all = capture_views(found@);
    let mut sorted: Vec<(i64, String)> = Vec::new();
    let mut i: usize = 0;
    assert(capture_views(sorted@) =~= captures_sorted(all.take(0)));
    while i < found.len()
        invariant
            all == capture_views(found@),
            i <= found@.len(),
            capture_views(sorted@) == captures_sorted(all.take(i as int)),
        decreases found@.len() - i,
    {
        let x = (found[i].0, found[i].1.clone());
        let ghost xv = (x.0, x.1@);
        assert(xv == all[i as int]);
        let mut j: usize = sorted.len();
        while j > 0 && lex_before(&x, &sorted[j - 1])
            invariant
                j <= sorted@.len(),
                xv == (x.0, x.1@),
                forall|k: int| j <= k < sorted@.len() ==> captured_before(xv, #[trigger] capture_views(sorted@)[k]),
            decreases j,
        {
            j = j - 1;
        }
        let ghost s0 = capture_views(sorted@);
        proof {
            if j > 0 {
                assert(!captured_before(xv, s0[j - 1]));
            }
            lemma_insert_capture_at(s0, xv, j as int);
            assert(all.take(i + 1).drop_last() =~= all.take(i as int));
        }
        sorted.insert(j, x);
        assert(capture_views(sorted@) =~= s0.take(j as int).push(xv) + s0.skip(j as int));
        i = i + 1;
    }
    assert(all.take(all.len() as int) =~= all);
    let mut r: Vec<String> = Vec::new();
    let mut k: usize = 0;
    while k < sorted.len()
        invariant
            k <= sorted@.len(),
            r@.map_values(|p: String| p@) == capture_views(sorted@).take(k as int).map_values(|p: (i64, Seq<char>)| p.1),
        decreases sorted@.len() - k,
    {
        let ghost r0 = r@.map_values(|p: String| p@);
        let p = sorted[k].1.clone();
        assert(p@ == capture_views(sorted@)[k as int].1);
        r.push(p);
        assert(r@.map_values(|p: String| p@) =~= r0.push(capture_views(sorted@)[k as int].1));
        assert(capture_views(sorted@).take(k + 1).drop_last() =~= capture_views(sorted@).take(k as int));
        k = k + 1;
        assert(r@.map_values(|p: String| p@) =~= capture_views(sorted@).take(k as int).map_values(|p: (i64, Seq<char>)| p.1));
    }
    assert(capture_views(sorted@).take(sorted@.len() as int) =~= capture_views(sorted@));
    r
}

/// Accumulates play time in whole seconds, keeping the sub-second remainder
/// (in nanoseconds) so no time is lost to rounding.
#[derive(Debug, Clone, PartialEq, Eq)]
pub struct PlayClock {
    carry: u128,
}

impl View for PlayClock {
    type V = nat;

    closed spec fn view(&self) -> nat {
        self.carry as nat
    }
}

impl Default for PlayClock {
    fn default() -> (r: PlayClock)
        ensures
            r@ == 0,
    {
        PlayClock { carry: 0 }
    }
}

impl PlayClock {
    /// The remainder never reaches a whole second.
    pub closed spec fn wf(&self) -> bool {
        self.carry < 1_000_000_000
    }

    /// Add `dt_nanos` of running time; returns the whole seconds to commit,
    /// keeping the rest.
    pub fn add(&mut self, dt_nanos: u64) -> (whole: u64)
        requires
            old(self).wf(),
        ensures
            final(self).wf(),
            final(self)@ < 1_000_000_000,
            whole as nat * 1_000_000_000 + final(self)@ == old(self)@ + dt_nanos as nat,
    {
        let total: u128 = self.carry + dt_nanos as u128;
        let whole: u128 = total / 1_000_000_000;
        self.carry = total % 1_000_000_000;
        assert(whole < 0x1_0000_0000_0000_0000);
        whole as u64
    }

    /// Drop the pending remainder.
    pub fn reset(&mut self)
        ensures
            final(self).wf(),
            final(self)@ == 0,
    {
        self.carry = 0;
    }
}

/// Play time is conserved: what two additions commit plus what is carried
/// equals what was added.
pub proof fn law_play_time_is_conserved(c0: nat, a: nat, w1: nat, c1: nat, b: nat, w2: nat, c2: nat)
    requires
        w1 * 1_000_000_000 + c1 == c0 + a,
        w2 * 1_000_000_000 + c2 == c1 + b,
    ensures
        (w1 + w2) * 1_000_000_000 + c2 == c0 + a + b,
{
    assert((w1 + w2) * 1_000_000_000 == w1 * 1_000_000_000 + w2 * 1_000_000_000) by (nonlinear_arith);
}

/// The sum of a sequence of amounts.
pub open spec fn total(s: Seq<u64>) -> nat
    decreases s.len(),
{
    if s.len() == 0 {
        0
    } else {
        total(s.drop_last()) + s.last() as nat
    }
}

/// `clocks[k]` is a play clock before call `k` of a run of
/// `PlayClock::add(ds[k])` calls that returned `ws[k]`, `clocks[k + 1]` the
/// clock after it, as `add`'s contract says of one call; the run starts on a
/// clock just made by `default` or `reset` (nothing carried).
pub open spec fn add_run(clocks: Seq<PlayClock>, ds: Seq<u64>, ws: Seq<u64>) -> bool {
    &&& ws.len() == ds.len()
    &&& clocks.len() == ds.len() + 1
    &&& clocks[0]@ == 0
    &&& forall|k: int| 0 <= k < ds.len() ==> #[trigger] ws[k] as nat * 1_000_000_000 + clocks[k + 1]@ == clocks[k]@ + ds[k] as nat
    &&& forall|k: int| 0 <= k < clocks.len() ==> #[trigger] clocks[k]@ < 1_000_000_000
}

proof fn lemma_add_run_prefix(clocks: Seq<PlayClock>, ds: Seq<u64>, ws: Seq<u64>, k: int)
    requires
        add_run(clocks, ds, ws),
        0 <= k <= ds.len(),
    ensures
        total(ws.take(k)) * 1_000_000_000 + clocks[k]@ == total(ds.take(k)),
    decreases k,
{
    if k > 0 {
        lemma_add_run_prefix(clocks, ds, ws, k - 1);
        assert(ws.take(k).drop_last() =~= ws.take(k - 1));
        assert(ds.take(k).drop_last() =~= ds.take(k - 1));
        assert(ws[k - 1] as nat * 1_000_000_000 + clocks[k]@ == clocks[k - 1]@ + ds[k - 1] as nat);
        let a = total(ws.take(k - 1));
        let w = ws[k - 1] as nat;
        assert((a + w) * 1_000_000_000 == a * 1_000_000_000 + w * 1_000_000_000) by (nonlinear_arith);
    } else {
        assert(ws.take(0) =~= Seq::<u64>::empty());
        assert(ds.take(0) =~= Seq::<u64>::empty());
    }
}

/// From a clock with nothing carried, the whole seconds a series of
/// `PlayClock::add` calls returns add up to the whole seconds of all the
/// time added (`Duration::as_secs` of the sum), and the clock then carries
/// the rest: no sub-second remainder is ever lost.
pub proof fn law_play_clock_loses_nothing(clocks: Seq<PlayClock>, ds: Seq<u64>, ws: Seq<u64>)
    requires
        add_run(clocks, ds, ws),
    ensures
        total(ws) == total(ds) / 1_000_000_000,
        clocks.last()@ == total(ds) % 1_000_000_000,
{
    lemma_add_run_prefix(clocks, ds, ws, ds.len() as int);
    assert(ws.take(ds.len() as int) =~= ws);
    assert(ds.take(ds.len() as int) =~= ds);
    let w = total(ws);
    let c = clocks.last()@;
    let d = total(ds);
    assert(c == clocks[ds.len() as int]@);
    assert(w == d / 1_000_000_000 && c == d % 1_000_000_000) by (nonlinear_arith)
        requires
            w * 1_000_000_000 + c == d,
            c < 1_000_000_000,
    ;
}

/// Work the library thread can be asked to do.
#[derive(Debug, Clone, PartialEq, Eq)]
pub enum Job {
    /// Rescan a folder and re-read the individually added games.
    Scan { dir: String, extra: Vec<String> },
    /// Generate the thumbnail of one game, unless its file already exists.
    Thumb { id: String, rom: String },
}

/// What the library thread reports back.
#[derive(Debug, Clone, PartialEq, Eq)]
pub enum Update {
    Scanned { dir: String, entries: Vec<GameEntry>, error: Option<String> },
    /// The thumbnail PNG; `None` when generation failed.
    Thumb { id: String, path: Option<String> },
}

/// The worker's job queue: scans first, and a new scan drops the thumbnails
/// still queued (they belong to the folder being replaced).
#[derive(Debug)]
pub struct JobQueue {
    scans: Vec<Job>,
    thumbs: Vec<Job>,
    closed: bool,
}

impl View for JobQueue {
    type V = (Seq<Job>, Seq<Job>, bool);

    closed spec fn view(&self) -> (Seq<Job>, Seq<Job>, bool) {
        (self.scans@, self.thumbs@, self.closed)
    }
}

impl JobQueue {
    pub fn new() -> (q: JobQueue)
        ensures
            q@ == (Seq::<Job>::empty(), Seq::<Job>::empty(), false),
    {
        JobQueue { scans: Vec::new(), thumbs: Vec::new(), closed: false }
    }

    /// Queue a job: a scan joins the scans and drops every queued thumbnail;
    /// a thumbnail joins the thumbnails.
    pub fn push(&mut self, job: Job)
        ensures
            job is Scan ==> final(self)@ == (old(self)@.0.push(job), Seq::<Job>::empty(), old(self)@.2),
            job is Thumb ==> final(self)@ == (old(self)@.0, old(self)@.1.push(job), old(self)@.2),
    {
        match job {
            Job::Scan { .. } => {
                self.thumbs = Vec::new();
                self.scans.push(job);
            },
            Job::Thumb { .. } => {
                self.thumbs.push(job);
            },
        }
    }

    /// The next job: none once closed, else the oldest scan, else the oldest
    /// thumbnail.
    pub fn take(&mut self) -> (r: Option<Job>)
        ensures
            old(self)@.2 ==> r is None && final(self)@ == old(self)@,
            !old(self)@.2 && old(self)@.0.len() > 0 ==> r == Some(old(self)@.0[0])
                && final(self)@ == (old(self)@.0.drop_first(), old(self)@.1, false),
            !old(self)@.2 && old(self)@.0.len() == 0 && old(self)@.1.len() > 0 ==> r == Some(old(self)@.1[0])
                && final(self)@ == (old(self)@.0, old(self)@.1.drop_first(), false),
            !old(self)@.2 && old(self)@.0.len() == 0 && old(self)@.1.len() == 0 ==> r is None && final(self)@ == old(self)@,
    {
        if self.closed {
            return None;
        }
        if self.scans.len() > 0 {
            let j = self.scans.remove(0);
            assert(self.scans@ =~= old(self)@.0.drop_first());
            return Some(j);
        }
        if self.thumbs.len() > 0 {
            let j = self.thumbs.remove(0);
            assert(self.thumbs@ =~= old(self)@.1.drop_first());
            return Some(j);
        }
        None
    }

    /// Close the queue: every later `take` answers `None`.
    pub fn close(&mut self)
        ensures
            final(self)@ == (old(self)@.0, old(self)@.1, true),
    {
        self.closed = true;
    }

    /// Whether the queue was closed: an empty open queue is waited on, a
    /// closed one ends the worker.
    pub fn is_closed(&self) -> (r: bool)
        ensures
            r == self@.2,
    {
        self.closed
    }

    /// Queued (scans, thumbnails).
    pub fn queued(&self) -> (r: (usize, usize))
        ensures
            r.0 == self@.0.len(),
            r.1 == self@.1.len(),
    {
        (self.scans.len(), self.thumbs.len())
    }
}


/// What the preferences record of one game.
#[derive(Debug, Clone, Copy, PartialEq, Eq)]
pub struct GameStats {
    pub favorite: bool,
    /// Unix time of the last session, `None` when never played.
    pub last_played: Option<i64>,
    /// Cumulated play time, in seconds.
    pub play_seconds: u64,
}

impl Default for GameStats {
    fn default() -> (r: GameStats)
        ensures
            !r.favorite,
            r.last_played is None,
            r.play_seconds == 0,
    {
        GameStats { favorite: false, last_played: None, play_seconds: 0 }
    }
}

/// The record of the game `id`: the first one listed under that id.
pub open spec fn stats_of(games: Seq<(String, GameStats)>, id: Seq<char>) -> Option<GameStats>
    decreases games.len(),
{
    if games.len() == 0 {
        None
    } else if games[0].0@ == id {
        Some(games[0].1)
    } else {
        stats_of(games.drop_first(), id)
    }
}

pub open spec fn is_favorite(games: Seq<(String, GameStats)>, e: GameEntry) -> bool {
    stats_of(games, e.id@) matches Some(s) && s.favorite
}

pub open spec fn last_played(games: Seq<(String, GameStats)>, e: GameEntry) -> Option<i64> {
    match stats_of(games, e.id@) {
        Some(s) => s.last_played,
        None => None,
    }
}

/// Code-point order on strings (the order of `String`'s comparison, since
/// UTF-8 keeps it).
pub open spec fn lex_less(a: Seq<char>, b: Seq<char>) -> bool
    decreases a.len(),
{
    if a.len() == 0 {
        b.len() > 0
    } else if b.len() == 0 {
        false
    } else if a[0] != b[0] {
        (a[0] as u32) < (b[0] as u32)
    } else {
        lex_less(a.drop_first(), b.drop_first())
    }
}

/// `Option`'s order: `None` first, then by value.
pub open spec fn opt_less(a: Option<i64>, b: Option<i64>) -> bool {
    match (a, b) {
        (None, Some(_)) => true,
        (Some(x), Some(y)) => x < y,
        _ => false,
    }
}

/// The folded sort key of an entry.
pub open spec fn sort_key(e: GameEntry) -> Seq<char> {
    spec_normalize(entry_display_title(e))
}

/// `a` is shown strictly before `b`: favourites first, then by title, or by
/// last session (most recent first, never-played last, title breaking ties).
pub open spec fn shown_before(sort: SortMode, games: Seq<(String, GameStats)>, a: GameEntry, b: GameEntry) -> bool {
    let fa = is_favorite(games, a);
    let fb = is_favorite(games, b);
    if fa != fb {
        fa
    } else {
        match sort {
            SortMode::Title => lex_less(sort_key(a), sort_key(b)),
            SortMode::Recent => {
                let la = last_played(games, a);
                let lb = last_played(games, b);
                if la != lb {
                    opt_less(lb, la)
                } else {
                    lex_less(sort_key(a), sort_key(b))
                }
            },
        }
    }
}

/// `x` inserted into the sorted `s` after every element it does not come
/// strictly before (the stable insertion).
pub open spec fn insert_sorted(sort: SortMode, games: Seq<(String, GameStats)>, s: Seq<GameEntry>, x: GameEntry) -> Seq<GameEntry>
    decreases s.len(),
{
    if s.len() == 0 || !shown_before(sort, games, x, s.last()) {
        s.push(x)
    } else {
        insert_sorted(sort, games, s.drop_last(), x).push(s.last())
    }
}

/// The stable sort of `s` by `shown_before`.
pub open spec fn sorted_for_display(sort: SortMode, games: Seq<(String, GameStats)>, s: Seq<GameEntry>) -> Seq<GameEntry>
    decreases s.len(),
{
    if s.len() == 0 {
        s
    } else {
        insert_sorted(sort, games, sorted_for_display(sort, games, s.drop_last()), s.last())
    }
}

/// The entries matching a folded query, in order.
pub open spec fn matching(s: Seq<GameEntry>, q: Seq<char>) -> Seq<GameEntry>
    decreases s.len(),
{
    if s.len() == 0 {
        s
    } else if spec_matches(s.last(), q) {
        matching(s.drop_last(), q).push(s.last())
    } else {
        matching(s.drop_last(), q)
    }
}

/// What the library screen shows: the entries matching the folded query,
/// favourites pinned ahead, each group in the chosen order.
pub open spec fn arranged(entries: Seq<GameEntry>, query: Seq<char>, sort: SortMode, games: Seq<(String, GameStats)>) -> Seq<GameEntry> {
    sorted_for_display(sort, games, matching(entries, spec_normalize(query)))
}

/// No favourite comes after a game that is not one.
pub open spec fn favorites_first(games: Seq<(String, GameStats)>, s: Seq<GameEntry>) -> bool {
    forall|i: int, k: int| 0 <= i < k < s.len() && #[trigger] is_favorite(games, s[k]) ==> #[trigger] is_favorite(games, s[i])
}

proof fn lemma_insert_sorted_at(sort: SortMode, games: Seq<(String, GameStats)>, s: Seq<GameEntry>, x: GameEntry) -> (j: int)
    ensures
        0 <= j <= s.len(),
        insert_sorted(sort, games, s, x) == s.take(j).push(x) + s.skip(j),
        forall|k: int| j <= k < s.len() ==> shown_before(sort, games, x, #[trigger] s[k]),
        j == 0 || !shown_before(sort, games, x, s[j - 1]),
    decreases s.len(),
{
    if s.len() == 0 || !shown_before(sort, games, x, s.last()) {
        assert(s.take(s.len() as int) =~= s);
        assert(s.skip(s.len() as int) =~= Seq::<GameEntry>::empty());
        s.len() as int
    } else {
        let t = s.drop_last();
        let j = lemma_insert_sorted_at(sort, games, t, x);
        assert forall|k: int| j <= k < s.len() implies shown_before(sort, games, x, #[trigger] s[k]) by {
            if k < t.len() {
                assert(s[k] == t[k]);
            }
        }
        if j > 0 {
            assert(s[j - 1] == t[j - 1]);
        }
        assert(insert_sorted(sort, games, s, x) =~= s.take(j).push(x) + s.skip(j));
        j
    }
}

proof fn lemma_insert_keeps_favorites_first(sort: SortMode, games: Seq<(String, GameStats)>, s: Seq<GameEntry>, x: GameEntry)
    requires
        favorites_first(games, s),
    ensures
        favorites_first(games, insert_sorted(sort, games, s, x)),
        insert_sorted(sort, games, s, x).len() == s.len() + 1,
{
    let j = lemma_insert_sorted_at(sort, games, s, x);
    let r = insert_sorted(sort, games, s, x);
    assert(r.len() == s.len() + 1);
    assert forall|i: int, k: int| 0 <= i < k < r.len() && #[trigger] is_favorite(games, r[k]) implies #[trigger] is_favorite(games, r[i]) by {
        let si = if i < j { i } else { i - 1 };
        let sk = if k < j { k } else { k - 1 };
        if i != j && k != j {
            assert(r[i] == s[si]);
            assert(r[k] == s[sk]);
            assert(si < sk);
        } else if k == j {
            assert(r[k] == x);
            assert(r[i] == s[i]);
            assert(!shown_before(sort, games, x, s[j - 1]));
            assert(is_favorite(games, s[j - 1]));
            if i < j - 1 {
                assert(is_favorite(games, s[j - 1]) ==> is_favorite(games, s[i]));
            }
        } else {
            assert(r[i] == x);
            assert(r[k] == s[k - 1]);
            assert(shown_before(sort, games, x, s[k - 1]));
        }
    }
}

proof fn lemma_sorted_favorites_first(sort: SortMode, games: Seq<(String, GameStats)>, s: Seq<GameEntry>)
    ensures
        favorites_first(games, sorted_for_display(sort, games, s)),
        sorted_for_display(sort, games, s).len() == s.len(),
    decreases s.len(),
{
    if s.len() > 0 {
        lemma_sorted_favorites_first(sort, games, s.drop_last());
        lemma_insert_keeps_favorites_first(sort, games, sorted_for_display(sort, games, s.drop_last()), s.last());
    }
}

/// Favourites are pinned ahead of every other game: in what the library
/// screen shows, whatever the query and the sort, no favourite comes after
/// a game that is not one.
pub proof fn law_favorites_are_pinned_ahead(
    entries: Seq<GameEntry>,
    query: Seq<char>,
    sort: SortMode,
    games: Seq<(String, GameStats)>,
)
    ensures
        favorites_first(games, arranged(entries, query, sort, games)),
{
    lemma_sorted_favorites_first(sort, games, matching(entries, spec_normalize(query)));
}

fn lex_less_exec(a: &Vec<char>, b: &Vec<char>) -> (r: bool)
    ensures
        r == lex_less(a@, b@),
{
    let mut i: usize = 0;
    assert(a@.skip(0) =~= a@);
    assert(b@.skip(0) =~= b@);
    while i < a.len() && i < b.len() && a[i] == b[i]
        invariant
            i <= a@.len(),
            i <= b@.len(),
            lex_less(a@, b@) == lex_less(a@.skip(i as int), b@.skip(i as int)),
        decreases a@.len() - i,
    {
        proof {
            assert(a@.skip(i as int).drop_first() =~= a@.skip(i + 1));
            assert(b@.skip(i as int).drop_first() =~= b@.skip(i + 1));
        }
        i = i + 1;
    }
    proof {
        assert(a@.skip(i as int).len() == a@.len() - i);
        assert(b@.skip(i as int).len() == b@.len() - i);
        if i < a@.len() && i < b@.len() {
            assert(a@.skip(i as int)[0] == a@[i as int]);
            assert(b@.skip(i as int)[0] == b@[i as int]);
        }
    }
    if i == a.len() {
        i < b.len()
    } else if i == b.len() {
        false
    } else {
        (a[i] as u32) < (b[i] as u32)
    }
}

fn stats_lookup(games: &[(String, GameStats)], id: &str) -> (r: Option<GameStats>)
    ensures
        r == stats_of(games@, id@),
{
    let mut i: usize = 0;
    assert(games@.skip(0) =~= games@);
    while i < games.len()
        invariant
            i <= games@.len(),
            stats_of(games@, id@) == stats_of(games@.skip(i as int), id@),
        decreases games@.len() - i,
    {
        proof {
            let t = games@.skip(i as int);
            assert(t.drop_first() =~= games@.skip(i + 1));
            assert(t[0] == games@[i as int]);
        }
        if str_eq(games[i].0.as_str(), id) {
            return Some(games[i].1);
        }
        i = i + 1;
    }
    None
}

/// Order the library for display: only the entries matching `query`,
/// favourites first, then everything else, both according to `sort`. The
/// folded sort key of each entry is built once.
pub fn arrange<'a>(entries: &'a [GameEntry], query: &str, sort: SortMode, games: &[(String, GameStats)]) -> (r: Vec<&'a GameEntry>)
    ensures
        r@.len() == arranged(entries@, query@, sort, games@).len(),
        forall|k: int| 0 <= k < r@.len() ==> *r@[k] == arranged(entries@, query@, sort, games@)[k],
{
    let q = normalize(query);
    let mut picked: Vec<usize> = Vec::new();
    let mut keys: Vec<Vec<char>> = Vec::new();
    let mut favs: Vec<bool> = Vec::new();
    let mut lasts: Vec<Option<i64>> = Vec::new();
    let ghost mut f: Seq<GameEntry> = Seq::empty();
    let mut i: usize = 0;
    while i < entries.len()
        invariant
            i <= entries@.len(),
            f == matching(entries@.take(i as int), q@),
            picked@.len() == f.len(),
            keys@.len() == f.len(),
            favs@.len() == f.len(),
            lasts@.len() == f.len(),
            forall|k: int| 0 <= k < f.len() ==> (#[trigger] picked@[k]) < entries@.len() && entries@[picked@[k] as int] == f[k],
            forall|k: int| 0 <= k < f.len() ==> (#[trigger] keys@[k])@ == sort_key(f[k]),
            forall|k: int| 0 <= k < f.len() ==> #[trigger] favs@[k] == is_favorite(games@, f[k]),
            forall|k: int| 0 <= k < f.len() ==> #[trigger] lasts@[k] == last_played(games@, f[k]),
        decreases entries@.len() - i,
    {
        proof {
            assert(entries@.take(i + 1).drop_last() =~= entries@.take(i as int));
            assert(entries@.take(i + 1).last() == entries@[i as int]);
        }
        let e = &entries[i];
        if matches(e, q.as_str()) {
            picked.push(i);
            let k = normalize(e.display_title().as_str());
            keys.push(chars_of(k.as_str()));
            let st = stats_lookup(games, e.id.as_str());
            let fav = match st {
                Some(s) => s.favorite,
                None => false,
            };
            let last = match st {
                Some(s) => s.last_played,
                None => None,
            };
            favs.push(fav);
            lasts.push(last);
            proof {
                f = f.push(*e);
            }
        }
        i = i + 1;
    }
    proof {
        assert(entries@.take(entries@.len() as int) =~= entries@);
    }
    let n = picked.len();
    let mut order: Vec<usize> = Vec::new();
    let mut m: usize = 0;
    while m < n
        invariant
            n == f.len(),
            f == matching(entries@, q@),
            picked@.len() == n,
            keys@.len() == n,
            favs@.len() == n,
            lasts@.len() == n,
            forall|k: int| 0 <= k < n ==> (#[trigger] keys@[k])@ == sort_key(f[k]),
            forall|k: int| 0 <= k < n ==> #[trigger] favs@[k] == is_favorite(games@, f[k]),
            forall|k: int| 0 <= k < n ==> #[trigger] lasts@[k] == last_played(games@, f[k]),
            m <= n,
            order@.len() == m,
            forall|k: int| 0 <= k < m ==> (#[trigger] order@[k]) < m,
            order@.map_values(|p: usize| f[p as int]) == sorted_for_display(sort, games@, f.take(m as int)),
        decreases n - m,
    {
        let ghost s = order@.map_values(|p: usize| f[p as int]);
        let ghost x = f[m as int];
        proof {
            assert(f.take(m + 1).drop_last() =~= f.take(m as int));
            assert(f.take(m + 1).last() == x);
            assert(s.take(s.len() as int) =~= s);
            assert(s.skip(s.len() as int) =~= Seq::<GameEntry>::empty());
        }
        let mut j: usize = order.len();
        loop
            invariant
                n == f.len(),
                keys@.len() == n,
                favs@.len() == n,
                lasts@.len() == n,
                forall|k: int| 0 <= k < n ==> (#[trigger] keys@[k])@ == sort_key(f[k]),
                forall|k: int| 0 <= k < n ==> #[trigger] favs@[k] == is_favorite(games@, f[k]),
                forall|k: int| 0 <= k < n ==> #[trigger] lasts@[k] == last_played(games@, f[k]),
                m < n,
                x == f[m as int],
                order@.len() == m,
                forall|k: int| 0 <= k < m ==> (#[trigger] order@[k]) < m,
                s == order@.map_values(|p: usize| f[p as int]),
                j <= m,
                insert_sorted(sort, games@, s, x) == insert_sorted(sort, games@, s.take(j as int), x) + s.skip(j as int),
            ensures
                j <= m,
                insert_sorted(sort, games@, s, x) == s.take(j as int).push(x) + s.skip(j as int),
            decreases j,
        {
            if j == 0 {
                proof {
                    assert(s.take(0) =~= Seq::<GameEntry>::empty());
                }
                break;
            }
            let p = order[j - 1];
            let before = if favs[m] != favs[p] {
                favs[m]
            } else {
                match sort {
                    SortMode::Title => lex_less_exec(&keys[m], &keys[p]),
                    SortMode::Recent => {
                        if lasts[m] != lasts[p] {
                            match (lasts[p], lasts[m]) {
                                (None, Some(_)) => true,
                                (Some(b), Some(a)) => b < a,
                                _ => false,
                            }
                        } else {
                            lex_less_exec(&keys[m], &keys[p])
                        }
                    },
                }
            };
            proof {
                assert(s[j - 1] == f[p as int]);
                assert(before == shown_before(sort, games@, x, s[j - 1]));
                let tj = s.take(j as int);
                assert(tj.last() == s[j - 1]);
                assert(tj.drop_last() =~= s.take(j - 1));
            }
            if !before {
                break;
            }
            proof {
                let tj = s.take(j as int);
                assert(s.skip(j - 1) =~= seq![s[j - 1]] + s.skip(j as int));
                assert(insert_sorted(sort, games@, s.take(j - 1), x).push(s[j - 1]) + s.skip(j as int)
                    =~= insert_sorted(sort, games@, s.take(j - 1), x) + s.skip(j - 1));
            }
            j = j - 1;
        }
        order.insert(j, m);
        proof {
            let s2 = order@.map_values(|p: usize| f[p as int]);
            assert(s2 =~= s.take(j as int).push(x) + s.skip(j as int));
        }
        m = m + 1;
    }
    proof {
        assert(f.take(n as int) =~= f);
    }
    let mut r: Vec<&'a GameEntry> = Vec::new();
    let mut k: usize = 0;
    while k < n
        invariant
            n == f.len(),
            order@.len() == n,
            picked@.len() == n,
            forall|t: int| 0 <= t < n ==> (#[trigger] order@[t]) < n,
            forall|t: int| 0 <= t < n ==> (#[trigger] picked@[t]) < entries@.len() && entries@[picked@[t] as int] == f[t],
            k <= n,
            r@.len() == k,
            forall|t: int| 0 <= t < k ==> *r@[t] == f[order@[t] as int],
        decreases n - k,
    {
        let p = order[k];
        r.push(&entries[picked[p]]);
        k = k + 1;
    }
    proof {
        let out = order@.map_values(|p: usize| f[p as int]);
        assert forall|t: int| 0 <= t < r@.len() implies *r@[t] == arranged(entries@, query@, sort, games@)[t] by {
            assert(out[t] == f[order@[t] as int]);
        }
    }
    r
}

} // verus!
