//! Where a game's sidecar files live: battery SRAM (`.srm`), manual save
//! states (`.state`, `.stateN`), the automatic session state (`.resume`) and
//! the cheats (`.cheats.json`).
//!
//! Beside the ROM by default (`/roms/game.sfc` -> `/roms/game.srm`); in one
//! configured folder for every game otherwise, named after the game's id so
//! two homonymous ROM files never share a save. A write goes to the CLI
//! override (SRAM only), else the configured folder, else beside the ROM. A
//! read walks the id-named file of the folder, the file named after the ROM
//! in that folder, the same two in the previous folder, then the file beside
//! the ROM; with no folder configured, the previous folder is read only when
//! it holds a strictly newer sidecar than the one beside the ROM.
//!
//! Paths are strings; what `std::path` computes on them (extension, stem,
//! join) is named below and called, not rebuilt.

use crate::cheats::CHEATS_EXT;
use crate::text::{chars_of, dec, decimal, push_chars, push_str, str_eq};
use vstd::prelude::*;

verus! {

/// Extension of the battery SRAM file.
pub const SRM_EXT: &'static str = "srm";

/// Extension of the automatic session state.
pub const RESUME_EXT: &'static str = "resume";

/// Number of manual save-state slots.
pub const SLOT_COUNT: u8 = 10;

/// `Path::with_extension(p, ext)`, as text.
pub uninterp spec fn path_with_extension(p: Seq<char>, ext: Seq<char>) -> Seq<char>;

/// `Path::file_stem(p)`, as text.
pub uninterp spec fn path_file_stem(p: Seq<char>) -> Option<Seq<char>>;

/// `Path::join(dir, name)`, as text.
pub uninterp spec fn path_join(dir: Seq<char>, name: Seq<char>) -> Seq<char>;

/// An extension `Path::with_extension` accepts: it panics on one that holds
/// a path separator.
pub open spec fn ext_ok(ext: Seq<char>) -> bool {
    forall|k: int| 0 <= k < ext.len() ==> #[trigger] ext[k] != '/' && ext[k] != '\\'
}

/// A decimal number holds digits only.
proof fn lemma_dec_ext_ok(n: nat)
    ensures
        ext_ok(dec(n)),
    decreases n,
{
    if n >= 10 {
        lemma_dec_ext_ok(n / 10);
    }
}

/// Every extension a `GamePaths` reads or writes is one
/// `Path::with_extension` accepts.
proof fn lemma_fixed_exts_ok(slot: u8)
    ensures
        ext_ok("srm"@),
        ext_ok("resume"@),
        ext_ok("cheats.json"@),
        ext_ok(state_ext_text(slot)),
{
    reveal_strlit("srm");
    reveal_strlit("resume");
    reveal_strlit("cheats.json");
    reveal_strlit("state");
    lemma_dec_ext_ok(slot as nat);
    let a = "state"@;
    let b = dec(slot as nat);
    assert forall|k: int| 0 <= k < (a + b).len() implies #[trigger] (a + b)[k] != '/' && (a + b)[k] != '\\' by {
        if k >= a.len() {
            assert((a + b)[k] == b[k - a.len()]);
        }
    }
}

/// Calls `std::path::Path::with_extension`, which panics on an extension
/// holding a separator; the result is named, not stated.
#[verifier::external_body]
fn with_extension(p: &str, ext: &str) -> (r: String)
    requires
        ext_ok(ext@),
    ensures
        r@ == path_with_extension(p@, ext@),
{
    std::path::Path::new(p).with_extension(ext).to_string_lossy().into_owned()
}

/// Calls `std::path::Path::file_stem`; the result is named, not stated.
#[verifier::external_body]
pub(crate) fn file_stem(p: &str) -> (r: Option<String>)
    ensures
        r matches Some(s) ==> path_file_stem(p@) == Some(s@),
        r is None ==> path_file_stem(p@) is None,
{
    std::path::Path::new(p).file_stem().map(|s| s.to_string_lossy().into_owned())
}

/// Calls `std::path::Path::join`; the result is named, not stated.
#[verifier::external_body]
pub(crate) fn join(dir: &str, name: &str) -> (r: String)
    ensures
        r@ == path_join(dir@, name@),
{
    std::path::Path::new(dir).join(name).to_string_lossy().into_owned()
}

/// `Path::extension(p)`, as text.
pub uninterp spec fn path_extension(p: Seq<char>) -> Option<Seq<char>>;

/// `Path::file_name(p)`, as text.
pub uninterp spec fn path_file_name(p: Seq<char>) -> Option<Seq<char>>;

/// `Path::parent(p)`, as text.
pub uninterp spec fn path_parent(p: Seq<char>) -> Option<Seq<char>>;

/// Calls `std::path::Path::extension`; the result is named, not stated.
#[verifier::external_body]
pub(crate) fn extension(p: &str) -> (r: Option<String>)
    ensures
        r matches Some(s) ==> path_extension(p@) == Some(s@),
        r is None ==> path_extension(p@) is None,
{
    std::path::Path::new(p).extension().map(|s| s.to_string_lossy().into_owned())
}

/// Calls `std::path::Path::file_name`; the result is named, not stated.
#[verifier::external_body]
pub(crate) fn file_name(p: &str) -> (r: Option<String>)
    ensures
        r matches Some(s) ==> path_file_name(p@) == Some(s@),
        r is None ==> path_file_name(p@) is None,
{
    std::path::Path::new(p).file_name().map(|s| s.to_string_lossy().into_owned())
}

/// Calls `std::path::Path::parent`; the result is named, not stated.
#[verifier::external_body]
pub(crate) fn parent(p: &str) -> (r: Option<String>)
    ensures
        r matches Some(s) ==> path_parent(p@) == Some(s@),
        r is None ==> path_parent(p@) is None,
{
    std::path::Path::new(p).parent().map(|s| s.to_string_lossy().into_owned())
}

/// The extension of a manual save state: `state` for slot 0, `stateN` else.
pub open spec fn state_ext_text(slot: u8) -> Seq<char> {
    if slot == 0 {
        "state"@
    } else {
        "state"@ + crate::text::dec(slot as nat)
    }
}

/// The extension of a manual save state's slot.
pub fn state_ext(slot: u8) -> (r: String)
    ensures
        r@ == state_ext_text(slot),
{
    let mut r = String::from_str("state");
    if slot != 0 {
        let d = decimal(slot as u64);
        push_chars(&mut r, d.as_slice());
    }
    r
}

/// An id that can be one path component: not empty, no leading dot, no
/// separator.
pub open spec fn id_usable(id: Seq<char>) -> bool {
    &&& id.len() > 0
    &&& id[0] != '.'
    &&& !id.contains('/')
    &&& !id.contains('\\')
}

fn id_file_name(id: &str, ext: &str) -> (r: Option<String>)
    ensures
        id_usable(id@) <==> r is Some,
        r matches Some(s) ==> s@ == id@ + "."@ + ext@,
{
    let v = chars_of(id);
    if v.len() == 0 || v[0] == '.' {
        return None;
    }
    proof {
        reveal_strlit(".");
    }
    let mut i: usize = 0;
    while i < v.len()
        invariant
            v@ == id@,
            i <= v@.len(),
            forall|k: int| 0 <= k < i ==> v@[k] != '/' && v@[k] != '\\',
        decreases v@.len() - i,
    {
        if v[i] == '/' || v[i] == '\\' {
            assert(v@[i as int] == '/' || v@[i as int] == '\\');
            assert(id@.contains(v@[i as int]));
            return None;
        }
        i = i + 1;
    }
    let mut r = String::new();
    push_chars(&mut r, v.as_slice());
    push_str(&mut r, ".");
    push_str(&mut r, ext);
    Some(r)
}

/// `<dir>/<ROM file stem>.<ext>`: the name a shared folder used before
/// sidecars were keyed on the game id; a ROM path with no file stem keeps the
/// beside-the-ROM name.
pub open spec fn spec_legacy_sidecar(rom: Seq<char>, dir: Seq<char>, ext: Seq<char>) -> Seq<char> {
    match path_file_stem(rom) {
        Some(stem) => path_join(dir, stem + "."@ + ext),
        None => path_with_extension(rom, ext),
    }
}

/// The write target of a sidecar: in `dir` under the game's id when a folder
/// is configured (under the ROM's stem when the id cannot name a file), else
/// beside the ROM.
pub open spec fn spec_sidecar(rom: Seq<char>, dir: Option<Seq<char>>, id: Seq<char>, ext: Seq<char>) -> Seq<char> {
    match dir {
        Some(d) => if id_usable(id) {
            path_join(d, id + "."@ + ext)
        } else {
            spec_legacy_sidecar(rom, d, ext)
        },
        None => path_with_extension(rom, ext),
    }
}

/// `<dir>/<ROM file stem>.<ext>`.
pub fn legacy_sidecar(rom: &str, dir: &str, ext: &str) -> (r: String)
    requires
        ext_ok(ext@),
    ensures
        r@ == spec_legacy_sidecar(rom@, dir@, ext@),
{
    match file_stem(rom) {
        Some(stem) => {
            let mut name = stem;
            push_str(&mut name, ".");
            push_str(&mut name, ext);
            join(dir, name.as_str())
        },
        None => with_extension(rom, ext),
    }
}

pub open spec fn opt_view(o: Option<&str>) -> Option<Seq<char>> {
    match o {
        Some(s) => Some(s@),
        None => None,
    }
}

/// Sidecar path for the game `id` loaded from `rom`, with extension `ext`.
pub fn sidecar(rom: &str, dir: Option<&str>, id: &str, ext: &str) -> (r: String)
    requires
        ext_ok(ext@),
    ensures
        r@ == spec_sidecar(rom@, opt_view(dir), id@, ext@),
{
    match dir {
        Some(d) => match id_file_name(id, ext) {
            Some(name) => join(d, name.as_str()),
            None => legacy_sidecar(rom, d, ext),
        },
        None => with_extension(rom, ext),
    }
}

/// What the file system says of one path: whether it is a regular file, and
/// its modification time in nanoseconds since the epoch when it exists and
/// the platform reports one.
#[derive(Debug, Clone)]
pub struct Entry {
    pub path: String,
    pub is_file: bool,
    pub mtime: Option<u128>,
}

/// The state of the paths a read looked at. A path with no entry does not
/// exist.
#[derive(Debug, Clone)]
pub struct Disk {
    pub entries: Vec<Entry>,
}

/// The first entry for `p`.
pub open spec fn lookup(d: Seq<Entry>, p: Seq<char>) -> Option<Entry>
    decreases d.len(),
{
    if d.len() == 0 {
        None
    } else if d[0].path@ == p {
        Some(d[0])
    } else {
        lookup(d.drop_first(), p)
    }
}

pub open spec fn disk_is_file(d: Seq<Entry>, p: Seq<char>) -> bool {
    lookup(d, p) matches Some(e) && e.is_file
}

pub open spec fn disk_mtime(d: Seq<Entry>, p: Seq<char>) -> Option<u128> {
    match lookup(d, p) {
        Some(e) => e.mtime,
        None => None,
    }
}

/// `a` is strictly more recent than `b`; an absent `b` counts as older, an
/// unreadable `a` answers no.
pub open spec fn spec_newer(d: Seq<Entry>, a: Seq<char>, b: Seq<char>) -> bool {
    match (disk_mtime(d, a), disk_mtime(d, b)) {
        (Some(x), Some(y)) => x > y,
        (Some(_), None) => true,
        _ => false,
    }
}

/// The first existing sidecar of this game inside `dir`: the id-named file,
/// else the one named after the ROM file.
pub open spec fn spec_found_in(d: Seq<Entry>, rom: Seq<char>, dir: Option<Seq<char>>, id: Seq<char>, ext: Seq<char>) -> Option<Seq<char>> {
    match dir {
        None => None,
        Some(dd) => {
            let by_id = spec_sidecar(rom, Some(dd), id, ext);
            let by_stem = spec_legacy_sidecar(rom, dd, ext);
            if disk_is_file(d, by_id) {
                Some(by_id)
            } else if disk_is_file(d, by_stem) {
                Some(by_stem)
            } else {
                None
            }
        },
    }
}

/// Where a sidecar is read from (see the module documentation); when nothing
/// exists anywhere, the write target.
pub open spec fn spec_read_sidecar(
    d: Seq<Entry>,
    rom: Seq<char>,
    dir: Option<Seq<char>>,
    previous: Option<Seq<char>>,
    id: Seq<char>,
    ext: Seq<char>,
) -> Seq<char> {
    let target = spec_sidecar(rom, dir, id, ext);
    if dir is Some {
        if disk_is_file(d, target) {
            target
        } else if spec_found_in(d, rom, dir, id, ext) is Some {
            spec_found_in(d, rom, dir, id, ext)->0
        } else if spec_found_in(d, rom, previous, id, ext) is Some {
            spec_found_in(d, rom, previous, id, ext)->0
        } else if disk_is_file(d, path_with_extension(rom, ext)) {
            path_with_extension(rom, ext)
        } else {
            target
        }
    } else {
        match spec_found_in(d, rom, previous, id, ext) {
            Some(lb) => if spec_newer(d, lb, target) {
                lb
            } else {
                target
            },
            None => target,
        }
    }
}

impl Disk {
    fn find(&self, p: &str) -> (r: Option<&Entry>)
        ensures
            r matches Some(e) ==> lookup(self.entries@, p@) == Some(*e),
            r is None ==> lookup(self.entries@, p@) is None,
    {
        let mut i: usize = 0;
        assert(self.entries@.skip(0) =~= self.entries@);
        while i < self.entries.len()
            invariant
                i <= self.entries@.len(),
                lookup(self.entries@, p@) == lookup(self.entries@.skip(i as int), p@),
            decreases self.entries@.len() - i,
        {
            proof {
                let t = self.entries@.skip(i as int);
                assert(t.drop_first() =~= self.entries@.skip(i + 1));
                assert(t[0] == self.entries@[i as int]);
            }
            if str_eq(self.entries[i].path.as_str(), p) {
                return Some(&self.entries[i]);
            }
            i = i + 1;
        }
        None
    }

    /// `p` exists and is a regular file.
    pub fn is_file(&self, p: &str) -> (r: bool)
        ensures
            r == disk_is_file(self.entries@, p@),
    {
        match self.find(p) {
            Some(e) => e.is_file,
            None => false,
        }
    }

    fn mtime(&self, p: &str) -> (r: Option<u128>)
        ensures
            r == disk_mtime(self.entries@, p@),
    {
        match self.find(p) {
            Some(e) => e.mtime,
            None => None,
        }
    }

    fn newer(&self, a: &str, b: &str) -> (r: bool)
        ensures
            r == spec_newer(self.entries@, a@, b@),
    {
        match (self.mtime(a), self.mtime(b)) {
            (Some(x), Some(y)) => x > y,
            (Some(_), None) => true,
            _ => false,
        }
    }
}

fn found_in(disk: &Disk, rom: &str, dir: Option<&str>, id: &str, ext: &str) -> (r: Option<String>)
    requires
        ext_ok(ext@),
    ensures
        r matches Some(s) ==> spec_found_in(disk.entries@, rom@, opt_view(dir), id@, ext@) == Some(s@),
        r is None ==> spec_found_in(disk.entries@, rom@, opt_view(dir), id@, ext@) is None,
{
    let dd = match dir {
        Some(dd) => dd,
        None => {
            return None;
        },
    };
    let by_id = sidecar(rom, Some(dd), id, ext);
    if disk.is_file(by_id.as_str()) {
        return Some(by_id);
    }
    let by_stem = legacy_sidecar(rom, dd, ext);
    if disk.is_file(by_stem.as_str()) {
        Some(by_stem)
    } else {
        None
    }
}

/// Where that sidecar is read from, given what the file system holds at
/// the paths `read_candidates` lists.
pub fn read_sidecar(rom: &str, dir: Option<&str>, previous: Option<&str>, id: &str, ext: &str, disk: &Disk) -> (r: String)
    requires
        ext_ok(ext@),
    ensures
        r@ == spec_read_sidecar(disk.entries@, rom@, opt_view(dir), opt_view(previous), id@, ext@),
{
    let target = sidecar(rom, dir, id, ext);
    if dir.is_some() {
        if disk.is_file(target.as_str()) {
            return target;
        }
        if let Some(found) = found_in(disk, rom, dir, id, ext) {
            return found;
        }
        if let Some(found) = found_in(disk, rom, previous, id, ext) {
            return found;
        }
        let beside = with_extension(rom, ext);
        if disk.is_file(beside.as_str()) {
            return beside;
        }
        return target;
    }
    match found_in(disk, rom, previous, id, ext) {
        Some(left_behind) => if disk.newer(left_behind.as_str(), target.as_str()) {
            left_behind
        } else {
            target
        },
        None => target,
    }
}

/// Every path `read_sidecar` may look at, in the order it looks.
pub open spec fn spec_read_candidates(rom: Seq<char>, dir: Option<Seq<char>>, previous: Option<Seq<char>>, id: Seq<char>, ext: Seq<char>) -> Seq<Seq<char>> {
    let own = match dir {
        Some(d) => seq![spec_sidecar(rom, dir, id, ext), spec_legacy_sidecar(rom, d, ext)],
        None => seq![spec_sidecar(rom, dir, id, ext)],
    };
    let prev = match previous {
        Some(p) => seq![spec_sidecar(rom, previous, id, ext), spec_legacy_sidecar(rom, p, ext)],
        None => Seq::empty(),
    };
    own + prev + seq![path_with_extension(rom, ext)]
}

/// The paths whose state `read_sidecar` needs, in the order it looks.
pub fn read_candidates(rom: &str, dir: Option<&str>, previous: Option<&str>, id: &str, ext: &str) -> (r: Vec<String>)
    requires
        ext_ok(ext@),
    ensures
        r@.map_values(|s: String| s@) == spec_read_candidates(rom@, opt_view(dir), opt_view(previous), id@, ext@),
{
    let mut r: Vec<String> = Vec::new();
    r.push(sidecar(rom, dir, id, ext));
    if let Some(d) = dir {
        r.push(legacy_sidecar(rom, d, ext));
    }
    if let Some(p) = previous {
        r.push(sidecar(rom, previous, id, ext));
        r.push(legacy_sidecar(rom, p, ext));
    }
    r.push(with_extension(rom, ext));
    assert(r@.map_values(|s: String| s@) =~= spec_read_candidates(rom@, opt_view(dir), opt_view(previous), id@, ext@));
    r
}

/// What a `GamePaths` holds, as text.
pub struct PathsModel {
    pub rom: Seq<char>,
    pub id: Seq<char>,
    pub dir: Option<Seq<char>>,
    pub previous_dir: Option<Seq<char>>,
    pub srm_override: Option<Seq<char>>,
}

pub open spec fn str_opt(o: Option<String>) -> Option<Seq<char>> {
    match o {
        Some(s) => Some(s@),
        None => None,
    }
}

/// Every sidecar file of the game currently loaded, fixed when the cartridge
/// is loaded so that a later change of the save folder cannot retarget the
/// running game's files.
#[derive(Debug, Clone, PartialEq, Eq)]
pub struct GamePaths {
    rom: String,
    id: String,
    dir: Option<String>,
    previous_dir: Option<String>,
    srm_override: Option<String>,
}

impl View for GamePaths {
    type V = PathsModel;

    closed spec fn view(&self) -> PathsModel {
        PathsModel {
            rom: self.rom@,
            id: self.id@,
            dir: str_opt(self.dir),
            previous_dir: str_opt(self.previous_dir),
            srm_override: str_opt(self.srm_override),
        }
    }
}

fn as_opt_str(o: &Option<String>) -> (r: Option<&str>)
    ensures
        opt_view(r) == str_opt(*o),
{
    match o {
        Some(s) => Some(s.as_str()),
        None => None,
    }
}

impl Default for GamePaths {
    fn default() -> (r: GamePaths)
        ensures
            r@.rom.len() == 0,
            r@.id.len() == 0,
            r@.dir is None,
            r@.previous_dir is None,
            r@.srm_override is None,
    {
        GamePaths { rom: String::new(), id: String::new(), dir: None, previous_dir: None, srm_override: None }
    }
}

impl GamePaths {
    pub fn new(rom: &str, id: &str, dir: Option<String>, srm_override: Option<String>) -> (r: Self)
        ensures
            r@.rom == rom@,
            r@.id == id@,
            r@.dir == str_opt(dir),
            r@.previous_dir is None,
            r@.srm_override == str_opt(srm_override),
    {
        GamePaths {
            rom: String::from_str(rom),
            id: String::from_str(id),
            dir,
            previous_dir: None,
            srm_override,
        }
    }

    /// Add the read-only fallback folder.
    pub fn with_previous_dir(self, previous: Option<String>) -> (r: Self)
        ensures
            r@.rom == self@.rom,
            r@.id == self@.id,
            r@.dir == self@.dir,
            r@.previous_dir == str_opt(previous),
            r@.srm_override == self@.srm_override,
    {
        GamePaths { previous_dir: previous, ..self }
    }

    /// Folder this session writes into, `None` for beside the ROM.
    pub fn dir(&self) -> (r: Option<&str>)
        ensures
            opt_view(r) == self@.dir,
    {
        as_opt_str(&self.dir)
    }

    /// The game id this session's sidecars are named after.
    pub fn id(&self) -> (r: &str)
        ensures
            r@ == self@.id,
    {
        self.id.as_str()
    }

    fn write_path(&self, ext: &str) -> (r: String)
        requires
            ext_ok(ext@),
        ensures
            r@ == spec_sidecar(self@.rom, self@.dir, self@.id, ext@),
    {
        sidecar(self.rom.as_str(), self.dir(), self.id.as_str(), ext)
    }

    fn read_path(&self, ext: &str, disk: &Disk) -> (r: String)
        requires
            ext_ok(ext@),
        ensures
            r@ == spec_read_sidecar(disk.entries@, self@.rom, self@.dir, self@.previous_dir, self@.id, ext@),
    {
        read_sidecar(self.rom.as_str(), self.dir(), as_opt_str(&self.previous_dir), self.id.as_str(), ext, disk)
    }

    /// The paths a read of `ext` looks at.
    pub fn read_candidates(&self, ext: &str) -> (r: Vec<String>)
        requires
            ext_ok(ext@),
        ensures
            r@.map_values(|s: String| s@) == spec_read_candidates(self@.rom, self@.dir, self@.previous_dir, self@.id, ext@),
    {
        read_candidates(self.rom.as_str(), self.dir(), as_opt_str(&self.previous_dir), self.id.as_str(), ext)
    }

    /// Battery SRAM, write target: the CLI override, else the sidecar.
    pub fn srm_write(&self) -> (r: String)
        ensures
            r@ == (match self@.srm_override {
                Some(p) => p,
                None => spec_sidecar(self@.rom, self@.dir, self@.id, "srm"@),
            }),
    {
        match &self.srm_override {
            Some(path) => path.clone(),
            None => {
                proof {
                    lemma_fixed_exts_ok(0);
                }
                self.write_path(SRM_EXT)
            },
        }
    }

    /// Battery SRAM, read target: the CLI override, else the read walk.
    pub fn srm_read(&self, disk: &Disk) -> (r: String)
        ensures
            r@ == (match self@.srm_override {
                Some(p) => p,
                None => spec_read_sidecar(disk.entries@, self@.rom, self@.dir, self@.previous_dir, self@.id, "srm"@),
            }),
    {
        match &self.srm_override {
            Some(path) => path.clone(),
            None => {
                proof {
                    lemma_fixed_exts_ok(0);
                }
                self.read_path(SRM_EXT, disk)
            },
        }
    }

    /// Manual save state of `slot`, write target.
    pub fn state_write(&self, slot: u8) -> (r: String)
        ensures
            r@ == spec_sidecar(self@.rom, self@.dir, self@.id, state_ext_text(slot)),
    {
        let e = state_ext(slot);
        proof {
            lemma_fixed_exts_ok(slot);
        }
        self.write_path(e.as_str())
    }

    /// Manual save state of `slot`, read target.
    pub fn state_read(&self, slot: u8, disk: &Disk) -> (r: String)
        ensures
            r@ == spec_read_sidecar(disk.entries@, self@.rom, self@.dir, self@.previous_dir, self@.id, state_ext_text(slot)),
    {
        let e = state_ext(slot);
        proof {
            lemma_fixed_exts_ok(slot);
        }
        self.read_path(e.as_str(), disk)
    }

    /// Automatic session state, write target.
    pub fn resume_write(&self) -> (r: String)
        ensures
            r@ == spec_sidecar(self@.rom, self@.dir, self@.id, "resume"@),
    {
        proof {
            lemma_fixed_exts_ok(0);
        }
        self.write_path(RESUME_EXT)
    }

    /// Automatic session state, read target.
    pub fn resume_read(&self, disk: &Disk) -> (r: String)
        ensures
            r@ == spec_read_sidecar(disk.entries@, self@.rom, self@.dir, self@.previous_dir, self@.id, "resume"@),
    {
        proof {
            lemma_fixed_exts_ok(0);
        }
        self.read_path(RESUME_EXT, disk)
    }

    /// Cheats found for this game, write target; never the CLI override.
    pub fn cheats_write(&self) -> (r: String)
        ensures
            r@ == spec_sidecar(self@.rom, self@.dir, self@.id, "cheats.json"@),
    {
        proof {
            lemma_fixed_exts_ok(0);
        }
        self.write_path(CHEATS_EXT)
    }

    /// Cheats found for this game, read target.
    pub fn cheats_read(&self, disk: &Disk) -> (r: String)
        ensures
            r@ == spec_read_sidecar(disk.entries@, self@.rom, self@.dir, self@.previous_dir, self@.id, "cheats.json"@),
    {
        proof {
            lemma_fixed_exts_ok(0);
        }
        self.read_path(CHEATS_EXT, disk)
    }
}

/// Nothing is ever written into the previous folder: every write target of a
/// session is the same whatever previous folder it carries.
pub proof fn law_previous_dir_is_never_written(a: GamePaths, b: GamePaths, ext: Seq<char>)
    requires
        a@.rom == b@.rom,
        a@.id == b@.id,
        a@.dir == b@.dir,
    ensures
        spec_sidecar(a@.rom, a@.dir, a@.id, ext) == spec_sidecar(b@.rom, b@.dir, b@.id, ext),
{
}

/// Two games with different usable ids never share a sidecar name inside a
/// shared folder, whatever their ROM files are called.
pub proof fn law_ids_keep_games_apart(rom_a: Seq<char>, rom_b: Seq<char>, dir: Seq<char>, id_a: Seq<char>, id_b: Seq<char>, ext: Seq<char>)
    requires
        id_usable(id_a),
        id_usable(id_b),
        id_a != id_b,
    ensures
        spec_sidecar(rom_a, Some(dir), id_a, ext) == path_join(dir, id_a + "."@ + ext),
        spec_sidecar(rom_b, Some(dir), id_b, ext) == path_join(dir, id_b + "."@ + ext),
        id_a + "."@ + ext != id_b + "."@ + ext,
{
    reveal_strlit(".");
    let na = id_a + "."@ + ext;
    let nb = id_b + "."@ + ext;
    if na == nb {
        assert(na.len() == id_a.len() + 1 + ext.len());
        assert(nb.len() == id_b.len() + 1 + ext.len());
        assert(id_a.len() == id_b.len());
        assert forall|k: int| 0 <= k < id_a.len() implies id_a[k] == id_b[k] by {
            assert(na[k] == id_a[k]);
            assert(nb[k] == id_b[k]);
        }
        assert(id_a =~= id_b);
    }
}

/// `<stem>_<n>.<ext>`.
pub open spec fn suffixed_name(stem: Seq<char>, ext: Seq<char>, n: nat) -> Seq<char> {
    stem + "_"@ + dec(n) + "."@ + ext
}

/// `<stem>.<ext>` for the first try, `<stem>_<n>.<ext>` after it.
pub open spec fn numbered_name(stem: Seq<char>, ext: Seq<char>, n: nat) -> Seq<char> {
    if n < 2 {
        stem + "."@ + ext
    } else {
        suffixed_name(stem, ext, n)
    }
}

/// The first of the names numbered `n` to 999 that does not exist in `dir`.
pub open spec fn first_free(d: Seq<Entry>, dir: Seq<char>, stem: Seq<char>, ext: Seq<char>, n: nat) -> Option<Seq<char>>
    decreases 1000 - n,
{
    if n >= 1000 {
        None
    } else if lookup(d, path_join(dir, numbered_name(stem, ext, n))) is None {
        Some(path_join(dir, numbered_name(stem, ext, n)))
    } else {
        first_free(d, dir, stem, ext, n + 1)
    }
}

/// `dir/<stem>.<ext>` when it does not exist, else the first free
/// `dir/<stem>_<n>.<ext>` for `n` from 2 to 999, else one numbered by the
/// process id: two captures within one second never overwrite each other.
pub open spec fn spec_unique_path(d: Seq<Entry>, dir: Seq<char>, stem: Seq<char>, ext: Seq<char>, pid: u32) -> Seq<char> {
    match first_free(d, dir, stem, ext, 1) {
        Some(p) => p,
        None => path_join(dir, suffixed_name(stem, ext, pid as nat)),
    }
}

proof fn lemma_first_free_is_free(d: Seq<Entry>, dir: Seq<char>, stem: Seq<char>, ext: Seq<char>, n: nat)
    ensures
        first_free(d, dir, stem, ext, n) matches Some(p) ==> lookup(d, p) is None,
    decreases 1000 - n,
{
    if n < 1000 && lookup(d, path_join(dir, numbered_name(stem, ext, n))) is Some {
        lemma_first_free_is_free(d, dir, stem, ext, n + 1);
    }
}

/// A capture never overwrites a file: while any of the numbered names is
/// free, the path chosen is one that does not exist.
pub proof fn law_a_capture_never_overwrites(d: Seq<Entry>, dir: Seq<char>, stem: Seq<char>, ext: Seq<char>, pid: u32)
    requires
        exists|n: nat| 1 <= n < 1000 && #[trigger] lookup(d, path_join(dir, numbered_name(stem, ext, n))) is None,
    ensures
        lookup(d, spec_unique_path(d, dir, stem, ext, pid)) is None,
{
    lemma_first_free_is_free(d, dir, stem, ext, 1);
    let n = choose|n: nat| 1 <= n < 1000 && #[trigger] lookup(d, path_join(dir, numbered_name(stem, ext, n))) is None;
    lemma_first_free_found(d, dir, stem, ext, 1, n);
}

proof fn lemma_first_free_found(d: Seq<Entry>, dir: Seq<char>, stem: Seq<char>, ext: Seq<char>, i: nat, n: nat)
    requires
        i <= n < 1000,
        lookup(d, path_join(dir, numbered_name(stem, ext, n))) is None,
    ensures
        first_free(d, dir, stem, ext, i) is Some,
    decreases n - i,
{
    if i < n && lookup(d, path_join(dir, numbered_name(stem, ext, i))) is Some {
        lemma_first_free_found(d, dir, stem, ext, i + 1, n);
    }
}

fn suffixed(stem: &str, ext: &str, n: u64) -> (r: String)
    ensures
        r@ == suffixed_name(stem@, ext@, n as nat),
{
    let mut r = String::from_str(stem);
    push_str(&mut r, "_");
    let d = decimal(n);
    push_chars(&mut r, d.as_slice());
    push_str(&mut r, ".");
    push_str(&mut r, ext);
    proof {
        reveal_strlit("_");
        reveal_strlit(".");
    }
    assert(r@ =~= suffixed_name(stem@, ext@, n as nat));
    r
}

fn numbered(stem: &str, ext: &str, n: u64) -> (r: String)
    ensures
        r@ == numbered_name(stem@, ext@, n as nat),
{
    let mut r = String::from_str(stem);
    if n >= 2 {
        push_str(&mut r, "_");
        let d = decimal(n);
        push_chars(&mut r, d.as_slice());
    }
    push_str(&mut r, ".");
    push_str(&mut r, ext);
    proof {
        reveal_strlit("_");
        reveal_strlit(".");
    }
    assert(r@ =~= numbered_name(stem@, ext@, n as nat));
    r
}

/// A path in `dir` for a new capture named `stem` (see `spec_unique_path`),
/// given what the directory holds; `pid` numbers the last resort.
pub fn unique_path(dir: &str, stem: &str, ext: &str, disk: &Disk, pid: u32) -> (r: String)
    ensures
        r@ == spec_unique_path(disk.entries@, dir@, stem@, ext@, pid),
{
    let mut n: u64 = 1;
    while n < 1000
        invariant
            1 <= n <= 1000,
            first_free(disk.entries@, dir@, stem@, ext@, 1) == first_free(disk.entries@, dir@, stem@, ext@, n as nat),
        decreases 1000 - n,
    {
        let name = numbered(stem, ext, n);
        let p = join(dir, name.as_str());
        if disk.find(p.as_str()).is_none() {
            return p;
        }
        n = n + 1;
    }
    let name = suffixed(stem, ext, pid as u64);
    join(dir, name.as_str())
}

} // verus!
