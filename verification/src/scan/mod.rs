//! Library scanning: the decisions of a crawl of `<root>/<system>/...`.
//!
//! The crawl itself (directory walk, file metadata, reading archives and
//! playlists, the index transaction) belongs to the application; the
//! library decides what a crawl means:
//!
//! - which subfolder serves which system (case-insensitive names),
//! - which files are ROMs of a system and which zips are opened,
//! - which discs a `.m3u` playlist takes over,
//! - for every item, whether the index row is unchanged, refreshed or new
//!   ([`ScanPass`]), and which rows vanished from disk,
//! - and the names, sort keys and quick keys written to the index.

pub mod archive;
pub mod hash;

use vstd::prelude::*;

use crate::paths::{extension_exec, file_stem, file_stem_exec};
use crate::text::{
    append_strings, ascii_lower_seq, chars_eq, chars_eq_str, chars_of, chars_view, copy_range,
    lines_of, opt_view, push_all, push_str, split_lines, starts_with, starts_with_str, string_of,
    strings_view, to_ascii_lower_chars, to_lowercase, trim, trim_chars, unicode_lowercase,
};

verus! {

/// Counts of one scan of a library root.
pub struct ScanSummary {
    pub added: u64,
    pub removed: u64,
    pub unchanged: u64,
}

// ---------------------------------------------------------------------
// Numbers as text
// ---------------------------------------------------------------------

/// The decimal digit character for `d` (`0..=9`).
pub open spec fn digit_char(d: int) -> char {
    (d + 48) as char
}

/// The decimal text of `n`, without leading zeros.
pub open spec fn nat_text(n: nat) -> Seq<char>
    decreases n,
{
    if n < 10 {
        seq![digit_char(n as int)]
    } else {
        nat_text(n / 10).push(digit_char((n % 10) as int))
    }
}

/// `i64`'s `Display`: a `-` for negative values, then the digits.
pub open spec fn int_text(v: int) -> Seq<char> {
    if v < 0 {
        seq!['-'] + nat_text((-v) as nat)
    } else {
        nat_text(v as nat)
    }
}

/// Appends the decimal text of `n`.
pub fn push_u64(out: &mut Vec<char>, n: u64)
    ensures
        final(out)@ == old(out)@ + nat_text(n as nat),
    decreases n,
{
    if n >= 10 {
        push_u64(out, n / 10);
    }
    let d = (n % 10) as u8;
    out.push((d + 48u8) as char);
    proof {
        if n >= 10 {
            assert(out@ =~= old(out)@ + nat_text(n as nat));
        } else {
            assert(out@ =~= old(out)@ + nat_text(n as nat));
        }
    }
}

/// Appends the decimal text of `v`.
pub fn push_i64(out: &mut Vec<char>, v: i64)
    ensures
        final(out)@ == old(out)@ + int_text(v as int),
{
    if v < 0 {
        out.push('-');
        let m = (0i128 - v as i128) as u64;
        push_u64(out, m);
        proof {
            assert(out@ =~= old(out)@ + int_text(v as int));
        }
    } else {
        push_u64(out, v as u64);
    }
}

/// The quick key of a file: `"<size>:<mtime>"`. A changed key is what
/// makes a rescan refresh an index row.
pub fn quick_key(size: i64, mtime: i64) -> (r: String)
    ensures
        r@ == int_text(size as int) + seq![':'] + int_text(mtime as int),
{
    let mut out: Vec<char> = Vec::new();
    push_i64(&mut out, size);
    out.push(':');
    push_i64(&mut out, mtime);
    proof {
        assert(out@ =~= int_text(size as int) + seq![':'] + int_text(mtime as int));
    }
    string_of(&out)
}

// ---------------------------------------------------------------------
// Names
// ---------------------------------------------------------------------

/// The name a game is indexed under: the file stem, or the whole path when
/// it has none. "Super Mario World (USA).sfc" gives "Super Mario World (USA)".
pub open spec fn display_name_spec(path: Seq<char>) -> Seq<char> {
    match file_stem(path) {
        Some(s) => s,
        None => path,
    }
}

pub fn display_name(path: &str) -> (r: String)
    ensures
        r@ == display_name_spec(path@),
{
    let pc = chars_of(path);
    match file_stem_exec(pc.as_slice()) {
        Some(s) => string_of(&s),
        None => string_of(&pc),
    }
}

/// The name of the game an item stands for: a zip with several matching
/// entries names each game after its entry; everything else (a plain file,
/// a single-entry zip, an opaque archive) after the file on disk.
pub open spec fn game_name_spec(path: Seq<char>, in_archive: Option<Seq<char>>, multi_entry: bool) -> Seq<char> {
    match in_archive {
        Some(inner) => if multi_entry {
            display_name_spec(inner)
        } else {
            display_name_spec(path)
        },
        None => display_name_spec(path),
    }
}

pub fn game_name(path: &str, in_archive: &Option<String>, multi_entry: bool) -> (r: String)
    ensures
        r@ == game_name_spec(path@, opt_view(*in_archive), multi_entry),
{
    match in_archive {
        Some(inner) => if multi_entry {
            display_name(inner.as_str())
        } else {
            display_name(path)
        },
        None => display_name(path),
    }
}

/// The sort key of a game name: its lowercase form without one leading
/// English article ("the ", "a ", "an ", tried in that order).
pub open spec fn sort_key_spec(name: Seq<char>) -> Seq<char> {
    let l = unicode_lowercase(name);
    if starts_with(l, "the "@) {
        l.skip("the "@.len() as int)
    } else if starts_with(l, "a "@) {
        l.skip("a "@.len() as int)
    } else if starts_with(l, "an "@) {
        l.skip("an "@.len() as int)
    } else {
        l
    }
}

pub fn sort_key(name: &str) -> (r: String)
    ensures
        r@ == sort_key_spec(name@),
{
    let lower = to_lowercase(name);
    let l = chars_of(lower.as_str());
    let n = l.len();
    let the = chars_of("the ");
    let a = chars_of("a ");
    let an = chars_of("an ");
    if starts_with_str(l.as_slice(), "the ") {
        let r = copy_range(l.as_slice(), the.len(), n);
        proof {
            assert(r@ =~= l@.skip(the@.len() as int));
        }
        string_of(&r)
    } else if starts_with_str(l.as_slice(), "a ") {
        let r = copy_range(l.as_slice(), a.len(), n);
        proof {
            assert(r@ =~= l@.skip(a@.len() as int));
        }
        string_of(&r)
    } else if starts_with_str(l.as_slice(), "an ") {
        let r = copy_range(l.as_slice(), an.len(), n);
        proof {
            assert(r@ =~= l@.skip(an@.len() as int));
        }
        string_of(&r)
    } else {
        lower
    }
}

/// `s` with every `\` turned into `/`.
pub open spec fn forward_slashes(s: Seq<char>) -> Seq<char> {
    s.map_values(|c: char| if c == '\\' { '/' } else { c })
}

pub fn forward_slashes_exec(s: &[char]) -> (r: Vec<char>)
    ensures
        r@ == forward_slashes(s@),
{
    let mut r: Vec<char> = Vec::new();
    let mut i: usize = 0;
    while i < s.len()
        invariant
            i <= s@.len(),
            r@ == forward_slashes(s@.take(i as int)),
        decreases s.len() - i,
    {
        let c = s[i];
        r.push(if c == '\\' { '/' } else { c });
        i += 1;
        proof {
            assert(r@ =~= forward_slashes(s@.take(i as int)));
        }
    }
    proof {
        assert(s@.take(s@.len() as int) =~= s@);
    }
    r
}

/// The index's form of a path relative to the library root: `/`-separated
/// whatever the host's separator.
pub fn index_rel_path(rel: &str) -> (r: String)
    ensures
        r@ == forward_slashes(rel@),
{
    let c = chars_of(rel);
    string_of(&forward_slashes_exec(c.as_slice()))
}

/// Whether a progress event is due after item `done` (0-based) of
/// `total`: every 200 items, and after the last one.
pub fn progress_due(done: u64, total: u64) -> (b: bool)
    ensures
        b == (done % 200 == 0 || done + 1 == total),
{
    done % 200 == 0 || (done < u64::MAX && done + 1 == total)
}

// ---------------------------------------------------------------------
// System folders
// ---------------------------------------------------------------------

/// The last subfolder whose ASCII-lowercase name equals the slug's; a later
/// folder with the same lowercase name replaces an earlier one.
pub open spec fn system_dir_for(names: Seq<Seq<char>>, slug: Seq<char>) -> Option<int>
    decreases names.len(),
{
    if names.len() == 0 {
        None
    } else if ascii_lower_seq(names.last()) == ascii_lower_seq(slug) {
        Some(names.len() - 1)
    } else {
        system_dir_for(names.drop_last(), slug)
    }
}

/// Index of the subfolder of the library root that holds `slug`'s games.
pub fn find_system_dir(names: &[String], slug: &str) -> (r: Option<usize>)
    ensures
        match r {
            Some(i) => system_dir_for(strings_view(names@), slug@) == Some(i as int),
            None => system_dir_for(strings_view(names@), slug@) is None,
        },
{
    let sl = to_ascii_lower_chars(chars_of(slug).as_slice());
    let mut i = names.len();
    proof {
        assert(strings_view(names@).take(i as int) =~= strings_view(names@));
    }
    while i > 0
        invariant
            i <= names@.len(),
            sl@ == ascii_lower_seq(slug@),
            system_dir_for(strings_view(names@), slug@) == system_dir_for(
                strings_view(names@).take(i as int),
                slug@,
            ),
        decreases i,
    {
        let nl = to_ascii_lower_chars(chars_of(names[i - 1].as_str()).as_slice());
        proof {
            assert(strings_view(names@).take(i as int).drop_last() =~= strings_view(names@).take(
                i - 1,
            ));
            assert(strings_view(names@).take(i as int).last() == names@[i - 1]@);
        }
        if chars_eq(nl.as_slice(), sl.as_slice()) {
            return Some(i - 1);
        }
        i -= 1;
    }
    None
}

/// Joins names with `", "`.
pub open spec fn comma_join(names: Seq<Seq<char>>) -> Seq<char>
    decreases names.len(),
{
    if names.len() == 0 {
        Seq::empty()
    } else if names.len() == 1 {
        names[0]
    } else {
        comma_join(names.drop_last()) + ", "@ + names.last()
    }
}

/// The context of the warning raised when no subfolder of the root is a
/// system folder.
pub open spec fn no_system_dirs_context(root: Seq<char>, names: Seq<Seq<char>>) -> Seq<char> {
    if names.len() == 0 {
        "no subfolders under "@ + root
    } else {
        "no subfolder of "@ + root + " matches a system slug; found: "@ + comma_join(names)
    }
}

pub fn no_system_dirs_message(root: &str, names: &[String]) -> (r: String)
    ensures
        r@ == no_system_dirs_context(root@, strings_view(names@)),
{
    let mut out: Vec<char> = Vec::new();
    if names.len() == 0 {
        push_str(&mut out, "no subfolders under ");
        push_str(&mut out, root);
        return string_of(&out);
    }
    push_str(&mut out, "no subfolder of ");
    push_str(&mut out, root);
    push_str(&mut out, " matches a system slug; found: ");
    let ghost head = out@;
    let mut i: usize = 0;
    while i < names.len()
        invariant
            i <= names@.len(),
            names@.len() > 0,
            out@ == head + comma_join(strings_view(names@).take(i as int)),
        decreases names.len() - i,
    {
        let ghost before = out@;
        if i > 0 {
            push_str(&mut out, ", ");
        }
        push_str(&mut out, names[i].as_str());
        proof {
            let t = strings_view(names@).take(i + 1);
            assert(t.drop_last() =~= strings_view(names@).take(i as int));
            assert(t.last() == names@[i as int]@);
            if i == 0 {
                assert(t.len() == 1);
                assert(comma_join(strings_view(names@).take(0)) =~= Seq::<char>::empty());
                assert(out@ =~= head + comma_join(t));
            } else {
                assert(out@ =~= head + comma_join(t));
            }
        }
        i += 1;
    }
    proof {
        assert(strings_view(names@).take(names@.len() as int) =~= strings_view(names@));
    }
    string_of(&out)
}

// ---------------------------------------------------------------------
// Files of a system
// ---------------------------------------------------------------------

/// What the crawl does with a file found under a system folder.
#[derive(Debug, Clone, Copy, PartialEq, Eq, Structural)]
pub enum FileKind {
    /// Not one of the system's extensions.
    Skip,
    /// Indexed as one game.
    Plain,
    /// A zip to open and list.
    Zip,
}

/// The kind of a file from its lowercase extension.
pub open spec fn file_kind_spec(ext: Seq<char>, extensions: Seq<Seq<char>>, enumerate_zips: bool) -> FileKind {
    if !extensions.contains(ext) {
        FileKind::Skip
    } else if ext == "zip"@ && enumerate_zips {
        FileKind::Zip
    } else {
        FileKind::Plain
    }
}

/// The lowercase extension of a path (`""` when it has none).
pub open spec fn lower_extension(path: Seq<char>) -> Seq<char> {
    match crate::paths::extension(path) {
        Some(e) => ascii_lower_seq(e),
        None => Seq::empty(),
    }
}

pub fn lower_extension_exec(path: &str) -> (r: Vec<char>)
    ensures
        r@ == lower_extension(path@),
{
    let pc = chars_of(path);
    match extension_exec(pc.as_slice()) {
        Some(e) => to_ascii_lower_chars(e.as_slice()),
        None => {
            let r: Vec<char> = Vec::new();
            proof {
                assert(r@ =~= Seq::<char>::empty());
            }
            r
        },
    }
}

/// Whether `v` holds a string equal to `s`.
pub fn contains_chars_in(v: &[String], s: &[char]) -> (b: bool)
    ensures
        b == strings_view(v@).contains(s@),
{
    let mut i: usize = 0;
    while i < v.len()
        invariant
            i <= v@.len(),
            forall|k: int| 0 <= k < i ==> v@[k]@ != s@,
        decreases v.len() - i,
    {
        if chars_eq(chars_of(v[i].as_str()).as_slice(), s) {
            proof {
                assert(strings_view(v@)[i as int] == s@);
            }
            return true;
        }
        i += 1;
    }
    proof {
        if strings_view(v@).contains(s@) {
            let k = choose|k: int| 0 <= k < strings_view(v@).len() && strings_view(v@)[k] == s@;
            assert(v@[k]@ == s@);
        }
    }
    false
}

/// What to do with the file at `path` in a system with `extensions`.
pub fn file_kind(path: &str, extensions: &[String], enumerate_zips: bool) -> (k: FileKind)
    ensures
        k == file_kind_spec(lower_extension(path@), strings_view(extensions@), enumerate_zips),
{
    let ext = lower_extension_exec(path);
    if !contains_chars_in(extensions, ext.as_slice()) {
        FileKind::Skip
    } else if chars_eq_str(ext.as_slice(), "zip") && enumerate_zips {
        FileKind::Zip
    } else {
        FileKind::Plain
    }
}

/// One scan target: a file, or one entry inside a zip. `multi_entry` is
/// set when the zip had more than one matching entry.
pub struct ScanItem {
    pub sys_idx: usize,
    pub path: String,
    pub in_archive: Option<String>,
    pub multi_entry: bool,
}

/// The items a zip stands for: one per matching entry when its listing
/// succeeded and matched something, otherwise the zip itself.
pub open spec fn zip_items_spec(listing: Option<Seq<Seq<char>>>) -> Seq<(Option<Seq<char>>, bool)> {
    match listing {
        Some(names) => if names.len() > 0 {
            names.map_values(|n: Seq<char>| (Some(n), names.len() > 1))
        } else {
            seq![(None, false)]
        },
        None => seq![(None, false)],
    }
}

pub open spec fn item_entries(items: Seq<ScanItem>) -> Seq<(Option<Seq<char>>, bool)> {
    items.map_values(|it: ScanItem| (opt_view(it.in_archive), it.multi_entry))
}

/// The items for a zip at `path` of system `sys_idx`, from the names its
/// listing matched (`None` when the zip could not be read).
pub fn zip_items(sys_idx: usize, path: &str, listing: Option<Vec<String>>) -> (r: Vec<ScanItem>)
    ensures
        item_entries(r@) == zip_items_spec(
            match listing {
                Some(v) => Some(strings_view(v@)),
                None => None,
            },
        ),
        forall|i: int| 0 <= i < r@.len() ==> (#[trigger] r@[i]).sys_idx == sys_idx && r@[i].path@
            == path@,
{
    let mut r: Vec<ScanItem> = Vec::new();
    match listing {
        Some(names) => {
            if names.len() > 0 {
                let multi = names.len() > 1;
                let mut i: usize = 0;
                while i < names.len()
                    invariant
                        i <= names@.len(),
                        multi == (names@.len() > 1),
                        r@.len() == i,
                        forall|k: int| 0 <= k < i ==> (#[trigger] r@[k]).sys_idx == sys_idx
                            && r@[k].path@ == path@ && opt_view(r@[k].in_archive) == Some(
                            names@[k]@,
                        ) && r@[k].multi_entry == multi,
                    decreases names.len() - i,
                {
                    let p = string_of(&chars_of(path));
                    let inner = string_of(&chars_of(names[i].as_str()));
                    r.push(ScanItem { sys_idx, path: p, in_archive: Some(inner), multi_entry: multi });
                    i += 1;
                }
                proof {
                    assert(item_entries(r@) =~= strings_view(names@).map_values(
                        |n: Seq<char>| (Some(n), strings_view(names@).len() > 1),
                    ));
                }
                return r;
            }
        },
        None => {},
    }
    r.push(ScanItem { sys_idx, path: string_of(&chars_of(path)), in_archive: None, multi_entry: false });
    proof {
        assert(item_entries(r@) =~= seq![(None::<Seq<char>>, false)]);
    }
    r
}

// ---------------------------------------------------------------------
// Playlists
// ---------------------------------------------------------------------

/// The disc references of a `.m3u` playlist's lines: each line trimmed,
/// blank lines and `#` comments skipped, `\` read as `/`.
pub open spec fn m3u_refs(lines: Seq<Seq<char>>) -> Seq<Seq<char>>
    decreases lines.len(),
{
    if lines.len() == 0 {
        Seq::empty()
    } else {
        let t = trim(lines.last());
        m3u_refs(lines.drop_last()) + if t.len() == 0 || t[0] == '#' {
            Seq::empty()
        } else {
            seq![forward_slashes(t)]
        }
    }
}

/// The disc paths, relative to the playlist's directory, that a playlist
/// with `contents` names.
pub fn m3u_disc_refs(contents: &str) -> (r: Vec<String>)
    ensures
        strings_view(r@) == m3u_refs(split_lines(contents@)),
{
    let cc = chars_of(contents);
    let lines = lines_of(cc.as_slice());
    let mut out: Vec<String> = Vec::new();
    let mut i: usize = 0;
    while i < lines.len()
        invariant
            i <= lines@.len(),
            chars_view(lines@) == split_lines(contents@),
            strings_view(out@) == m3u_refs(chars_view(lines@).take(i as int)),
        decreases lines.len() - i,
    {
        let t = trim_chars(lines[i].as_slice());
        let ghost prev = out@;
        proof {
            let ls = chars_view(lines@).take(i + 1);
            assert(ls.drop_last() =~= chars_view(lines@).take(i as int));
            assert(ls.last() == lines@[i as int]@);
        }
        if t.len() == 0 || t[0] == '#' {
            proof {
                assert(strings_view(out@) + Seq::<Seq<char>>::empty() =~= strings_view(out@));
            }
        } else {
            let f = forward_slashes_exec(t.as_slice());
            out.push(string_of(&f));
            proof {
                assert(strings_view(out@) =~= strings_view(prev) + seq![forward_slashes(t@)]);
            }
        }
        i += 1;
    }
    proof {
        assert(chars_view(lines@).take(lines@.len() as int) =~= chars_view(lines@));
    }
    out
}

// ---------------------------------------------------------------------
// The index pass
// ---------------------------------------------------------------------

/// One row of the file index: identity `(rel_path, in_archive)` and quick
/// key.
pub struct IndexedFile {
    pub rel_path: String,
    pub in_archive: Option<String>,
    pub quick_key: String,
}

/// The view of an index row.
pub open spec fn row_view(f: IndexedFile) -> (Seq<char>, Option<Seq<char>>, Seq<char>) {
    (f.rel_path@, opt_view(f.in_archive), f.quick_key@)
}

pub open spec fn rows_view(v: Seq<IndexedFile>) -> Seq<(Seq<char>, Option<Seq<char>>, Seq<char>)> {
    v.map_values(|f: IndexedFile| row_view(f))
}

/// The identity of a row view.
pub open spec fn key_of(r: (Seq<char>, Option<Seq<char>>, Seq<char>)) -> (Seq<char>, Option<Seq<char>>) {
    (r.0, r.1)
}

/// The first row at or after `i` with identity `key`.
pub open spec fn find_key(rows: Seq<(Seq<char>, Option<Seq<char>>, Seq<char>)>, key: (Seq<char>, Option<Seq<char>>), i: int) -> Option<int>
    decreases rows.len() - i,
{
    if i < 0 || i >= rows.len() {
        None
    } else if key_of(rows[i]) == key {
        Some(i)
    } else {
        find_key(rows, key, i + 1)
    }
}

/// What the index does for one observed item.
#[derive(Debug, Clone, Copy, PartialEq, Eq, Structural)]
pub enum ItemAction {
    /// The row exists with the same quick key.
    Unchanged,
    /// The row exists with another quick key: its hashes are cleared and
    /// the key updated.
    Refresh,
    /// No row: a game and a file row are inserted.
    Insert,
}

/// The state of an index pass.
pub struct PassView {
    pub rows: Seq<(Seq<char>, Option<Seq<char>>, Seq<char>)>,
    pub seen: Seq<(Seq<char>, Option<Seq<char>>)>,
    pub added: nat,
    pub unchanged: nat,
    pub refreshed: nat,
}

/// The action for an observed item.
pub open spec fn action_of(p: PassView, item: (Seq<char>, Option<Seq<char>>, Seq<char>)) -> ItemAction {
    match find_key(p.rows, key_of(item), 0) {
        Some(i) => if p.rows[i].2 == item.2 {
            ItemAction::Unchanged
        } else {
            ItemAction::Refresh
        },
        None => ItemAction::Insert,
    }
}

/// The pass after observing an item.
pub open spec fn step_view(p: PassView, item: (Seq<char>, Option<Seq<char>>, Seq<char>)) -> PassView {
    let seen = p.seen.push(key_of(item));
    match find_key(p.rows, key_of(item), 0) {
        Some(i) => if p.rows[i].2 == item.2 {
            PassView { seen, unchanged: p.unchanged + 1, ..p }
        } else {
            PassView { rows: p.rows.update(i, item), seen, refreshed: p.refreshed + 1, ..p }
        },
        None => PassView { rows: p.rows.push(item), seen, added: p.added + 1, ..p },
    }
}

/// The pass that starts from the index rows `rows`.
pub open spec fn initial_pass(rows: Seq<(Seq<char>, Option<Seq<char>>, Seq<char>)>) -> PassView {
    PassView { rows, seen: Seq::empty(), added: 0, unchanged: 0, refreshed: 0 }
}

/// The pass after observing `items` in order.
pub open spec fn run_pass(p: PassView, items: Seq<(Seq<char>, Option<Seq<char>>, Seq<char>)>) -> PassView
    decreases items.len(),
{
    if items.len() == 0 {
        p
    } else {
        step_view(run_pass(p, items.drop_last()), items.last())
    }
}

/// Indices, in order, of the first `n` rows whose identity was never seen.
pub open spec fn stale_upto(p: PassView, n: int) -> Seq<int>
    decreases n,
{
    if n <= 0 {
        Seq::empty()
    } else {
        stale_upto(p, n - 1) + if !p.seen.contains(key_of(p.rows[n - 1])) {
            seq![n - 1]
        } else {
            Seq::empty()
        }
    }
}

/// The rows whose files vanished from disk.
pub open spec fn stale(p: PassView) -> Seq<int> {
    stale_upto(p, p.rows.len() as int)
}

/// One scan's walk over the file index of a library: fed every observed
/// item in crawl order, it says what to write for each and, at the end,
/// which rows to delete.
pub struct ScanPass {
    rows: Vec<IndexedFile>,
    seen: Vec<(String, Option<String>)>,
    added: u64,
    unchanged: u64,
    refreshed: u64,
}

impl View for ScanPass {
    type V = PassView;

    closed spec fn view(&self) -> PassView {
        PassView {
            rows: rows_view(self.rows@),
            seen: self.seen@.map_values(
                |k: (String, Option<String>)| (k.0@, opt_view(k.1)),
            ),
            added: self.added as nat,
            unchanged: self.unchanged as nat,
            refreshed: self.refreshed as nat,
        }
    }
}

/// Whether two optional strings hold the same text.
fn opt_eq(a: &Option<String>, b: &Option<String>) -> (r: bool)
    ensures
        r == (opt_view(*a) == opt_view(*b)),
{
    match (a, b) {
        (Some(x), Some(y)) => chars_eq(chars_of(x.as_str()).as_slice(), chars_of(y.as_str()).as_slice()),
        (None, None) => true,
        _ => false,
    }
}

fn copy_opt(a: &Option<String>) -> (r: Option<String>)
    ensures
        opt_view(r) == opt_view(*a),
{
    match a {
        Some(x) => Some(string_of(&chars_of(x.as_str()))),
        None => None,
    }
}

impl ScanPass {
    /// Every step so far has taken exactly one action.
    pub closed spec fn wf(&self) -> bool {
        self.added + self.unchanged + self.refreshed == self.seen@.len()
    }

    /// A pass over the index rows `existing` (this library's rows before
    /// the scan).
    pub fn new(existing: Vec<IndexedFile>) -> (p: ScanPass)
        ensures
            p.wf(),
            p@ == initial_pass(rows_view(existing@)),
    {
        let p = ScanPass { rows: existing, seen: Vec::new(), added: 0, unchanged: 0, refreshed: 0 };
        proof {
            assert(p@.seen =~= Seq::<(Seq<char>, Option<Seq<char>>)>::empty());
        }
        p
    }

    /// First row with identity `(rel_path, in_archive)`.
    fn find(&self, rel_path: &str, in_archive: &Option<String>) -> (r: Option<usize>)
        ensures
            match r {
                Some(i) => find_key(self@.rows, (rel_path@, opt_view(*in_archive)), 0) == Some(
                    i as int,
                ) && i < self.rows@.len(),
                None => find_key(self@.rows, (rel_path@, opt_view(*in_archive)), 0) is None,
            },
    {
        let key = chars_of(rel_path);
        let mut i: usize = 0;
        while i < self.rows.len()
            invariant
                i <= self.rows@.len(),
                self@.rows.len() == self.rows@.len(),
                key@ == rel_path@,
                find_key(self@.rows, (rel_path@, opt_view(*in_archive)), 0) == find_key(
                    self@.rows,
                    (rel_path@, opt_view(*in_archive)),
                    i as int,
                ),
            decreases self.rows.len() - i,
        {
            proof {
                assert(self@.rows[i as int] == row_view(self.rows@[i as int]));
            }
            if chars_eq(chars_of(self.rows[i].rel_path.as_str()).as_slice(), key.as_slice())
                && opt_eq(&self.rows[i].in_archive, in_archive) {
                return Some(i);
            }
            i += 1;
        }
        None
    }

    /// Records one observed item and says what to write for it.
    pub fn observe(&mut self, item: IndexedFile) -> (a: ItemAction)
        requires
            old(self).wf(),
        ensures
            final(self).wf(),
            a == action_of(old(self)@, row_view(item)),
            final(self)@ == step_view(old(self)@, row_view(item)),
    {
        let ghost before = self@;
        let found = self.find(item.rel_path.as_str(), &item.in_archive);
        let key = (string_of(&chars_of(item.rel_path.as_str())), copy_opt(&item.in_archive));
        let ghost seen0 = self.seen@;
        self.seen.push(key);
        let _n = self.seen.len();
        proof {
            assert(self@.seen =~= before.seen.push(key_of(row_view(item))));
        }
        match found {
            Some(i) => {
                let same = chars_eq(
                    chars_of(self.rows[i].quick_key.as_str()).as_slice(),
                    chars_of(item.quick_key.as_str()).as_slice(),
                );
                proof {
                    assert(before.rows[i as int] == row_view(self.rows@[i as int]));
                }
                if same {
                    self.unchanged = self.unchanged + 1;
                    proof {
                        assert(self@.rows =~= before.rows);
                    }
                    ItemAction::Unchanged
                } else {
                    let ghost rows0 = self.rows@;
                    self.rows.set(i, item);
                    self.refreshed = self.refreshed + 1;
                    proof {
                        assert(self@.rows =~= before.rows.update(i as int, row_view(item)));
                    }
                    ItemAction::Refresh
                }
            },
            None => {
                self.rows.push(item);
                self.added = self.added + 1;
                proof {
                    assert(self@.rows =~= before.rows.push(row_view(item)));
                }
                ItemAction::Insert
            },
        }
    }

    /// Whether an identity was observed in this pass.
    fn was_seen(&self, i: usize) -> (b: bool)
        requires
            i < self.rows@.len(),
        ensures
            b == self@.seen.contains(key_of(self@.rows[i as int])),
    {
        let rel = chars_of(self.rows[i].rel_path.as_str());
        let mut k: usize = 0;
        while k < self.seen.len()
            invariant
                k <= self.seen@.len(),
                i < self.rows@.len(),
                rel@ == self.rows@[i as int].rel_path@,
                forall|j: int| 0 <= j < k ==> self@.seen[j] != key_of(self@.rows[i as int]),
            decreases self.seen.len() - k,
        {
            if chars_eq(chars_of(self.seen[k].0.as_str()).as_slice(), rel.as_slice()) && opt_eq(
                &self.seen[k].1,
                &self.rows[i].in_archive,
            ) {
                proof {
                    assert(self@.seen[k as int] == key_of(self@.rows[i as int]));
                }
                return true;
            }
            k += 1;
        }
        false
    }

    /// The rows to delete, in index order: those whose identity no item
    /// of this pass had (a vanished zip takes all its entries with it).
    pub fn stale_rows(&self) -> (r: Vec<usize>)
        ensures
            r@.map_values(|i: usize| i as int) == stale(self@),
            forall|k: int| 0 <= k < r@.len() ==> r@[k] < self@.rows.len(),
    {
        let mut r: Vec<usize> = Vec::new();
        let mut i: usize = 0;
        while i < self.rows.len()
            invariant
                i <= self.rows@.len(),
                self@.rows.len() == self.rows@.len(),
                r@.map_values(|j: usize| j as int) == stale_upto(self@, i as int),
                forall|k: int| 0 <= k < r@.len() ==> r@[k] < i,
            decreases self.rows.len() - i,
        {
            let ghost prev = r@;
            if !self.was_seen(i) {
                r.push(i);
                proof {
                    assert(r@.map_values(|j: usize| j as int) =~= prev.map_values(|j: usize| j as int).push(
                        i as int,
                    ));
                }
            } else {
                proof {
                    assert(stale_upto(self@, i + 1) =~= stale_upto(self@, i as int));
                }
            }
            i += 1;
        }
        r
    }

    /// The rows of the index after this pass (before stale rows go).
    pub fn rows(&self) -> (r: &Vec<IndexedFile>)
        ensures
            rows_view(r@) == self@.rows,
    {
        &self.rows
    }

    /// The scan's counts, with `removed` the number of stale rows.
    pub fn summary(&self) -> (s: ScanSummary)
        ensures
            s.added == self@.added,
            s.unchanged == self@.unchanged,
            s.removed == stale(self@).len(),
    {
        let stale = self.stale_rows();
        proof {
            assert(stale@.map_values(|i: usize| i as int).len() == stale@.len());
        }
        ScanSummary { added: self.added, removed: stale.len() as u64, unchanged: self.unchanged }
    }
}

// ---------------------------------------------------------------------
// Laws of the index pass
// ---------------------------------------------------------------------

proof fn lemma_find_key_hit(rows: Seq<(Seq<char>, Option<Seq<char>>, Seq<char>)>, key: (Seq<char>, Option<Seq<char>>), from: int, j: int)
    requires
        0 <= from <= j < rows.len(),
        key_of(rows[j]) == key,
    ensures
        find_key(rows, key, from) matches Some(i) && from <= i <= j && key_of(rows[i]) == key,
    decreases j - from,
{
    if key_of(rows[from]) != key {
        lemma_find_key_hit(rows, key, from + 1, j);
    }
}

proof fn lemma_find_key_miss(rows: Seq<(Seq<char>, Option<Seq<char>>, Seq<char>)>, key: (Seq<char>, Option<Seq<char>>), from: int)
    requires
        0 <= from,
    ensures
        find_key(rows, key, from) matches Some(i) ==> from <= i < rows.len() && key_of(rows[i])
            == key,
    decreases rows.len() - from,
{
    if from < rows.len() && key_of(rows[from]) != key {
        lemma_find_key_miss(rows, key, from + 1);
    }
}

/// Every observed item takes exactly one action: after a pass over
/// `items`, added, unchanged and refreshed rows together count the items.
pub proof fn law_each_item_one_action(rows: Seq<(Seq<char>, Option<Seq<char>>, Seq<char>)>, items: Seq<(Seq<char>, Option<Seq<char>>, Seq<char>)>)
    ensures
        run_pass(initial_pass(rows), items).added + run_pass(initial_pass(rows), items).unchanged
            + run_pass(initial_pass(rows), items).refreshed == items.len(),
        run_pass(initial_pass(rows), items).seen.len() == items.len(),
    decreases items.len(),
{
    if items.len() > 0 {
        law_each_item_one_action(rows, items.drop_last());
    }
}

/// Rescanning an untouched library changes nothing: when the observed
/// items are exactly the index rows (same identities, same quick keys),
/// every item is unchanged, nothing is added or refreshed, and no row is
/// stale. Rows that share an identity must share a quick key: otherwise
/// an item matching the later row refreshes the first one.
pub proof fn law_rescan_untouched(rows: Seq<(Seq<char>, Option<Seq<char>>, Seq<char>)>, items: Seq<(Seq<char>, Option<Seq<char>>, Seq<char>)>)
    requires
        forall|i: int, j: int|
            0 <= i < rows.len() && 0 <= j < rows.len() && key_of(#[trigger] rows[i]) == key_of(
                #[trigger] rows[j],
            ) ==> rows[i].2 == rows[j].2,
        forall|k: int| 0 <= k < items.len() ==> rows.contains(#[trigger] items[k]),
        forall|i: int| 0 <= i < rows.len() ==> items.contains(#[trigger] rows[i]),
    ensures
        run_pass(initial_pass(rows), items).added == 0,
        run_pass(initial_pass(rows), items).refreshed == 0,
        run_pass(initial_pass(rows), items).unchanged == items.len(),
        run_pass(initial_pass(rows), items).rows == rows,
        stale(run_pass(initial_pass(rows), items)).len() == 0,
{
    lemma_untouched_prefix(rows, items, items.len() as int);
    let p = run_pass(initial_pass(rows), items);
    assert(items.take(items.len() as int) =~= items);
    assert forall|n: int| 0 <= n <= rows.len() implies stale_upto(p, n).len() == 0 by {
        lemma_no_stale(p, rows, items, n);
    }
}

proof fn lemma_no_stale(p: PassView, rows: Seq<(Seq<char>, Option<Seq<char>>, Seq<char>)>, items: Seq<(Seq<char>, Option<Seq<char>>, Seq<char>)>, n: int)
    requires
        0 <= n <= rows.len(),
        p.rows == rows,
        p.seen == items.map_values(|it: (Seq<char>, Option<Seq<char>>, Seq<char>)| key_of(it)),
        forall|i: int| 0 <= i < rows.len() ==> items.contains(#[trigger] rows[i]),
    ensures
        stale_upto(p, n).len() == 0,
    decreases n,
{
    if n > 0 {
        lemma_no_stale(p, rows, items, n - 1);
        assert(items.contains(rows[n - 1]));
        let k = choose|k: int| 0 <= k < items.len() && items[k] == rows[n - 1];
        assert(p.seen[k] == key_of(rows[n - 1]));
        assert(p.seen.contains(key_of(p.rows[n - 1])));
        assert(stale_upto(p, n) =~= stale_upto(p, n - 1));
    }
}

proof fn lemma_untouched_prefix(rows: Seq<(Seq<char>, Option<Seq<char>>, Seq<char>)>, items: Seq<(Seq<char>, Option<Seq<char>>, Seq<char>)>, n: int)
    requires
        0 <= n <= items.len(),
        forall|i: int, j: int|
            0 <= i < rows.len() && 0 <= j < rows.len() && key_of(#[trigger] rows[i]) == key_of(
                #[trigger] rows[j],
            ) ==> rows[i].2 == rows[j].2,
        forall|k: int| 0 <= k < items.len() ==> rows.contains(#[trigger] items[k]),
    ensures
        run_pass(initial_pass(rows), items.take(n)).rows == rows,
        run_pass(initial_pass(rows), items.take(n)).added == 0,
        run_pass(initial_pass(rows), items.take(n)).refreshed == 0,
        run_pass(initial_pass(rows), items.take(n)).unchanged == n,
        run_pass(initial_pass(rows), items.take(n)).seen == items.take(n).map_values(
            |it: (Seq<char>, Option<Seq<char>>, Seq<char>)| key_of(it),
        ),
    decreases n,
{
    if n == 0 {
        assert(items.take(0) =~= Seq::<(Seq<char>, Option<Seq<char>>, Seq<char>)>::empty());
        assert(items.take(0).map_values(|it: (Seq<char>, Option<Seq<char>>, Seq<char>)| key_of(it))
            =~= Seq::<(Seq<char>, Option<Seq<char>>)>::empty());
    } else {
        lemma_untouched_prefix(rows, items, n - 1);
        let t = items.take(n);
        assert(t.drop_last() =~= items.take(n - 1));
        assert(t.last() == items[n - 1]);
        let p = run_pass(initial_pass(rows), items.take(n - 1));
        let it = items[n - 1];
        assert(rows.contains(it));
        let j = choose|j: int| 0 <= j < rows.len() && rows[j] == it;
        lemma_find_key_hit(rows, key_of(it), 0, j);
        let i = find_key(rows, key_of(it), 0)->0;
        assert(key_of(rows[i]) == key_of(rows[j]));
        assert(rows[i].2 == it.2);
        assert(t.map_values(|it: (Seq<char>, Option<Seq<char>>, Seq<char>)| key_of(it)) =~= items.take(
            n - 1,
        ).map_values(|it: (Seq<char>, Option<Seq<char>>, Seq<char>)| key_of(it)).push(key_of(it)));
    }
}

/// The identities a pass has seen are those of the items it was fed, in
/// order.
proof fn lemma_seen_is_items(p: PassView, items: Seq<(Seq<char>, Option<Seq<char>>, Seq<char>)>)
    ensures
        run_pass(p, items).seen == p.seen + items.map_values(
            |it: (Seq<char>, Option<Seq<char>>, Seq<char>)| key_of(it),
        ),
    decreases items.len(),
{
    if items.len() > 0 {
        lemma_seen_is_items(p, items.drop_last());
        assert(items.map_values(|it: (Seq<char>, Option<Seq<char>>, Seq<char>)| key_of(it)) =~= items.drop_last().map_values(
            |it: (Seq<char>, Option<Seq<char>>, Seq<char>)| key_of(it),
        ).push(key_of(items.last())));
    } else {
        assert(p.seen + items.map_values(|it: (Seq<char>, Option<Seq<char>>, Seq<char>)| key_of(it)) =~= p.seen);
    }
}

proof fn lemma_stale_upto_members(p: PassView, n: int, i: int)
    requires
        0 <= n <= p.rows.len(),
    ensures
        stale_upto(p, n).contains(i) == (0 <= i < n && !p.seen.contains(key_of(p.rows[i]))),
        forall|k: int| 0 <= k < stale_upto(p, n).len() ==> 0 <= #[trigger] stale_upto(p, n)[k] < n,
    decreases n,
{
    if n > 0 {
        lemma_stale_upto_members(p, n - 1, i);
        let prev = stale_upto(p, n - 1);
        let last: Seq<int> = if !p.seen.contains(key_of(p.rows[n - 1])) {
            seq![n - 1]
        } else {
            Seq::empty()
        };
        assert(stale_upto(p, n) == prev + last);
        if (prev + last).contains(i) {
            let k = choose|k: int| 0 <= k < (prev + last).len() && (prev + last)[k] == i;
            if k < prev.len() {
                assert(prev[k] == i);
                assert(prev.contains(i));
            } else {
                assert(last[k - prev.len()] == i);
            }
        }
        if 0 <= i < n && !p.seen.contains(key_of(p.rows[i])) {
            if i < n - 1 {
                let k = choose|k: int| 0 <= k < prev.len() && prev[k] == i;
                assert((prev + last)[k] == i);
            } else {
                assert((prev + last)[prev.len() as int] == i);
            }
        }
        assert forall|k: int| 0 <= k < stale_upto(p, n).len() implies 0 <= #[trigger] stale_upto(p, n)[k] < n by {
            if k < prev.len() {
                assert(stale_upto(p, n)[k] == prev[k]);
            } else {
                assert(stale_upto(p, n)[k] == last[k - prev.len()]);
            }
        }
    }
}

/// After a pass, a row is stale exactly when no observed item had its
/// identity, whatever the rows and items; stale rows are listed in index
/// order, each once.
pub proof fn law_stale_rows_are_unseen(
    rows: Seq<(Seq<char>, Option<Seq<char>>, Seq<char>)>,
    items: Seq<(Seq<char>, Option<Seq<char>>, Seq<char>)>,
    i: int,
)
    ensures
        stale(run_pass(initial_pass(rows), items)).contains(i) == (0 <= i < run_pass(
            initial_pass(rows),
            items,
        ).rows.len() && !items.map_values(|it: (Seq<char>, Option<Seq<char>>, Seq<char>)| key_of(it)).contains(
            key_of(run_pass(initial_pass(rows), items).rows[i]),
        )),
        forall|a: int, b: int|
            0 <= a < b < stale(run_pass(initial_pass(rows), items)).len() ==> #[trigger] stale(
                run_pass(initial_pass(rows), items),
            )[a] < #[trigger] stale(run_pass(initial_pass(rows), items))[b],
{
    let p = run_pass(initial_pass(rows), items);
    lemma_seen_is_items(initial_pass(rows), items);
    assert(initial_pass(rows).seen + items.map_values(|it: (Seq<char>, Option<Seq<char>>, Seq<char>)| key_of(it)) =~= items.map_values(
        |it: (Seq<char>, Option<Seq<char>>, Seq<char>)| key_of(it),
    ));
    lemma_stale_upto_members(p, p.rows.len() as int, i);
    lemma_stale_upto_sorted(p, p.rows.len() as int);
}

proof fn lemma_stale_upto_sorted(p: PassView, n: int)
    requires
        0 <= n <= p.rows.len(),
    ensures
        forall|a: int, b: int|
            0 <= a < b < stale_upto(p, n).len() ==> #[trigger] stale_upto(p, n)[a] < #[trigger] stale_upto(p, n)[b],
    decreases n,
{
    if n > 0 {
        lemma_stale_upto_sorted(p, n - 1);
        lemma_stale_upto_members(p, n - 1, 0);
        let prev = stale_upto(p, n - 1);
        let last: Seq<int> = if !p.seen.contains(key_of(p.rows[n - 1])) {
            seq![n - 1]
        } else {
            Seq::empty()
        };
        assert(stale_upto(p, n) == prev + last);
        assert forall|a: int, b: int|
            0 <= a < b < stale_upto(p, n).len() implies #[trigger] stale_upto(p, n)[a] < #[trigger] stale_upto(p, n)[b] by {
            if b < prev.len() {
                assert(stale_upto(p, n)[a] == prev[a]);
                assert(stale_upto(p, n)[b] == prev[b]);
            } else {
                assert(stale_upto(p, n)[a] == prev[a]);
                assert(0 <= prev[a] < n - 1);
                assert(stale_upto(p, n)[b] == n - 1);
            }
        }
    }
}

} // verus!
