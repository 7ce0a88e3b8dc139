//! Local media discovery.
//!
//! Artwork for a ROM is found offline through four tiers, highest first:
//! the Relic-native folder `<system>/.relic-media/<kind>/`, paths listed in
//! the system's `gamelist.xml`, the ES-DE layout `<system>/media/<dir>/`,
//! and (box art only) the ROM's own folder. Within a folder a file matches
//! when its stem equals the ROM's stem ignoring case; the best extension
//! wins, then the smallest name. Images go to a content-addressed cache of
//! thumbnails named by their SHA-256.

use vstd::prelude::*;

use crate::metadata::gamelist::{entry_view, EntryView, GamelistEntry};
use crate::paths::{extension, extension_exec, file_stem, file_stem_exec};
use crate::scan::hash::{bytes_hex, bytes_to_hex};
use crate::text::{
    chars_eq, chars_eq_str, chars_le, chars_of, copy_range, opt_view, seq_le, starts_with,
    starts_with_str, string_of, to_lowercase, unicode_lowercase,
};

verus! {

/// Longest edge of a cached thumbnail, in pixels.
pub const THUMB_MAX_DIM: u32 = 512;

/// The kinds of media a game can have.
#[derive(Debug, Clone, Copy, PartialEq, Eq, Hash, Structural)]
pub enum MediaKind {
    Boxart,
    Screenshot,
    Marquee,
    Video,
}

impl MediaKind {
    pub open spec fn name(self) -> Seq<char> {
        match self {
            MediaKind::Boxart => "boxart"@,
            MediaKind::Screenshot => "screenshot"@,
            MediaKind::Marquee => "marquee"@,
            MediaKind::Video => "video"@,
        }
    }

    /// The kind's name as stored in the index.
    pub fn as_str(self) -> (r: &'static str)
        ensures
            r@ == self.name(),
    {
        match self {
            MediaKind::Boxart => "boxart",
            MediaKind::Screenshot => "screenshot",
            MediaKind::Marquee => "marquee",
            MediaKind::Video => "video",
        }
    }

    pub open spec fn es_de_name(self) -> Seq<char> {
        match self {
            MediaKind::Boxart => "covers"@,
            MediaKind::Screenshot => "screenshots"@,
            MediaKind::Marquee => "marquees"@,
            MediaKind::Video => "videos"@,
        }
    }

    /// The kind's folder in the ES-DE layout.
    pub fn es_de_dir(self) -> (r: &'static str)
        ensures
            r@ == self.es_de_name(),
    {
        match self {
            MediaKind::Boxart => "covers",
            MediaKind::Screenshot => "screenshots",
            MediaKind::Marquee => "marquees",
            MediaKind::Video => "videos",
        }
    }

    /// Every kind but video is an image and gets a thumbnail.
    pub fn is_image(self) -> (b: bool)
        ensures
            b == !(self is Video),
    {
        !matches!(self, MediaKind::Video)
    }
}

/// The kinds in discovery order.
pub open spec fn kind_at(i: int) -> MediaKind {
    if i == 0 {
        MediaKind::Boxart
    } else if i == 1 {
        MediaKind::Screenshot
    } else if i == 2 {
        MediaKind::Marquee
    } else {
        MediaKind::Video
    }
}

fn kind_at_exec(i: usize) -> (k: MediaKind)
    ensures
        k == kind_at(i as int),
{
    if i == 0 {
        MediaKind::Boxart
    } else if i == 1 {
        MediaKind::Screenshot
    } else if i == 2 {
        MediaKind::Marquee
    } else {
        MediaKind::Video
    }
}

/// The tier a match came from.
#[derive(Debug, Clone, Copy, PartialEq, Eq, Structural)]
pub enum MediaSource {
    RelicNative,
    Gamelist,
    EsDe,
    SameFolder,
}

impl MediaSource {
    pub open spec fn name(self) -> Seq<char> {
        match self {
            MediaSource::RelicNative => "relic_native"@,
            MediaSource::Gamelist => "gamelist"@,
            MediaSource::EsDe => "es_de"@,
            MediaSource::SameFolder => "same_folder"@,
        }
    }

    /// The source's name as stored in the index.
    pub fn as_str(self) -> (r: &'static str)
        ensures
            r@ == self.name(),
    {
        match self {
            MediaSource::RelicNative => "relic_native",
            MediaSource::Gamelist => "gamelist",
            MediaSource::EsDe => "es_de",
            MediaSource::SameFolder => "same_folder",
        }
    }
}

/// One indexed media row of a game.
#[derive(Debug, Clone)]
pub struct MediaRow {
    pub kind: String,
    pub source: String,
    pub cache_hash: String,
    pub source_path: String,
}

/// Counts of one media refresh.
#[derive(Debug, Clone, Copy, Default, PartialEq, Eq)]
pub struct MediaStats {
    pub discovered: u64,
    pub thumbnails_cached: u64,
    pub failed: u64,
}

/// Which extensions a folder match may have, best first.
#[derive(Debug, Clone, Copy, PartialEq, Eq, Structural)]
pub enum Quality {
    /// `png`, `webp`, `jpg`, `jpeg`.
    Image,
    /// `mp4`, `webm`.
    Video,
    /// `png`, `jpg`, `jpeg`: box art next to the ROM.
    SameFolder,
}

pub open spec fn quality_of(kind: MediaKind) -> Quality {
    if kind is Video {
        Quality::Video
    } else {
        Quality::Image
    }
}

/// The rank of a lowercase extension in a quality order.
pub open spec fn rank(q: Quality, ext: Seq<char>) -> Option<int> {
    match q {
        Quality::Image => if ext == "png"@ {
            Some(0)
        } else if ext == "webp"@ {
            Some(1)
        } else if ext == "jpg"@ {
            Some(2)
        } else if ext == "jpeg"@ {
            Some(3)
        } else {
            None
        },
        Quality::Video => if ext == "mp4"@ {
            Some(0)
        } else if ext == "webm"@ {
            Some(1)
        } else {
            None
        },
        Quality::SameFolder => if ext == "png"@ {
            Some(0)
        } else if ext == "jpg"@ {
            Some(1)
        } else if ext == "jpeg"@ {
            Some(2)
        } else {
            None
        },
    }
}

fn rank_exec(q: Quality, ext: &[char]) -> (r: Option<u8>)
    ensures
        match r {
            Some(k) => rank(q, ext@) == Some(k as int),
            None => rank(q, ext@) is None,
        },
{
    match q {
        Quality::Image => if chars_eq_str(ext, "png") {
            Some(0)
        } else if chars_eq_str(ext, "webp") {
            Some(1)
        } else if chars_eq_str(ext, "jpg") {
            Some(2)
        } else if chars_eq_str(ext, "jpeg") {
            Some(3)
        } else {
            None
        },
        Quality::Video => if chars_eq_str(ext, "mp4") {
            Some(0)
        } else if chars_eq_str(ext, "webm") {
            Some(1)
        } else {
            None
        },
        Quality::SameFolder => if chars_eq_str(ext, "png") {
            Some(0)
        } else if chars_eq_str(ext, "jpg") {
            Some(1)
        } else if chars_eq_str(ext, "jpeg") {
            Some(2)
        } else {
            None
        },
    }
}

/// The rank of a folder entry as a match for a ROM stem: its stem equals
/// `stem_lower` ignoring case, and its extension (ignoring case) is in the
/// quality order.
pub open spec fn candidate_rank(name: Seq<char>, stem_lower: Seq<char>, q: Quality) -> Option<int> {
    match file_stem(name) {
        Some(s) => if unicode_lowercase(s) == stem_lower {
            match extension(name) {
                Some(e) => rank(q, unicode_lowercase(e)),
                None => None,
            }
        } else {
            None
        },
        None => None,
    }
}

/// `(rank, name)` strictly before `(rank2, name2)`.
pub open spec fn before(r: int, n: Seq<char>, r2: int, n2: Seq<char>) -> bool {
    r < r2 || (r == r2 && seq_le(n, n2) && n != n2)
}

/// The best match among folder entries: lowest rank, then smallest name.
pub open spec fn best_match(names: Seq<Seq<char>>, stem_lower: Seq<char>, q: Quality) -> Option<(int, Seq<char>)>
    decreases names.len(),
{
    if names.len() == 0 {
        None
    } else {
        let rest = best_match(names.drop_last(), stem_lower, q);
        match candidate_rank(names.last(), stem_lower, q) {
            None => rest,
            Some(r) => match rest {
                None => Some((r, names.last())),
                Some(b) => if before(r, names.last(), b.0, b.1) {
                    Some((r, names.last()))
                } else {
                    rest
                },
            },
        }
    }
}

pub open spec fn names_view(v: Seq<String>) -> Seq<Seq<char>> {
    v.map_values(|s: String| s@)
}

fn candidate_rank_exec(name: &str, stem_lower: &[char], q: Quality) -> (r: Option<u8>)
    ensures
        match r {
            Some(k) => candidate_rank(name@, stem_lower@, q) == Some(k as int),
            None => candidate_rank(name@, stem_lower@, q) is None,
        },
{
    let nc = chars_of(name);
    match file_stem_exec(nc.as_slice()) {
        Some(s) => {
            let sl = chars_of(to_lowercase(string_of(&s).as_str()).as_str());
            if chars_eq(sl.as_slice(), stem_lower) {
                match extension_exec(nc.as_slice()) {
                    Some(e) => {
                        let el = chars_of(to_lowercase(string_of(&e).as_str()).as_str());
                        rank_exec(q, el.as_slice())
                    },
                    None => None,
                }
            } else {
                None
            }
        },
        None => None,
    }
}

/// The file in a folder listing `names` that serves as media for a ROM
/// whose lowercase stem is `stem_lower`.
pub fn best_match_exec(names: &[String], stem_lower: &str, q: Quality) -> (r: Option<String>)
    ensures
        match best_match(names_view(names@), stem_lower@, q) {
            Some(b) => r matches Some(n) && n@ == b.1,
            None => r is None,
        },
{
    let sl = chars_of(stem_lower);
    let mut best: Option<(u8, Vec<char>)> = None;
    let mut i: usize = 0;
    while i < names.len()
        invariant
            i <= names@.len(),
            sl@ == stem_lower@,
            match best_match(names_view(names@).take(i as int), stem_lower@, q) {
                Some(b) => best matches Some(x) && x.0 as int == b.0 && x.1@ == b.1,
                None => best is None,
            },
        decreases names.len() - i,
    {
        proof {
            let t = names_view(names@).take(i + 1);
            assert(t.drop_last() =~= names_view(names@).take(i as int));
            assert(t.last() == names@[i as int]@);
        }
        match candidate_rank_exec(names[i].as_str(), sl.as_slice(), q) {
            None => {},
            Some(r) => {
                let nc = chars_of(names[i].as_str());
                let replace = match &best {
                    None => true,
                    Some(b) => r < b.0 || (r == b.0 && chars_le(nc.as_slice(), b.1.as_slice())
                        && !chars_eq(nc.as_slice(), b.1.as_slice())),
                };
                if replace {
                    best = Some((r, nc));
                }
            },
        }
        i += 1;
    }
    proof {
        assert(names_view(names@).take(names@.len() as int) =~= names_view(names@));
    }
    match best {
        Some(b) => Some(string_of(&b.1)),
        None => None,
    }
}

/// A media path listed by a system's gamelist: the ROM stem it belongs
/// to (lowercase), its kind, and the path relative to the system folder.
pub struct GamelistRef {
    pub stem: String,
    pub kind: MediaKind,
    pub path: String,
}

/// `s` with every leading `./` removed.
pub open spec fn trim_dot_slashes(s: Seq<char>) -> Seq<char>
    decreases s.len(),
{
    if starts_with(s, seq!['.', '/']) {
        trim_dot_slashes(s.skip(2))
    } else {
        s
    }
}

proof fn lemma_trim_dot_slashes_step(t: Seq<char>)
    ensures
        t.len() >= 2 && t[0] == '.' && t[1] == '/' ==> trim_dot_slashes(t) == trim_dot_slashes(
            t.skip(2),
        ),
        !(t.len() >= 2 && t[0] == '.' && t[1] == '/') ==> trim_dot_slashes(t) == t,
{
    if t.len() >= 2 && t[0] == '.' && t[1] == '/' {
        assert(t.take(2) =~= seq!['.', '/']);
    } else if t.len() >= 2 {
        assert(t.take(2) != seq!['.', '/']) by {
            if t[0] != '.' {
                assert(t.take(2)[0] != seq!['.', '/'][0]);
            } else {
                assert(t.take(2)[1] != seq!['.', '/'][1]);
            }
        }
    }
}

fn trim_dot_slashes_exec(s: &[char]) -> (r: Vec<char>)
    ensures
        r@ == trim_dot_slashes(s@),
{
    let n = s.len();
    let mut a: usize = 0;
    proof {
        assert(s@.skip(0) =~= s@);
    }
    loop
        invariant
            a <= n == s@.len(),
            trim_dot_slashes(s@) == trim_dot_slashes(s@.skip(a as int)),
        decreases n - a,
    {
        let ghost t = s@.skip(a as int);
        proof {
            lemma_trim_dot_slashes_step(t);
        }
        if n - a >= 2 && s[a] == '.' && s[a + 1] == '/' {
            proof {
                assert(t[0] == s@[a as int] && t[1] == s@[a + 1]);
                assert(t.skip(2) =~= s@.skip(a + 2));
            }
            a = a + 2;
        } else {
            proof {
                if t.len() >= 2 {
                    assert(t[0] == s@[a as int] && t[1] == s@[a + 1]);
                }
                assert(s@.skip(a as int) =~= s@.subrange(a as int, n as int));
            }
            return copy_range(s, a, n);
        }
    }
}

/// The media references of one gamelist entry: `<image>` as box art,
/// `<marquee>`, `<video>`, keyed by the lowercase stem of its `<path>`.
pub open spec fn entry_refs(e: EntryView) -> Seq<(Seq<char>, MediaKind, Seq<char>)> {
    match file_stem(trim_dot_slashes(e.path)) {
        None => Seq::empty(),
        Some(s) => {
            let st = unicode_lowercase(s);
            (match e.image {
                Some(p) => seq![(st, MediaKind::Boxart, trim_dot_slashes(p))],
                None => Seq::empty(),
            }) + (match e.marquee {
                Some(p) => seq![(st, MediaKind::Marquee, trim_dot_slashes(p))],
                None => Seq::empty(),
            }) + (match e.video {
                Some(p) => seq![(st, MediaKind::Video, trim_dot_slashes(p))],
                None => Seq::empty(),
            })
        },
    }
}

pub open spec fn all_refs(es: Seq<EntryView>) -> Seq<(Seq<char>, MediaKind, Seq<char>)>
    decreases es.len(),
{
    if es.len() == 0 {
        Seq::empty()
    } else {
        all_refs(es.drop_last()) + entry_refs(es.last())
    }
}

/// The gamelist field that lists media of `kind`: `<image>` is the box art,
/// `<marquee>` the marquee, `<video>` the video; no field lists screenshots.
pub open spec fn kind_field(e: EntryView, kind: MediaKind) -> Option<Seq<char>> {
    match kind {
        MediaKind::Boxart => e.image,
        MediaKind::Marquee => e.marquee,
        MediaKind::Video => e.video,
        MediaKind::Screenshot => None,
    }
}

/// Entry `e` lists reference `r`: `r` carries the lowercase stem of the
/// entry's path, and the path of the field that lists media of `r`'s kind,
/// without its leading `./`.
pub open spec fn listed_by(e: EntryView, r: (Seq<char>, MediaKind, Seq<char>)) -> bool {
    &&& file_stem(trim_dot_slashes(e.path)) matches Some(s) && r.0 == unicode_lowercase(s)
    &&& kind_field(e, r.1) matches Some(p) && r.2 == trim_dot_slashes(p)
}

proof fn lemma_singleton_contains<A>(x: A, y: A)
    ensures
        seq![x].contains(y) <==> x == y,
{
    if x == y {
        assert(seq![x][0] == y);
    }
}

proof fn lemma_entry_refs_listed(e: EntryView, r: (Seq<char>, MediaKind, Seq<char>))
    ensures
        entry_refs(e).contains(r) <==> listed_by(e, r),
{
    match file_stem(trim_dot_slashes(e.path)) {
        None => {},
        Some(s) => {
            let st = unicode_lowercase(s);
            let a = match e.image {
                Some(p) => seq![(st, MediaKind::Boxart, trim_dot_slashes(p))],
                None => Seq::empty(),
            };
            let b = match e.marquee {
                Some(p) => seq![(st, MediaKind::Marquee, trim_dot_slashes(p))],
                None => Seq::empty(),
            };
            let c = match e.video {
                Some(p) => seq![(st, MediaKind::Video, trim_dot_slashes(p))],
                None => Seq::empty(),
            };
            assert(entry_refs(e) == a + b + c);
            vstd::seq_lib::lemma_seq_concat_contains_all_elements(a + b, c, r);
            vstd::seq_lib::lemma_seq_concat_contains_all_elements(a, b, r);
            if let Some(p) = e.image {
                lemma_singleton_contains((st, MediaKind::Boxart, trim_dot_slashes(p)), r);
            }
            if let Some(p) = e.marquee {
                lemma_singleton_contains((st, MediaKind::Marquee, trim_dot_slashes(p)), r);
            }
            if let Some(p) = e.video {
                lemma_singleton_contains((st, MediaKind::Video, trim_dot_slashes(p)), r);
            }
        },
    }
}

/// What a gamelist yields is exactly what its entries list: a reference is
/// among the results if and only if some entry lists it, so `<image>` gives
/// box art, `<marquee>` a marquee and `<video>` a video, each under the
/// entry's lowercase stem and with its leading `./` removed, and no
/// reference is ever a screenshot.
pub proof fn law_gamelist_refs_are_listed(es: Seq<EntryView>, r: (Seq<char>, MediaKind, Seq<char>))
    ensures
        all_refs(es).contains(r) <==> exists|i: int| 0 <= i < es.len() && listed_by(#[trigger] es[i], r),
        all_refs(es).contains(r) ==> r.1 != MediaKind::Screenshot,
    decreases es.len(),
{
    if es.len() > 0 {
        let p = es.drop_last();
        law_gamelist_refs_are_listed(p, r);
        lemma_entry_refs_listed(es.last(), r);
        vstd::seq_lib::lemma_seq_concat_contains_all_elements(all_refs(p), entry_refs(es.last()), r);
        if exists|i: int| 0 <= i < es.len() && listed_by(#[trigger] es[i], r) {
            let i = choose|i: int| 0 <= i < es.len() && listed_by(#[trigger] es[i], r);
            if i < es.len() - 1 {
                assert(p[i] == es[i]);
            }
        }
        if exists|i: int| 0 <= i < p.len() && listed_by(#[trigger] p[i], r) {
            let i = choose|i: int| 0 <= i < p.len() && listed_by(#[trigger] p[i], r);
            assert(p[i] == es[i]);
        }
        if entry_refs(es.last()).contains(r) {
            assert(es[es.len() - 1] == es.last());
        }
    }
}

pub open spec fn refs_view(v: Seq<GamelistRef>) -> Seq<(Seq<char>, MediaKind, Seq<char>)> {
    v.map_values(|r: GamelistRef| (r.stem@, r.kind, r.path@))
}

fn push_ref(out: &mut Vec<GamelistRef>, stem: &Vec<char>, kind: MediaKind, p: &Option<String>)
    ensures
        refs_view(final(out)@) == refs_view(old(out)@) + match opt_view(*p) {
            Some(x) => seq![(stem@, kind, trim_dot_slashes(x))],
            None => Seq::empty(),
        },
{
    match p {
        Some(x) => {
            let t = trim_dot_slashes_exec(chars_of(x.as_str()).as_slice());
            let ghost o = out@;
            out.push(GamelistRef { stem: string_of(stem), kind, path: string_of(&t) });
            proof {
                assert(refs_view(out@) =~= refs_view(o).push((stem@, kind, t@)));
            }
        },
        None => {
            proof {
                assert(refs_view(out@) + Seq::<(Seq<char>, MediaKind, Seq<char>)>::empty()
                    =~= refs_view(out@));
            }
        },
    }
}

/// The media a system's gamelist lists, in entry order.
pub fn gamelist_media_refs(entries: &[GamelistEntry]) -> (r: Vec<GamelistRef>)
    ensures
        refs_view(r@) == all_refs(entries@.map_values(|e: GamelistEntry| entry_view(e))),
        forall|x: (Seq<char>, MediaKind, Seq<char>)|
            #[trigger] refs_view(r@).contains(x) <==> exists|i: int|
                0 <= i < entries@.len() && listed_by(entry_view(#[trigger] entries@[i]), x),
{
    let ghost ev = entries@.map_values(|e: GamelistEntry| entry_view(e));
    let mut out: Vec<GamelistRef> = Vec::new();
    proof {
        assert(refs_view(out@) =~= Seq::<(Seq<char>, MediaKind, Seq<char>)>::empty());
    }
    let mut i: usize = 0;
    while i < entries.len()
        invariant
            i <= entries@.len(),
            ev == entries@.map_values(|e: GamelistEntry| entry_view(e)),
            refs_view(out@) == all_refs(ev.take(i as int)),
        decreases entries.len() - i,
    {
        proof {
            let t = ev.take(i + 1);
            assert(t.drop_last() =~= ev.take(i as int));
            assert(t.last() == entry_view(entries@[i as int]));
        }
        let e = &entries[i];
        let p = trim_dot_slashes_exec(chars_of(e.path.as_str()).as_slice());
        match file_stem_exec(p.as_slice()) {
            None => {
                proof {
                    assert(refs_view(out@) + Seq::<(Seq<char>, MediaKind, Seq<char>)>::empty()
                        =~= refs_view(out@));
                }
            },
            Some(s) => {
                let st = chars_of(to_lowercase(string_of(&s).as_str()).as_str());
                let ghost o = refs_view(out@);
                push_ref(&mut out, &st, MediaKind::Boxart, &e.image);
                push_ref(&mut out, &st, MediaKind::Marquee, &e.marquee);
                push_ref(&mut out, &st, MediaKind::Video, &e.video);
                proof {
                    assert(refs_view(out@) =~= o + entry_refs(entry_view(*e)));
                }
            },
        }
        i += 1;
    }
    proof {
        assert(ev.take(entries@.len() as int) =~= ev);
        assert forall|x: (Seq<char>, MediaKind, Seq<char>)|
            #[trigger] refs_view(out@).contains(x) <==> exists|i: int|
                0 <= i < entries@.len() && listed_by(entry_view(#[trigger] entries@[i]), x) by {
            law_gamelist_refs_are_listed(ev, x);
            if exists|i: int| 0 <= i < ev.len() && listed_by(#[trigger] ev[i], x) {
                let i = choose|i: int| 0 <= i < ev.len() && listed_by(#[trigger] ev[i], x);
                assert(ev[i] == entry_view(entries@[i]));
            }
            if exists|i: int| 0 <= i < entries@.len() && listed_by(entry_view(#[trigger] entries@[i]), x) {
                let i = choose|i: int|
                    0 <= i < entries@.len() && listed_by(entry_view(#[trigger] entries@[i]), x);
                assert(ev[i] == entry_view(entries@[i]));
            }
        }
    }
    out
}

/// The lowercase stem of a ROM path: what its media must be named after.
pub fn rom_stem_lower(rom_path: &str) -> (r: Option<String>)
    ensures
        match file_stem(rom_path@) {
            Some(s) => r matches Some(x) && x@ == unicode_lowercase(s),
            None => r is None,
        },
{
    match file_stem_exec(chars_of(rom_path).as_slice()) {
        Some(s) => Some(to_lowercase(string_of(&s).as_str())),
        None => None,
    }
}

/// The folder listings discovery reads for one kind: the Relic-native
/// folder and the ES-DE folder.
pub struct KindListings {
    pub native: Vec<String>,
    pub es_de: Vec<String>,
}

/// A gamelist reference for the ROM, with whether the file it names
/// exists.
pub struct RefCheck {
    pub kind: MediaKind,
    pub path: String,
    pub is_file: bool,
}

/// One discovered medium: its kind, tier, and the file (a name within
/// the tier's folder, or a gamelist path relative to the system folder).
pub struct Discovered {
    pub kind: MediaKind,
    pub source: MediaSource,
    pub name: String,
}

pub open spec fn first_ref(refs: Seq<RefCheck>, kind: MediaKind) -> Option<Seq<char>>
    decreases refs.len(),
{
    if refs.len() == 0 {
        None
    } else if refs[0].kind == kind && refs[0].is_file {
        Some(refs[0].path@)
    } else {
        first_ref(refs.skip(1), kind)
    }
}

/// The medium of one kind, through the tiers in order.
pub open spec fn discover_kind(kind: MediaKind, l: KindListings, refs: Seq<RefCheck>, same_folder: Seq<Seq<char>>, stem: Seq<char>) -> Option<(MediaSource, Seq<char>)> {
    match best_match(names_view(l.native@), stem, quality_of(kind)) {
        Some(b) => Some((MediaSource::RelicNative, b.1)),
        None => match first_ref(refs, kind) {
            Some(p) => Some((MediaSource::Gamelist, p)),
            None => match best_match(names_view(l.es_de@), stem, quality_of(kind)) {
                Some(b) => Some((MediaSource::EsDe, b.1)),
                None => if kind is Boxart {
                    match best_match(same_folder, stem, Quality::SameFolder) {
                        Some(b) => Some((MediaSource::SameFolder, b.1)),
                        None => None,
                    }
                } else {
                    None
                },
            },
        },
    }
}

pub open spec fn found_view(d: Discovered) -> (MediaKind, MediaSource, Seq<char>) {
    (d.kind, d.source, d.name@)
}

/// What discovery finds for the first `n` kinds.
pub open spec fn discover_upto(ls: Seq<KindListings>, refs: Seq<RefCheck>, same_folder: Seq<Seq<char>>, stem: Seq<char>, n: int) -> Seq<(MediaKind, MediaSource, Seq<char>)>
    decreases n,
{
    if n <= 0 {
        Seq::empty()
    } else {
        discover_upto(ls, refs, same_folder, stem, n - 1) + match discover_kind(
            kind_at(n - 1),
            ls[n - 1],
            refs,
            same_folder,
            stem,
        ) {
            Some(f) => seq![(kind_at(n - 1), f.0, f.1)],
            None => Seq::empty(),
        }
    }
}

/// Media tiers are tried in order and the first that has a file wins: the
/// Relic-native folder over the gamelist, the gamelist over the ES-DE
/// folder, and the ROM's own folder only for box art, when no other tier
/// has one.
pub proof fn law_higher_tier_wins(kind: MediaKind, l: KindListings, refs: Seq<RefCheck>, same_folder: Seq<Seq<char>>, stem: Seq<char>)
    ensures
        best_match(names_view(l.native@), stem, quality_of(kind)) is Some ==> (discover_kind(
            kind,
            l,
            refs,
            same_folder,
            stem,
        ) matches Some(f) && f.0 == MediaSource::RelicNative),
        best_match(names_view(l.native@), stem, quality_of(kind)) is None ==> (first_ref(refs, kind)
            matches Some(p) ==> discover_kind(kind, l, refs, same_folder, stem) == Some(
            (MediaSource::Gamelist, p),
        )),
        (discover_kind(kind, l, refs, same_folder, stem) matches Some(f) && f.0 == MediaSource::EsDe)
            ==> best_match(names_view(l.native@), stem, quality_of(kind)) is None && first_ref(refs, kind) is None,
        (discover_kind(kind, l, refs, same_folder, stem) matches Some(f) && f.0 == MediaSource::SameFolder)
            ==> kind is Boxart && best_match(names_view(l.native@), stem, quality_of(kind)) is None
            && first_ref(refs, kind) is None && best_match(names_view(l.es_de@), stem, quality_of(kind)) is None,
{
}

fn first_ref_exec(refs: &[RefCheck], kind: MediaKind) -> (r: Option<String>)
    ensures
        opt_view(r) == first_ref(refs@, kind),
{
    let mut i: usize = 0;
    proof {
        assert(refs@.skip(0) =~= refs@);
    }
    while i < refs.len()
        invariant
            i <= refs@.len(),
            first_ref(refs@, kind) == first_ref(refs@.skip(i as int), kind),
        decreases refs.len() - i,
    {
        proof {
            assert(refs@.skip(i as int)[0] == refs@[i as int]);
            assert(refs@.skip(i as int).skip(1) =~= refs@.skip(i + 1));
        }
        if refs[i].kind == kind && refs[i].is_file {
            return Some(string_of(&chars_of(refs[i].path.as_str())));
        }
        i += 1;
    }
    None
}

/// Discovery for one ROM: for each kind (box art, screenshot, marquee,
/// video, in that order) the file of the highest tier that has one.
/// `listings[k]` are the folders of kind `k`; `refs` the ROM's gamelist
/// references; `same_folder` the ROM's own folder.
pub fn discover_for_rom(stem_lower: &str, listings: &[KindListings], refs: &[RefCheck], same_folder: &[String]) -> (r: Vec<Discovered>)
    requires
        listings@.len() == 4,
    ensures
        r@.map_values(|d: Discovered| found_view(d)) == discover_upto(
            listings@,
            refs@,
            names_view(same_folder@),
            stem_lower@,
            4,
        ),
{
    let mut out: Vec<Discovered> = Vec::new();
    proof {
        assert(out@.map_values(|d: Discovered| found_view(d)) =~= Seq::<
            (MediaKind, MediaSource, Seq<char>),
        >::empty());
    }
    let mut i: usize = 0;
    while i < 4
        invariant
            i <= 4,
            listings@.len() == 4,
            out@.map_values(|d: Discovered| found_view(d)) == discover_upto(
                listings@,
                refs@,
                names_view(same_folder@),
                stem_lower@,
                i as int,
            ),
        decreases 4 - i,
    {
        let kind = kind_at_exec(i);
        let q = if kind == MediaKind::Video {
            Quality::Video
        } else {
            Quality::Image
        };
        let l = &listings[i];
        let found: Option<(MediaSource, String)> = match best_match_exec(l.native.as_slice(), stem_lower, q) {
            Some(n) => Some((MediaSource::RelicNative, n)),
            None => match first_ref_exec(refs, kind) {
                Some(p) => Some((MediaSource::Gamelist, p)),
                None => match best_match_exec(l.es_de.as_slice(), stem_lower, q) {
                    Some(n) => Some((MediaSource::EsDe, n)),
                    None => if kind == MediaKind::Boxart {
                        match best_match_exec(same_folder, stem_lower, Quality::SameFolder) {
                            Some(n) => Some((MediaSource::SameFolder, n)),
                            None => None,
                        }
                    } else {
                        None
                    },
                },
            },
        };
        let ghost o = out@.map_values(|d: Discovered| found_view(d));
        match found {
            Some((src, n)) => {
                let ghost nv = n@;
                out.push(Discovered { kind, source: src, name: n });
                proof {
                    assert(out@.map_values(|d: Discovered| found_view(d)) =~= o.push(
                        (kind, src, nv),
                    ));
                }
            },
            None => {
                proof {
                    assert(o + Seq::<(MediaKind, MediaSource, Seq<char>)>::empty() =~= o);
                }
            },
        }
        i += 1;
    }
    out
}

/// The system folder of an index path: its first `/` segment.
pub open spec fn first_segment(rel: Seq<char>) -> Seq<char> {
    match crate::text::find_from(rel, '/', 0) {
        Some(i) => rel.take(i),
        None => rel,
    }
}

pub fn system_of_rel_path(rel: &str) -> (r: String)
    ensures
        r@ == first_segment(rel@),
{
    let c = chars_of(rel);
    match crate::text::find_char(c.as_slice(), '/', 0) {
        Some(i) => {
            proof {
                crate::text::lemma_find_from(c@, '/', 0);
            }
            let s = copy_range(c.as_slice(), 0, i);
            proof {
                assert(s@ =~= c@.take(i as int));
            }
            string_of(&s)
        },
        None => string_of(&c),
    }
}

/// The cache file of a thumbnail, relative to the cache folder:
/// `<first two characters of the hash>/<hash>.png`.
pub open spec fn thumb_rel_path_spec(hash: Seq<char>) -> Seq<char> {
    hash.take(if hash.len() < 2 { hash.len() as int } else { 2 }) + seq!['/'] + hash + ".png"@
}

pub fn thumb_rel_path(hash: &str) -> (r: String)
    ensures
        r@ == thumb_rel_path_spec(hash@),
{
    let h = chars_of(hash);
    let k: usize = if h.len() < 2 {
        h.len()
    } else {
        2
    };
    let mut out = copy_range(h.as_slice(), 0, k);
    out.push('/');
    crate::text::push_all(&mut out, h.as_slice());
    crate::text::push_str(&mut out, ".png");
    proof {
        assert(out@ =~= thumb_rel_path_spec(hash@));
    }
    string_of(&out)
}

/// Whether an indexed medium can be kept as is: the same source file, and
/// for an image its thumbnail still in the cache.
pub fn keep_existing(same_source: bool, is_image: bool, thumbnail_present: bool) -> (b: bool)
    ensures
        b == (same_source && (!is_image || thumbnail_present)),
{
    same_source && (!is_image || thumbnail_present)
}

/// The SHA-256 digest of some bytes.
pub uninterp spec fn sha256_of(data: Seq<u8>) -> Seq<u8>;

/// `sha2::Sha256::digest`: the 32-byte SHA-256 digest of `data`, which
/// depends on `data` alone.
#[verifier::external_body]
fn sha256_digest(data: &[u8]) -> (r: [u8; 32])
    ensures
        r@ == sha256_of(data@),
{
    <sha2::Sha256 as sha2::Digest>::digest(data).into()
}

/// The content hash a thumbnail is cached under: the SHA-256 of the
/// source file's bytes in lowercase hex.
pub fn content_hash(data: &[u8]) -> (r: String)
    ensures
        r@ == bytes_hex(sha256_of(data@)),
{
    let d = sha256_digest(data);
    bytes_to_hex(&d)
}

/// Whether an image of `width` by `height` is scaled down for the cache.
pub fn needs_downscale(width: u32, height: u32) -> (b: bool)
    ensures
        b == (width > THUMB_MAX_DIM || height > THUMB_MAX_DIM),
{
    let longest = if width > height {
        width
    } else {
        height
    };
    longest > THUMB_MAX_DIM
}


/// The image `image::load_from_memory` decodes from some bytes, as RGBA8
/// (width, height, row-major pixels), or the decoder's message.
pub uninterp spec fn image_rgba_of(data: Seq<u8>) -> Result<(u32, u32, Seq<u8>), Seq<char>>;

/// A decoded image's plain form.
pub open spec fn rgba_view(t: (u32, u32, Vec<u8>)) -> (u32, u32, Seq<u8>) {
    (t.0, t.1, t.2@)
}

/// `image::load_from_memory`, then `DynamicImage::to_rgba8`: the decoded
/// image as RGBA8, four bytes per pixel, or the decoder's message. The
/// format is guessed from the bytes and the decoder's limits are its
/// defaults, so the outcome depends on the bytes alone.
#[verifier::external_body]
fn decode_rgba(data: &[u8]) -> (r: Result<(u32, u32, Vec<u8>), String>)
    ensures
        match r {
            Ok(t) => image_rgba_of(data@) == Ok::<(u32, u32, Seq<u8>), Seq<char>>(rgba_view(t))
                && t.2@.len() == t.0 as int * t.1 as int * 4,
            Err(e) => image_rgba_of(data@) == Err::<(u32, u32, Seq<u8>), Seq<char>>(e@),
        },
{
    match image::load_from_memory(data) {
        Ok(img) => {
            let b = img.to_rgba8();
            Ok((b.width(), b.height(), b.into_raw()))
        },
        Err(e) => Err(e.to_string()),
    }
}

/// What `DynamicImage::resize(max, max, FilterType::Triangle)` makes of an
/// RGBA8 image, as RGBA8.
pub uninterp spec fn rgba_fit_of(width: u32, height: u32, pixels: Seq<u8>, max: u32) -> (u32, u32, Seq<u8>);

/// `DynamicImage::resize` of an RGBA8 image to fit `max` by `max` with the
/// triangle filter, keeping the aspect ratio. The new size is the old one
/// scaled by the smaller of `max / width` and `max / height`, each side
/// rounded and at least 1; so, of a non-empty image, both sides are at
/// most `max` and one of them is `max`.
#[verifier::external_body]
fn fit_rgba(width: u32, height: u32, pixels: Vec<u8>, max: u32) -> (r: (u32, u32, Vec<u8>))
    requires
        pixels@.len() == width as int * height as int * 4,
        0 < max,
    ensures
        rgba_view(r) == rgba_fit_of(width, height, pixels@, max),
        r.2@.len() == r.0 as int * r.1 as int * 4,
        width > 0 && height > 0 ==> 1 <= r.0 <= max && 1 <= r.1 <= max && (r.0 == max || r.1 == max),
{
    let buf = image::RgbaImage::from_raw(width, height, pixels).unwrap();
    let out = image::DynamicImage::ImageRgba8(buf).resize(max, max, image::imageops::FilterType::Triangle).to_rgba8();
    (out.width(), out.height(), out.into_raw())
}

/// What the PNG encoder writes for an RGBA8 image: the file, or its
/// message.
pub uninterp spec fn png_rgba_of(width: u32, height: u32, pixels: Seq<u8>) -> Result<Seq<u8>, Seq<char>>;

/// The eight bytes every PNG file starts with.
pub open spec fn png_signature() -> Seq<u8> {
    seq![137u8, 80u8, 78u8, 71u8, 13u8, 10u8, 26u8, 10u8]
}

/// `x` as four big-endian bytes.
pub open spec fn be32(x: u32) -> Seq<u8> {
    seq![(x / 0x100_0000) as u8, (x / 0x1_0000 % 256) as u8, (x / 256 % 256) as u8, (x % 256) as u8]
}

/// Whether bytes start as a PNG file of `width` by `height` does: the
/// signature, then the IHDR chunk (its length 13, its type, then the width
/// and the height, big-endian).
pub open spec fn png_of_size(b: Seq<u8>, width: u32, height: u32) -> bool {
    &&& b.len() >= 24
    &&& b.subrange(0, 8) == png_signature()
    &&& b.subrange(8, 16) == seq![0u8, 0u8, 0u8, 13u8, 73u8, 72u8, 68u8, 82u8]
    &&& b.subrange(16, 20) == be32(width)
    &&& b.subrange(20, 24) == be32(height)
}

/// `PngEncoder::write_image` of an RGBA8 image into an empty buffer: the
/// file bytes, or the encoder's message. The encoder writes the signature
/// and then the IHDR chunk first, so a file starts with both.
#[verifier::external_body]
fn png_rgba(width: u32, height: u32, pixels: &[u8]) -> (r: Result<Vec<u8>, String>)
    requires
        pixels@.len() == width as int * height as int * 4,
    ensures
        match r {
            Ok(b) => png_rgba_of(width, height, pixels@) == Ok::<Seq<u8>, Seq<char>>(b@) && png_of_size(
                b@,
                width,
                height,
            ),
            Err(e) => png_rgba_of(width, height, pixels@) == Err::<Seq<u8>, Seq<char>>(e@),
        },
{
    let mut out: Vec<u8> = Vec::new();
    let enc = image::codecs::png::PngEncoder::new(&mut out);
    match image::ImageEncoder::write_image(enc, pixels, width, height, image::ExtendedColorType::Rgba8) {
        Ok(()) => Ok(out),
        Err(e) => Err(e.to_string()),
    }
}

/// The cache thumbnail of an image file's bytes: the decoded image, scaled
/// to fit 512 by 512 when either side is longer, written as PNG; or the
/// decoder's or encoder's message.
pub open spec fn thumbnail_of(data: Seq<u8>) -> Result<Seq<u8>, Seq<char>> {
    match image_rgba_of(data) {
        Err(e) => Err(e),
        Ok(t) => if t.0 > THUMB_MAX_DIM || t.1 > THUMB_MAX_DIM {
            let f = rgba_fit_of(t.0, t.1, t.2, THUMB_MAX_DIM);
            png_rgba_of(f.0, f.1, f.2)
        } else {
            png_rgba_of(t.0, t.1, t.2)
        },
    }
}

/// The size a thumbnail of a `width` by `height` image has: the same when
/// both sides are at most 512, else both sides at most 512 and one of them
/// 512.
pub open spec fn thumbnail_size(width: u32, height: u32, tw: u32, th: u32) -> bool {
    if width > THUMB_MAX_DIM || height > THUMB_MAX_DIM {
        (width > 0 && height > 0) ==> (1 <= tw <= THUMB_MAX_DIM && 1 <= th <= THUMB_MAX_DIM && (tw
            == THUMB_MAX_DIM || th == THUMB_MAX_DIM))
    } else {
        tw == width && th == height
    }
}

/// A cache thumbnail of an image file's bytes, as PNG in RGBA8: the image
/// scaled to fit 512 by 512 when either side is longer, else as it is. An
/// error is the message of the decoder or encoder.
pub fn make_thumbnail(data: &[u8]) -> (r: Result<Vec<u8>, String>)
    ensures
        match r {
            Ok(b) => thumbnail_of(data@) == Ok::<Seq<u8>, Seq<char>>(b@),
            Err(e) => thumbnail_of(data@) == Err::<Seq<u8>, Seq<char>>(e@),
        },
        r matches Ok(b) ==> (image_rgba_of(data@) matches Ok(t) && exists|tw: u32, th: u32|
            #[trigger] thumbnail_size(t.0, t.1, tw, th) && png_of_size(b@, tw, th)),
{
    let (w, h, px) = match decode_rgba(data) {
        Ok(t) => t,
        Err(e) => return Err(e),
    };
    if needs_downscale(w, h) {
        let (nw, nh, small) = fit_rgba(w, h, px, THUMB_MAX_DIM);
        let r = png_rgba(nw, nh, small.as_slice());
        proof {
            if r is Ok {
                assert(thumbnail_size(w, h, nw, nh));
            }
        }
        r
    } else {
        let r = png_rgba(w, h, px.as_slice());
        proof {
            if r is Ok {
                assert(thumbnail_size(w, h, w, h));
            }
        }
        r
    }
}

} // verus!
