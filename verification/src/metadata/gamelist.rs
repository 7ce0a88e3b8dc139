//! `gamelist.xml` (EmulationStation / ES-DE): reading entries, matching
//! them to indexed files, and writing a system's games back out.
//!
//! Tolerance: unknown elements are skipped, a `<game>` without a `<path>`
//! is dropped, only `<game>` elements inside `<gameList>` count, and only
//! malformed XML is an error. A rating is kept as the text it was written
//! with, and only when that text is a valid floating-point literal; the
//! application turns it into a number.

use vstd::prelude::*;

use crate::intents::{all_digits, digits_from, is_digit, sign_len};
use crate::metadata::xml::{
    events_view, field_out, fields_out, is_record_doc, is_xml_ws, local_name, local_name_exec,
    name_ok, outs_view, read_back, read_back_one, read_xml_events, reads_back_as, record_doc,
    record_doc_names_ok, record_out, records_out, render_xml, xml_events_of, xml_render, xml_trim,
    xml_trim_end, xml_trim_start, XmlEvent, XmlEventView, XmlOut, XmlOutView, XmlTagView,
};
use crate::scan::forward_slashes;
use crate::scan::forward_slashes_exec;
use crate::text::{
    ascii_lower_seq, chars_eq, chars_eq_str, chars_of, copy_range, find_char, find_from,
    lemma_find_from, opt_view, push_all, push_str, starts_with, starts_with_chars,
    starts_with_str, string_of, to_ascii_lower_chars, trim, trim_chars,
};

verus! {

/// One `<game>` of a gamelist, tolerant of missing fields. `path` is kept
/// as written (e.g. `"./Super Mario World (USA).sfc"`).
#[derive(Debug, Clone, Default, PartialEq, Eq)]
pub struct GamelistEntry {
    pub path: String,
    pub name: Option<String>,
    pub desc: Option<String>,
    pub genre: Option<String>,
    pub developer: Option<String>,
    pub publisher: Option<String>,
    /// ES format, `YYYYMMDDTHHMMSS`.
    pub releasedate: Option<String>,
    /// A range such as `"1-2"`.
    pub players: Option<String>,
    /// The rating as written (ES uses 0.0 to 1.0); always a valid
    /// floating-point literal.
    pub rating: Option<String>,
    pub image: Option<String>,
    pub marquee: Option<String>,
    pub video: Option<String>,
    pub favorite: bool,
    pub hidden: bool,
}

/// A gamelist that could not be read.
#[derive(Debug, Clone, PartialEq, Eq)]
pub enum GamelistError {
    /// Malformed XML, with the reader's message.
    Xml(String),
}

impl GamelistError {
    /// `"malformed gamelist.xml: <reason>"`.
    pub fn message(&self) -> (r: String)
        ensures
            r@ == "malformed gamelist.xml: "@ + match self {
                GamelistError::Xml(m) => m@,
            },
    {
        let mut out = chars_of("malformed gamelist.xml: ");
        match self {
            GamelistError::Xml(m) => push_str(&mut out, m.as_str()),
        }
        string_of(&out)
    }
}

/// Per-import counts.
#[derive(Debug, Clone, Copy, Default, PartialEq, Eq)]
pub struct GamelistImportStats {
    pub matched: u64,
    pub unmatched: u64,
}

pub struct EntryView {
    pub path: Seq<char>,
    pub name: Option<Seq<char>>,
    pub desc: Option<Seq<char>>,
    pub genre: Option<Seq<char>>,
    pub developer: Option<Seq<char>>,
    pub publisher: Option<Seq<char>>,
    pub releasedate: Option<Seq<char>>,
    pub players: Option<Seq<char>>,
    pub rating: Option<Seq<char>>,
    pub image: Option<Seq<char>>,
    pub marquee: Option<Seq<char>>,
    pub video: Option<Seq<char>>,
    pub favorite: bool,
    pub hidden: bool,
}

pub open spec fn entry_view(e: GamelistEntry) -> EntryView {
    EntryView {
        path: e.path@,
        name: opt_view(e.name),
        desc: opt_view(e.desc),
        genre: opt_view(e.genre),
        developer: opt_view(e.developer),
        publisher: opt_view(e.publisher),
        releasedate: opt_view(e.releasedate),
        players: opt_view(e.players),
        rating: opt_view(e.rating),
        image: opt_view(e.image),
        marquee: opt_view(e.marquee),
        video: opt_view(e.video),
        favorite: e.favorite,
        hidden: e.hidden,
    }
}

pub open spec fn entries_view(v: Seq<GamelistEntry>) -> Seq<EntryView> {
    v.map_values(|e: GamelistEntry| entry_view(e))
}

pub open spec fn empty_entry() -> EntryView {
    EntryView {
        path: Seq::empty(),
        name: None,
        desc: None,
        genre: None,
        developer: None,
        publisher: None,
        releasedate: None,
        players: None,
        rating: None,
        image: None,
        marquee: None,
        video: None,
        favorite: false,
        hidden: false,
    }
}

// ---------------------------------------------------------------------
// Field values
// ---------------------------------------------------------------------

/// A mantissa of a float literal: digits with at most one `.`, and at
/// least one digit.
pub open spec fn is_mantissa(m: Seq<char>) -> bool {
    match find_from(m, '.', 0) {
        None => m.len() > 0 && all_digits(m),
        Some(i) => all_digits(m.take(i)) && all_digits(m.skip(i + 1)) && m.len() > 1,
    }
}

/// A decimal float literal (lowercase): mantissa, then optionally `e`, an
/// optional sign and digits.
pub open spec fn is_decimal(l: Seq<char>) -> bool {
    match find_from(l, 'e', 0) {
        None => is_mantissa(l),
        Some(i) => {
            let x = l.skip(i + 1);
            let y = x.skip(sign_len(x));
            is_mantissa(l.take(i)) && y.len() > 0 && all_digits(y)
        },
    }
}

/// `f64::from_str` accepts `s`: an optional sign, then `inf`, `infinity`,
/// `nan` or a decimal literal, letters in any case.
pub open spec fn parses_f64(s: Seq<char>) -> bool {
    let l = ascii_lower_seq(s.skip(sign_len(s)));
    l == "inf"@ || l == "infinity"@ || l == "nan"@ || is_decimal(l)
}

fn all_digits_exec(s: &[char]) -> (b: bool)
    ensures
        b == all_digits(s@),
{
    digits_from(s, 0)
}

fn is_mantissa_exec(m: &[char]) -> (b: bool)
    ensures
        b == is_mantissa(m@),
{
    let n = m.len();
    match find_char(m, '.', 0) {
        None => n > 0 && all_digits_exec(m),
        Some(i) => {
            proof {
                lemma_find_from(m@, '.', 0);
            }
            let a = copy_range(m, 0, i);
            let b = copy_range(m, i + 1, n);
            proof {
                assert(a@ =~= m@.take(i as int));
                assert(b@ =~= m@.skip(i + 1));
            }
            all_digits_exec(a.as_slice()) && all_digits_exec(b.as_slice()) && n > 1
        },
    }
}

fn is_decimal_exec(l: &[char]) -> (b: bool)
    ensures
        b == is_decimal(l@),
{
    let n = l.len();
    match find_char(l, 'e', 0) {
        None => is_mantissa_exec(l),
        Some(i) => {
            proof {
                lemma_find_from(l@, 'e', 0);
            }
            let m = copy_range(l, 0, i);
            let x = copy_range(l, i + 1, n);
            proof {
                assert(m@ =~= l@.take(i as int));
                assert(x@ =~= l@.skip(i + 1));
            }
            let xn = x.len();
            let s: usize = if xn > 0 && (x[0] == '+' || x[0] == '-') {
                1
            } else {
                0
            };
            let y = copy_range(x.as_slice(), s, xn);
            proof {
                assert(y@ =~= x@.skip(sign_len(x@)));
            }
            is_mantissa_exec(m.as_slice()) && y.len() > 0 && all_digits_exec(y.as_slice())
        },
    }
}

pub fn parses_f64_exec(s: &[char]) -> (b: bool)
    ensures
        b == parses_f64(s@),
{
    let n = s.len();
    let st: usize = if n > 0 && (s[0] == '+' || s[0] == '-') {
        1
    } else {
        0
    };
    let body = copy_range(s, st, n);
    proof {
        assert(body@ =~= s@.skip(sign_len(s@)));
    }
    let l = to_ascii_lower_chars(body.as_slice());
    chars_eq_str(l.as_slice(), "inf") || chars_eq_str(l.as_slice(), "infinity")
        || chars_eq_str(l.as_slice(), "nan") || is_decimal_exec(l.as_slice())
}

/// `true` (any case) or `1`.
pub open spec fn is_truthy(v: Seq<char>) -> bool {
    ascii_lower_seq(v) == "true"@ || v == "1"@
}

fn is_truthy_exec(v: &[char]) -> (b: bool)
    ensures
        b == is_truthy(v@),
{
    let l = to_ascii_lower_chars(v);
    chars_eq_str(l.as_slice(), "true") || chars_eq_str(v, "1")
}

/// An optional field set only by a non-empty value.
pub open spec fn set_opt(slot: Option<Seq<char>>, value: Seq<char>) -> Option<Seq<char>> {
    if value.len() > 0 {
        Some(value)
    } else {
        slot
    }
}

/// The entry after element `field` closed with `value`; unknown elements
/// change nothing.
pub open spec fn assign_field(e: EntryView, field: Seq<char>, value: Seq<char>) -> EntryView {
    if field == "path"@ {
        EntryView { path: value, ..e }
    } else if field == "name"@ {
        EntryView { name: set_opt(e.name, value), ..e }
    } else if field == "desc"@ {
        EntryView { desc: set_opt(e.desc, value), ..e }
    } else if field == "genre"@ {
        EntryView { genre: set_opt(e.genre, value), ..e }
    } else if field == "developer"@ {
        EntryView { developer: set_opt(e.developer, value), ..e }
    } else if field == "publisher"@ {
        EntryView { publisher: set_opt(e.publisher, value), ..e }
    } else if field == "releasedate"@ {
        EntryView { releasedate: set_opt(e.releasedate, value), ..e }
    } else if field == "players"@ {
        EntryView { players: set_opt(e.players, value), ..e }
    } else if field == "rating"@ {
        if parses_f64(value) {
            EntryView { rating: Some(value), ..e }
        } else {
            e
        }
    } else if field == "image"@ {
        EntryView { image: set_opt(e.image, value), ..e }
    } else if field == "marquee"@ {
        EntryView { marquee: set_opt(e.marquee, value), ..e }
    } else if field == "video"@ {
        EntryView { video: set_opt(e.video, value), ..e }
    } else if field == "favorite"@ {
        EntryView { favorite: is_truthy(value), ..e }
    } else if field == "hidden"@ {
        EntryView { hidden: is_truthy(value), ..e }
    } else {
        e
    }
}

/// The element names that carry an optional text field of an entry.
pub open spec fn is_text_tag(tag: Seq<char>) -> bool {
    ||| tag == "name"@
    ||| tag == "desc"@
    ||| tag == "genre"@
    ||| tag == "developer"@
    ||| tag == "publisher"@
    ||| tag == "releasedate"@
    ||| tag == "players"@
    ||| tag == "image"@
    ||| tag == "marquee"@
    ||| tag == "video"@
}

/// The optional text field of an entry that the element `tag` names.
pub open spec fn text_field(e: EntryView, tag: Seq<char>) -> Option<Seq<char>> {
    if tag == "name"@ {
        e.name
    } else if tag == "desc"@ {
        e.desc
    } else if tag == "genre"@ {
        e.genre
    } else if tag == "developer"@ {
        e.developer
    } else if tag == "publisher"@ {
        e.publisher
    } else if tag == "releasedate"@ {
        e.releasedate
    } else if tag == "players"@ {
        e.players
    } else if tag == "image"@ {
        e.image
    } else if tag == "marquee"@ {
        e.marquee
    } else if tag == "video"@ {
        e.video
    } else {
        None
    }
}

/// Each known text element fills the field of its own name: a non-empty
/// value becomes that field, an empty one changes nothing, and every other
/// field (the path, the rating and the flags included) stays as it was.
pub proof fn law_text_element_fills_its_field(e: EntryView, tag: Seq<char>, v: Seq<char>)
    requires
        is_text_tag(tag),
    ensures
        v.len() > 0 ==> text_field(assign_field(e, tag, v), tag) == Some(v),
        v.len() == 0 ==> assign_field(e, tag, v) == e,
        forall|u: Seq<char>|
            is_text_tag(u) && u != tag ==> #[trigger] text_field(assign_field(e, tag, v), u)
                == text_field(e, u),
        assign_field(e, tag, v).path == e.path,
        assign_field(e, tag, v).rating == e.rating,
        assign_field(e, tag, v).favorite == e.favorite,
        assign_field(e, tag, v).hidden == e.hidden,
{
    lemma_tags_distinct();
}

fn set_opt_exec(slot: &mut Option<String>, value: &Vec<char>)
    ensures
        opt_view(*final(slot)) == set_opt(opt_view(*old(slot)), value@),
{
    if value.len() > 0 {
        *slot = Some(string_of(value));
    }
}

fn assign_field_exec(e: &mut GamelistEntry, field: &[char], value: &Vec<char>)
    ensures
        entry_view(*final(e)) == assign_field(entry_view(*old(e)), field@, value@),
{
    if chars_eq_str(field, "path") {
        e.path = string_of(value);
    } else if chars_eq_str(field, "name") {
        set_opt_exec(&mut e.name, value);
    } else if chars_eq_str(field, "desc") {
        set_opt_exec(&mut e.desc, value);
    } else if chars_eq_str(field, "genre") {
        set_opt_exec(&mut e.genre, value);
    } else if chars_eq_str(field, "developer") {
        set_opt_exec(&mut e.developer, value);
    } else if chars_eq_str(field, "publisher") {
        set_opt_exec(&mut e.publisher, value);
    } else if chars_eq_str(field, "releasedate") {
        set_opt_exec(&mut e.releasedate, value);
    } else if chars_eq_str(field, "players") {
        set_opt_exec(&mut e.players, value);
    } else if chars_eq_str(field, "rating") {
        if parses_f64_exec(value.as_slice()) {
            e.rating = Some(string_of(value));
        }
    } else if chars_eq_str(field, "image") {
        set_opt_exec(&mut e.image, value);
    } else if chars_eq_str(field, "marquee") {
        set_opt_exec(&mut e.marquee, value);
    } else if chars_eq_str(field, "video") {
        set_opt_exec(&mut e.video, value);
    } else if chars_eq_str(field, "favorite") {
        e.favorite = is_truthy_exec(value.as_slice());
    } else if chars_eq_str(field, "hidden") {
        e.hidden = is_truthy_exec(value.as_slice());
    }
}

// ---------------------------------------------------------------------
// Reading
// ---------------------------------------------------------------------

/// The state of a gamelist read: finished entries, `<gameList>` nesting
/// depth, the open `<game>`, the elements open inside it, and the text
/// collected since the last one opened.
pub struct GlState {
    pub entries: Seq<EntryView>,
    pub depth: nat,
    pub current: Option<EntryView>,
    pub stack: Seq<Seq<char>>,
    pub text: Seq<char>,
}

pub open spec fn gl_step(s: GlState, e: XmlEventView) -> GlState {
    match e {
        XmlEventView::Start(t) => {
            let l = local_name(t.name);
            let s1 = if l == "gameList"@ {
                GlState { depth: s.depth + 1, ..s }
            } else if s.depth > 0 && l == "game"@ && s.current is None {
                GlState { current: Some(empty_entry()), ..s }
            } else {
                s
            };
            if s1.current is Some {
                GlState { stack: s1.stack.push(l), text: Seq::empty(), ..s1 }
            } else {
                s1
            }
        },
        XmlEventView::Empty(t) => {
            let l = local_name(t.name);
            if s.depth > 0 && l == "game"@ && s.current is None {
                s
            } else {
                match s.current {
                    Some(c) => GlState { current: Some(assign_field(c, l, Seq::empty())), ..s },
                    None => s,
                }
            }
        },
        XmlEventView::Text(x) => if s.current is Some {
            GlState { text: s.text + x, ..s }
        } else {
            s
        },
        XmlEventView::CData(x) => if s.current is Some {
            GlState { text: s.text + x, ..s }
        } else {
            s
        },
        XmlEventView::End(n) => {
            let l = local_name(n);
            let s1 = if l == "gameList"@ {
                GlState { depth: if s.depth > 0 { (s.depth - 1) as nat } else { 0 }, ..s }
            } else {
                s
            };
            if l == "game"@ {
                GlState {
                    entries: match s1.current {
                        Some(c) => if c.path.len() > 0 {
                            s1.entries.push(c)
                        } else {
                            s1.entries
                        },
                        None => s1.entries,
                    },
                    current: None,
                    stack: Seq::empty(),
                    text: Seq::empty(),
                    ..s1
                }
            } else if s1.current is Some && s1.stack.len() > 0 && s1.stack.last() == l {
                GlState {
                    stack: s1.stack.drop_last(),
                    text: Seq::empty(),
                    current: Some(assign_field(s1.current->0, l, trim(s1.text))),
                    ..s1
                }
            } else {
                s1
            }
        },
        XmlEventView::Other => s,
    }
}

pub open spec fn gl_fold(s: GlState, events: Seq<XmlEventView>) -> GlState
    decreases events.len(),
{
    if events.len() == 0 {
        s
    } else {
        gl_step(gl_fold(s, events.drop_last()), events.last())
    }
}

pub open spec fn gl_start() -> GlState {
    GlState {
        entries: Seq::empty(),
        depth: 0,
        current: None,
        stack: Seq::empty(),
        text: Seq::empty(),
    }
}

/// The entries of a gamelist document read as `events`.
pub open spec fn gamelist_entries(events: Seq<XmlEventView>) -> Seq<EntryView> {
    gl_fold(gl_start(), events).entries
}

struct GlReader {
    entries: Vec<GamelistEntry>,
    depth: u64,
    current: Option<GamelistEntry>,
    stack: Vec<Vec<char>>,
    text: Vec<char>,
}

impl GlReader {
    spec fn view_state(&self) -> GlState {
        GlState {
            entries: entries_view(self.entries@),
            depth: self.depth as nat,
            current: match self.current {
                Some(c) => Some(entry_view(c)),
                None => None,
            },
            stack: self.stack@.map_values(|v: Vec<char>| v@),
            text: self.text@,
        }
    }

    fn new_entry() -> (e: GamelistEntry)
        ensures
            entry_view(e) == empty_entry(),
    {
        let p: Vec<char> = Vec::new();
        proof {
            assert(p@ =~= Seq::<char>::empty());
        }
        GamelistEntry {
            path: string_of(&p),
            name: None,
            desc: None,
            genre: None,
            developer: None,
            publisher: None,
            releasedate: None,
            players: None,
            rating: None,
            image: None,
            marquee: None,
            video: None,
            favorite: false,
            hidden: false,
        }
    }

    fn clear_text(&mut self)
        ensures
            final(self).view_state() == (GlState { text: Seq::empty(), ..old(self).view_state() }),
    {
        self.text = Vec::new();
        proof {
            assert(self.text@ =~= Seq::<char>::empty());
        }
    }

    fn step(&mut self, e: &XmlEvent, bound: u64)
        requires
            old(self).depth < bound,
        ensures
            final(self).depth <= old(self).depth + 1,
            final(self).view_state() == gl_step(old(self).view_state(), crate::metadata::xml::event_view(*e)),
    {
        match e {
            XmlEvent::Start(t) => {
                let l = local_name_exec(t.name.as_str());
                if chars_eq_str(l.as_slice(), "gameList") {
                    self.depth = self.depth + 1;
                } else if self.depth > 0 && chars_eq_str(l.as_slice(), "game")
                    && self.current.is_none() {
                    self.current = Some(Self::new_entry());
                }
                if self.current.is_some() {
                    let ghost st0 = self.stack@;
                    self.stack.push(l);
                    proof {
                        assert(self.stack@.map_values(|v: Vec<char>| v@) =~= st0.map_values(
                            |v: Vec<char>| v@,
                        ).push(l@));
                    }
                    self.clear_text();
                }
            },
            XmlEvent::Empty(t) => {
                let l = local_name_exec(t.name.as_str());
                if self.depth > 0 && chars_eq_str(l.as_slice(), "game") && self.current.is_none() {
                } else {
                    let empty: Vec<char> = Vec::new();
                    proof {
                        assert(empty@ =~= Seq::<char>::empty());
                    }
                    match &mut self.current {
                        Some(c) => assign_field_exec(c, l.as_slice(), &empty),
                        None => {},
                    }
                }
            },
            XmlEvent::Text(x) => {
                if self.current.is_some() {
                    push_str(&mut self.text, x.as_str());
                }
            },
            XmlEvent::CData(x) => {
                if self.current.is_some() {
                    push_str(&mut self.text, x.as_str());
                }
            },
            XmlEvent::End(n) => {
                let l = local_name_exec(n.as_str());
                if chars_eq_str(l.as_slice(), "gameList") {
                    if self.depth > 0 {
                        self.depth = self.depth - 1;
                    }
                }
                if chars_eq_str(l.as_slice(), "game") {
                    match self.current.take() {
                        Some(c) => {
                            if chars_of(c.path.as_str()).len() > 0 {
                                let ghost e0 = self.entries@;
                                self.entries.push(c);
                                proof {
                                    assert(entries_view(self.entries@) =~= entries_view(e0).push(
                                        entry_view(c),
                                    ));
                                }
                            }
                        },
                        None => {},
                    }
                    self.stack = Vec::new();
                    proof {
                        assert(self.stack@.map_values(|v: Vec<char>| v@) =~= Seq::<
                            Seq<char>,
                        >::empty());
                    }
                    self.clear_text();
                } else if self.current.is_some() && self.stack.len() > 0 && chars_eq(
                    self.stack[self.stack.len() - 1].as_slice(),
                    l.as_slice(),
                ) {
                    let ghost st0 = self.stack@;
                    self.stack.pop();
                    proof {
                        assert(self.stack@.map_values(|v: Vec<char>| v@) =~= st0.map_values(
                            |v: Vec<char>| v@,
                        ).drop_last());
                    }
                    let value = trim_chars(self.text.as_slice());
                    self.clear_text();
                    match &mut self.current {
                        Some(c) => assign_field_exec(c, l.as_slice(), &value),
                        None => {},
                    }
                }
            },
            XmlEvent::Other => {},
        }
    }
}

/// The entries of a gamelist document given as its events.
pub fn gamelist_from_events(events: &[XmlEvent]) -> (r: Vec<GamelistEntry>)
    ensures
        entries_view(r@) == gamelist_entries(events_view(events@)),
{
    let mut rd = GlReader {
        entries: Vec::new(),
        depth: 0,
        current: None,
        stack: Vec::new(),
        text: Vec::new(),
    };
    proof {
        assert(entries_view(rd.entries@) =~= Seq::<EntryView>::empty());
        assert(rd.stack@.map_values(|v: Vec<char>| v@) =~= Seq::<Seq<char>>::empty());
        assert(rd.text@ =~= Seq::<char>::empty());
        assert(events_view(events@).take(0) =~= Seq::<XmlEventView>::empty());
    }
    let n = events.len();
    let mut i: usize = 0;
    while i < n
        invariant
            i <= n == events@.len(),
            rd.depth <= i,
            rd.view_state() == gl_fold(gl_start(), events_view(events@).take(i as int)),
        decreases n - i,
    {
        rd.step(&events[i], (i as u64) + 1);
        proof {
            let t = events_view(events@).take(i + 1);
            assert(t.drop_last() =~= events_view(events@).take(i as int));
        }
        i += 1;
    }
    proof {
        assert(events_view(events@).take(n as int) =~= events_view(events@));
    }
    rd.entries
}

/// Parses a gamelist document into its `<game>` entries; malformed XML is
/// an error.
pub fn parse_gamelist(xml: &str) -> (r: Result<Vec<GamelistEntry>, GamelistError>)
    ensures
        match xml_events_of(xml@) {
            Ok(evs) => r matches Ok(v) && entries_view(v@) == gamelist_entries(evs),
            Err(m) => r matches Err(GamelistError::Xml(msg)) && msg@ == m,
        },
{
    match read_xml_events(xml) {
        Ok(evs) => Ok(gamelist_from_events(evs.as_slice())),
        Err(m) => Err(GamelistError::Xml(m)),
    }
}


// ---------------------------------------------------------------------
// Paths between a gamelist and the index
// ---------------------------------------------------------------------

/// `s` without leading `/`s.
pub open spec fn trim_start_slashes(s: Seq<char>) -> Seq<char>
    decreases s.len(),
{
    if s.len() > 0 && s[0] == '/' {
        trim_start_slashes(s.drop_first())
    } else {
        s
    }
}

/// `s` without trailing `/`s.
pub open spec fn trim_end_slashes(s: Seq<char>) -> Seq<char>
    decreases s.len(),
{
    if s.len() > 0 && s.last() == '/' {
        trim_end_slashes(s.drop_last())
    } else {
        s
    }
}

/// `str::trim_matches('/')`.
pub open spec fn trim_slashes(s: Seq<char>) -> Seq<char> {
    trim_end_slashes(trim_start_slashes(s))
}

pub fn trim_slashes_exec(s: &[char]) -> (r: Vec<char>)
    ensures
        r@ == trim_slashes(s@),
{
    let n = s.len();
    let mut a: usize = 0;
    proof {
        assert(s@.skip(0) =~= s@);
    }
    while a < n && s[a] == '/'
        invariant
            a <= n == s@.len(),
            trim_start_slashes(s@) == trim_start_slashes(s@.skip(a as int)),
        decreases n - a,
    {
        proof {
            assert(s@.skip(a as int).drop_first() =~= s@.skip(a + 1));
        }
        a += 1;
    }
    proof {
        assert(trim_start_slashes(s@) == s@.skip(a as int));
        assert(s@.skip(a as int) =~= s@.subrange(a as int, n as int));
    }
    let mut b: usize = n;
    while b > a && s[b - 1] == '/'
        invariant
            a <= b <= n == s@.len(),
            trim_end_slashes(s@.subrange(a as int, n as int)) == trim_end_slashes(
                s@.subrange(a as int, b as int),
            ),
        decreases b - a,
    {
        proof {
            assert(s@.subrange(a as int, b as int).drop_last() =~= s@.subrange(a as int, b - 1));
        }
        b -= 1;
    }
    copy_range(s, a, b)
}

/// The index path (`files.rel_path`) a gamelist entry's `<path>` names:
/// trimmed, `\` read as `/`, one leading `./` dropped, and placed under
/// the gamelist's own directory (relative to the library root).
pub open spec fn normalize_rel_path_spec(dir: Seq<char>, raw: Seq<char>) -> Seq<char> {
    let r = forward_slashes(trim(raw));
    let st = if starts_with(r, seq!['.', '/']) {
        r.skip(2)
    } else {
        r
    };
    let d = trim_slashes(dir);
    if d.len() == 0 {
        st
    } else {
        d + seq!['/'] + st
    }
}

pub fn normalize_rel_path(gamelist_rel_dir: &str, raw_path: &str) -> (r: String)
    ensures
        r@ == normalize_rel_path_spec(gamelist_rel_dir@, raw_path@),
{
    let t = trim_chars(chars_of(raw_path).as_slice());
    let r = forward_slashes_exec(t.as_slice());
    let rn = r.len();
    let dot_slash = chars_of("./");
    proof {
        reveal_strlit("./");
        assert(dot_slash@ =~= seq!['.', '/']);
    }
    let st = if starts_with_chars(r.as_slice(), dot_slash.as_slice()) {
        let c = copy_range(r.as_slice(), 2, rn);
        proof {
            assert(c@ =~= r@.skip(2));
        }
        c
    } else {
        r
    };
    let d = trim_slashes_exec(chars_of(gamelist_rel_dir).as_slice());
    if d.len() == 0 {
        string_of(&st)
    } else {
        let mut out = d;
        out.push('/');
        push_all(&mut out, st.as_slice());
        string_of(&out)
    }
}

/// The part of an index path a gamelist in `dir` writes after `./`.
pub open spec fn export_stripped(dir: Seq<char>, rel: Seq<char>) -> Seq<char> {
    let d = trim_slashes(dir);
    if d.len() == 0 {
        rel
    } else if starts_with(rel, d + seq!['/']) {
        rel.skip(d.len() as int + 1)
    } else {
        rel
    }
}

/// The `<path>` a gamelist in `dir` writes for index path `rel`: the
/// gamelist's directory prefix removed, in `./`-relative form.
pub open spec fn export_path_spec(dir: Seq<char>, rel: Seq<char>) -> Seq<char> {
    seq!['.', '/'] + export_stripped(dir, rel)
}

pub fn export_path(gamelist_rel_dir: &str, rel_path: &str) -> (r: String)
    ensures
        r@ == export_path_spec(gamelist_rel_dir@, rel_path@),
{
    let d = trim_slashes_exec(chars_of(gamelist_rel_dir).as_slice());
    let rel = chars_of(rel_path);
    let rn = rel.len();
    let st = if d.len() == 0 {
        rel
    } else {
        let mut prefix = copy_range(d.as_slice(), 0, d.len());
        prefix.push('/');
        proof {
            assert(prefix@ =~= d@ + seq!['/']);
        }
        if starts_with_chars(rel.as_slice(), prefix.as_slice()) {
            let c = copy_range(rel.as_slice(), prefix.len(), rn);
            proof {
                assert(c@ =~= rel@.skip(d@.len() as int + 1));
            }
            c
        } else {
            rel
        }
    };
    let mut out: Vec<char> = Vec::new();
    out.push('.');
    out.push('/');
    push_all(&mut out, st.as_slice());
    proof {
        assert(out@ =~= seq!['.', '/'] + st@);
    }
    string_of(&out)
}

proof fn lemma_gl_fold_paths(events: Seq<XmlEventView>)
    ensures
        forall|i: int|
            0 <= i < gl_fold(gl_start(), events).entries.len() ==> (#[trigger] gl_fold(
                gl_start(),
                events,
            ).entries[i]).path.len() > 0,
    decreases events.len(),
{
    if events.len() > 0 {
        lemma_gl_fold_paths(events.drop_last());
    }
}

/// A `<game>` without a `<path>` is dropped: every entry read has a
/// non-empty path, whatever the document.
pub proof fn law_entries_have_paths(events: Seq<XmlEventView>)
    ensures
        forall|i: int|
            0 <= i < gamelist_entries(events).len() ==> (#[trigger] gamelist_entries(events)[i]).path.len() > 0,
{
    lemma_gl_fold_paths(events);
}

/// Whether an event opens a `<gameList>`.
pub open spec fn opens_game_list(e: XmlEventView) -> bool {
    e matches XmlEventView::Start(t) && local_name(t.name) == "gameList"@
}

proof fn lemma_no_game_list(events: Seq<XmlEventView>)
    requires
        forall|k: int| 0 <= k < events.len() ==> !opens_game_list(#[trigger] events[k]),
    ensures
        gl_fold(gl_start(), events).entries.len() == 0,
        gl_fold(gl_start(), events).depth == 0,
        gl_fold(gl_start(), events).current is None,
    decreases events.len(),
{
    if events.len() > 0 {
        let p = events.drop_last();
        assert forall|k: int| 0 <= k < p.len() implies !opens_game_list(#[trigger] p[k]) by {
            assert(p[k] == events[k]);
        }
        lemma_no_game_list(p);
        assert(!opens_game_list(events[events.len() - 1]));
    }
}

/// Only `<game>` elements inside a `<gameList>` are read: a document that
/// never opens a `<gameList>` has no entries.
pub proof fn law_games_only_inside_game_list(events: Seq<XmlEventView>)
    requires
        forall|k: int| 0 <= k < events.len() ==> !opens_game_list(#[trigger] events[k]),
    ensures
        gamelist_entries(events).len() == 0,
{
    lemma_no_game_list(events);
}

/// Reading back the `<path>` the exporter writes gives the index path:
/// for every index path under the gamelist's directory (or any path, for
/// a gamelist at the library root) whose written part holds no `\` and
/// does not end in whitespace.
pub proof fn law_export_path_inverts_normalize(dir: Seq<char>, rel: Seq<char>)
    requires
        trim_slashes(dir).len() == 0 || starts_with(rel, trim_slashes(dir) + seq!['/']),
        !export_stripped(dir, rel).contains('\\'),
        export_stripped(dir, rel).len() == 0 || !crate::text::is_ws(export_stripped(dir, rel).last()),
    ensures
        normalize_rel_path_spec(dir, export_path_spec(dir, rel)) == rel,
{
    let st = export_stripped(dir, rel);
    let x = seq!['.', '/'] + st;
    lemma_trim_dot_slash(st);
    assert(trim(x) == x);
    assert forall|i: int| 0 <= i < x.len() implies x[i] != '\\' by {
        if i >= 2 {
            assert(x[i] == st[i - 2]);
        }
    }
    assert(forward_slashes(x) =~= x);
    assert(x.take(2) =~= seq!['.', '/']);
    assert(x.skip(2) =~= st);
    let d = trim_slashes(dir);
    if d.len() > 0 {
        assert(rel.take(d.len() as int + 1) == d + seq!['/']);
        assert(d + seq!['/'] + rel.skip(d.len() as int + 1) =~= rel);
    }
}

/// Trimming `./` followed by text without trailing whitespace changes
/// nothing.
proof fn lemma_trim_dot_slash(st: Seq<char>)
    requires
        st.len() == 0 || !crate::text::is_ws(st.last()),
    ensures
        trim(seq!['.', '/'] + st) == seq!['.', '/'] + st,
{
    let x = seq!['.', '/'] + st;
    assert(!crate::text::is_ws('.'));
    assert(crate::text::trim_start(x) == x);
    assert(x.last() != ' ');
    if st.len() == 0 {
        assert(x.last() == '/');
        assert(!crate::text::is_ws('/'));
    } else {
        assert(x.last() == st.last());
    }
}

// ---------------------------------------------------------------------
// Writing
// ---------------------------------------------------------------------

/// One game of a system as the exporter reads it from the index: its file,
/// names, `source = 'gamelist'` metadata (when any) and user flags. The
/// rating is already formatted as text.
pub struct ExportRow {
    pub rel_path: String,
    pub canonical_name: String,
    pub title: Option<String>,
    pub desc: Option<String>,
    pub genre: Option<String>,
    pub developer: Option<String>,
    pub publisher: Option<String>,
    pub release_date: Option<String>,
    pub players: Option<String>,
    pub rating: Option<String>,
    pub favorite: bool,
    pub hidden: bool,
}

/// `<tag>value</tag>`.
pub open spec fn field_events(tag: Seq<char>, v: Seq<char>) -> Seq<XmlOutView> {
    seq![XmlOutView::Start(tag), XmlOutView::Text(v), XmlOutView::End(tag)]
}

/// The field when present.
pub open spec fn opt_field_events(tag: Seq<char>, o: Option<Seq<char>>) -> Seq<XmlOutView> {
    match o {
        Some(v) => field_events(tag, v),
        None => Seq::empty(),
    }
}

/// The field `true` when the flag is set.
pub open spec fn flag_events(tag: Seq<char>, b: bool) -> Seq<XmlOutView> {
    if b {
        field_events(tag, "true"@)
    } else {
        Seq::empty()
    }
}

/// The name and path fields of a row: the gamelist title, else the
/// indexed name.
pub open spec fn row_head(dir: Seq<char>, r: ExportRow) -> Seq<XmlOutView> {
    field_events("path"@, export_path_spec(dir, r.rel_path@)) + field_events(
        "name"@,
        match r.title {
            Some(t) => t@,
            None => r.canonical_name@,
        },
    )
}

/// The metadata fields that are present, in `gamelist.xml` order.
pub open spec fn row_meta(r: ExportRow) -> Seq<XmlOutView> {
    opt_field_events("desc"@, opt_view(r.desc)) + opt_field_events("genre"@, opt_view(r.genre))
        + opt_field_events("developer"@, opt_view(r.developer)) + opt_field_events(
        "publisher"@,
        opt_view(r.publisher),
    ) + opt_field_events("releasedate"@, opt_view(r.release_date)) + opt_field_events(
        "players"@,
        opt_view(r.players),
    ) + opt_field_events("rating"@, opt_view(r.rating))
}

/// The flags that are set.
pub open spec fn row_flags(r: ExportRow) -> Seq<XmlOutView> {
    flag_events("favorite"@, r.favorite) + flag_events("hidden"@, r.hidden)
}

/// The `<game>` element of one row: path and name, then the metadata that
/// is present, then the flags that are set.
pub open spec fn row_events(dir: Seq<char>, r: ExportRow) -> Seq<XmlOutView> {
    seq![XmlOutView::Start("game"@)] + row_head(dir, r) + row_meta(r) + row_flags(r) + seq![
        XmlOutView::End("game"@),
    ]
}

pub open spec fn rows_events(dir: Seq<char>, rows: Seq<ExportRow>) -> Seq<XmlOutView>
    decreases rows.len(),
{
    if rows.len() == 0 {
        Seq::empty()
    } else {
        rows_events(dir, rows.drop_last()) + row_events(dir, rows.last())
    }
}

/// The events of a system's gamelist: declaration, then `<gameList>` with
/// one `<game>` per row, in row order.
pub open spec fn export_events(dir: Seq<char>, rows: Seq<ExportRow>) -> Seq<XmlOutView> {
    seq![XmlOutView::Decl, XmlOutView::Start("gameList"@)] + rows_events(dir, rows) + seq![
        XmlOutView::End("gameList"@),
    ]
}

fn push_out(out: &mut Vec<XmlOut>, e: XmlOut)
    ensures
        outs_view(final(out)@) == outs_view(old(out)@).push(crate::metadata::xml::out_view(e)),
{
    let ghost o = out@;
    out.push(e);
    proof {
        assert(outs_view(out@) =~= outs_view(o).push(crate::metadata::xml::out_view(e)));
    }
}

fn own(s: &str) -> (r: String)
    ensures
        r@ == s@,
{
    string_of(&chars_of(s))
}

fn push_field(out: &mut Vec<XmlOut>, tag: &str, value: &str)
    ensures
        outs_view(final(out)@) == outs_view(old(out)@) + field_events(tag@, value@),
{
    push_out(out, XmlOut::Start(own(tag)));
    push_out(out, XmlOut::Text(own(value)));
    push_out(out, XmlOut::End(own(tag)));
    proof {
        assert(outs_view(out@) =~= outs_view(old(out)@) + field_events(tag@, value@));
    }
}

fn push_opt_field(out: &mut Vec<XmlOut>, tag: &str, value: &Option<String>)
    ensures
        outs_view(final(out)@) == outs_view(old(out)@) + opt_field_events(tag@, opt_view(*value)),
{
    match value {
        Some(v) => push_field(out, tag, v.as_str()),
        None => {
            proof {
                assert(outs_view(out@) + Seq::<XmlOutView>::empty() =~= outs_view(out@));
            }
        },
    }
}

fn push_flag(out: &mut Vec<XmlOut>, tag: &str, b: bool)
    ensures
        outs_view(final(out)@) == outs_view(old(out)@) + flag_events(tag@, b),
{
    if b {
        push_field(out, tag, "true");
    } else {
        proof {
            assert(outs_view(out@) + Seq::<XmlOutView>::empty() =~= outs_view(out@));
        }
    }
}

fn push_meta(out: &mut Vec<XmlOut>, r: &ExportRow)
    ensures
        outs_view(final(out)@) == outs_view(old(out)@) + row_meta(*r),
{
    let ghost o = outs_view(out@);
    push_opt_field(out, "desc", &r.desc);
    let ghost o1 = outs_view(out@);
    push_opt_field(out, "genre", &r.genre);
    let ghost o2 = outs_view(out@);
    push_opt_field(out, "developer", &r.developer);
    let ghost o3 = outs_view(out@);
    push_opt_field(out, "publisher", &r.publisher);
    let ghost o4 = outs_view(out@);
    push_opt_field(out, "releasedate", &r.release_date);
    let ghost o5 = outs_view(out@);
    push_opt_field(out, "players", &r.players);
    let ghost o6 = outs_view(out@);
    push_opt_field(out, "rating", &r.rating);
    proof {
        let a = opt_field_events("desc"@, opt_view(r.desc));
        let b = opt_field_events("genre"@, opt_view(r.genre));
        let c = opt_field_events("developer"@, opt_view(r.developer));
        let d = opt_field_events("publisher"@, opt_view(r.publisher));
        let e = opt_field_events("releasedate"@, opt_view(r.release_date));
        let f = opt_field_events("players"@, opt_view(r.players));
        let g = opt_field_events("rating"@, opt_view(r.rating));
        assert(o2 =~= o + (a + b));
        assert(o3 =~= o + (a + b + c));
        assert(o4 =~= o + (a + b + c + d));
        assert(o5 =~= o + (a + b + c + d + e));
        assert(o6 =~= o + (a + b + c + d + e + f));
        assert(outs_view(out@) =~= o + (a + b + c + d + e + f + g));
    }
}

fn push_row(out: &mut Vec<XmlOut>, dir: &str, r: &ExportRow)
    ensures
        outs_view(final(out)@) == outs_view(old(out)@) + row_events(dir@, *r),
{
    let ghost o = outs_view(out@);
    push_out(out, XmlOut::Start(own("game")));
    let ghost o1 = outs_view(out@);
    let p = export_path(dir, r.rel_path.as_str());
    push_field(out, "path", p.as_str());
    match &r.title {
        Some(t) => push_field(out, "name", t.as_str()),
        None => push_field(out, "name", r.canonical_name.as_str()),
    }
    let ghost o2 = outs_view(out@);
    proof {
        assert(o2 =~= o1 + row_head(dir@, *r));
    }
    push_meta(out, r);
    let ghost o3 = outs_view(out@);
    push_flag(out, "favorite", r.favorite);
    push_flag(out, "hidden", r.hidden);
    let ghost o4 = outs_view(out@);
    proof {
        assert(o4 =~= o3 + row_flags(*r));
    }
    push_out(out, XmlOut::End(own("game")));
    proof {
        assert(outs_view(out@) =~= o + row_events(dir@, *r));
    }
}

/// The events of a system's gamelist for `rows` (in the index's
/// sort-name order), paths relative to `gamelist_rel_dir`.
pub fn export_gamelist_events(rows: &[ExportRow], gamelist_rel_dir: &str) -> (r: Vec<XmlOut>)
    ensures
        outs_view(r@) == export_events(gamelist_rel_dir@, rows@),
{
    let mut out: Vec<XmlOut> = Vec::new();
    push_out(&mut out, XmlOut::Decl);
    push_out(&mut out, XmlOut::Start(own("gameList")));
    let ghost head = outs_view(out@);
    proof {
        assert(rows@.take(0) =~= Seq::<ExportRow>::empty());
        assert(head + rows_events(gamelist_rel_dir@, rows@.take(0)) =~= head);
    }
    let mut i: usize = 0;
    while i < rows.len()
        invariant
            i <= rows@.len(),
            head == seq![XmlOutView::Decl, XmlOutView::Start("gameList"@)],
            outs_view(out@) == head + rows_events(gamelist_rel_dir@, rows@.take(i as int)),
        decreases rows.len() - i,
    {
        push_row(&mut out, gamelist_rel_dir, &rows[i]);
        proof {
            let t = rows@.take(i + 1);
            assert(t.drop_last() =~= rows@.take(i as int));
            assert(outs_view(out@) =~= head + rows_events(gamelist_rel_dir@, t));
        }
        i += 1;
    }
    push_out(&mut out, XmlOut::End(own("gameList")));
    proof {
        assert(rows@.take(rows@.len() as int) =~= rows@);
        assert(outs_view(out@) =~= export_events(gamelist_rel_dir@, rows@));
    }
    out
}

// ---------------------------------------------------------------------
// Reading back what was written
// ---------------------------------------------------------------------

/// A field when present.
pub open spec fn opt_field(tag: Seq<char>, o: Option<Seq<char>>) -> Seq<(Seq<char>, Seq<char>)> {
    match o {
        Some(v) => seq![(tag, v)],
        None => Seq::empty(),
    }
}

/// The field `true` when the flag is set.
pub open spec fn flag_field(tag: Seq<char>, b: bool) -> Seq<(Seq<char>, Seq<char>)> {
    if b {
        seq![(tag, "true"@)]
    } else {
        Seq::empty()
    }
}

/// The path and name fields of a row.
pub open spec fn head_fields(dir: Seq<char>, r: ExportRow) -> Seq<(Seq<char>, Seq<char>)> {
    seq![
        ("path"@, export_path_spec(dir, r.rel_path@)),
        (
            "name"@,
            match r.title {
                Some(t) => t@,
                None => r.canonical_name@,
            },
        ),
    ]
}

/// The metadata fields of a row that are present.
pub open spec fn meta_fields(r: ExportRow) -> Seq<(Seq<char>, Seq<char>)> {
    opt_field("desc"@, opt_view(r.desc)) + opt_field("genre"@, opt_view(r.genre)) + opt_field(
        "developer"@,
        opt_view(r.developer),
    ) + opt_field("publisher"@, opt_view(r.publisher)) + opt_field(
        "releasedate"@,
        opt_view(r.release_date),
    ) + opt_field("players"@, opt_view(r.players)) + opt_field("rating"@, opt_view(r.rating))
}

/// The flag fields of a row that are set.
pub open spec fn flag_fields(r: ExportRow) -> Seq<(Seq<char>, Seq<char>)> {
    flag_field("favorite"@, r.favorite) + flag_field("hidden"@, r.hidden)
}

/// The `(element, text)` fields the exporter writes for a row, in order.
pub open spec fn row_fields(dir: Seq<char>, r: ExportRow) -> Seq<(Seq<char>, Seq<char>)> {
    head_fields(dir, r) + meta_fields(r) + flag_fields(r)
}

pub open spec fn rows_fields(dir: Seq<char>, rows: Seq<ExportRow>) -> Seq<Seq<(Seq<char>, Seq<char>)>> {
    rows.map_values(|r: ExportRow| row_fields(dir, r))
}

proof fn lemma_fields_out_concat(a: Seq<(Seq<char>, Seq<char>)>, b: Seq<(Seq<char>, Seq<char>)>)
    ensures
        fields_out(a + b) == fields_out(a) + fields_out(b),
    decreases b.len(),
{
    if b.len() == 0 {
        assert(a + b =~= a);
        assert(fields_out(a) + fields_out(b) =~= fields_out(a));
    } else {
        lemma_fields_out_concat(a, b.drop_last());
        assert((a + b).drop_last() =~= a + b.drop_last());
        assert((a + b).last() == b.last());
        assert(fields_out(a) + fields_out(b) =~= fields_out(a) + fields_out(b.drop_last()) + field_out(
            b.last(),
        ));
    }
}

proof fn lemma_fields_out_one(f: (Seq<char>, Seq<char>))
    ensures
        fields_out(seq![f]) == field_out(f),
{
    assert(seq![f].drop_last() =~= Seq::<(Seq<char>, Seq<char>)>::empty());
    assert(fields_out(Seq::<(Seq<char>, Seq<char>)>::empty()) =~= Seq::<XmlOutView>::empty());
    assert(seq![f].last() == f);
    assert(Seq::<XmlOutView>::empty() + field_out(f) =~= field_out(f));
}

proof fn lemma_opt_field_out(tag: Seq<char>, o: Option<Seq<char>>)
    ensures
        fields_out(opt_field(tag, o)) == opt_field_events(tag, o),
{
    match o {
        Some(v) => lemma_fields_out_one((tag, v)),
        None => {},
    }
}

proof fn lemma_flag_field_out(tag: Seq<char>, b: bool)
    ensures
        fields_out(flag_field(tag, b)) == flag_events(tag, b),
{
    if b {
        lemma_fields_out_one((tag, "true"@));
    }
}

proof fn lemma_head_out(dir: Seq<char>, r: ExportRow)
    ensures
        fields_out(head_fields(dir, r)) == row_head(dir, r),
{
    let h = head_fields(dir, r);
    lemma_fields_out_one(h[0]);
    assert(h.drop_last() =~= seq![h[0]]);
    assert(row_head(dir, r) =~= field_out(h[0]) + field_out(h[1]));
}

proof fn lemma_meta_out(r: ExportRow)
    ensures
        fields_out(meta_fields(r)) == row_meta(r),
{
    let f1 = opt_field("desc"@, opt_view(r.desc));
    let f2 = opt_field("genre"@, opt_view(r.genre));
    let f3 = opt_field("developer"@, opt_view(r.developer));
    let f4 = opt_field("publisher"@, opt_view(r.publisher));
    let f5 = opt_field("releasedate"@, opt_view(r.release_date));
    let f6 = opt_field("players"@, opt_view(r.players));
    let f7 = opt_field("rating"@, opt_view(r.rating));
    lemma_fields_out_concat(f1, f2);
    lemma_fields_out_concat(f1 + f2, f3);
    lemma_fields_out_concat(f1 + f2 + f3, f4);
    lemma_fields_out_concat(f1 + f2 + f3 + f4, f5);
    lemma_fields_out_concat(f1 + f2 + f3 + f4 + f5, f6);
    lemma_fields_out_concat(f1 + f2 + f3 + f4 + f5 + f6, f7);
    lemma_opt_field_out("desc"@, opt_view(r.desc));
    lemma_opt_field_out("genre"@, opt_view(r.genre));
    lemma_opt_field_out("developer"@, opt_view(r.developer));
    lemma_opt_field_out("publisher"@, opt_view(r.publisher));
    lemma_opt_field_out("releasedate"@, opt_view(r.release_date));
    lemma_opt_field_out("players"@, opt_view(r.players));
    lemma_opt_field_out("rating"@, opt_view(r.rating));
}

proof fn lemma_flags_out(r: ExportRow)
    ensures
        fields_out(flag_fields(r)) == row_flags(r),
{
    lemma_fields_out_concat(flag_field("favorite"@, r.favorite), flag_field("hidden"@, r.hidden));
    lemma_flag_field_out("favorite"@, r.favorite);
    lemma_flag_field_out("hidden"@, r.hidden);
}

proof fn lemma_row_out(dir: Seq<char>, r: ExportRow)
    ensures
        row_events(dir, r) == record_out("game"@, row_fields(dir, r)),
{
    lemma_head_out(dir, r);
    lemma_meta_out(r);
    lemma_flags_out(r);
    lemma_fields_out_concat(head_fields(dir, r), meta_fields(r));
    lemma_fields_out_concat(head_fields(dir, r) + meta_fields(r), flag_fields(r));
    assert(row_events(dir, r) =~= record_out("game"@, row_fields(dir, r)));
}

proof fn lemma_rows_out(dir: Seq<char>, rows: Seq<ExportRow>)
    ensures
        rows_events(dir, rows) == records_out("game"@, rows_fields(dir, rows)),
    decreases rows.len(),
{
    if rows.len() > 0 {
        lemma_rows_out(dir, rows.drop_last());
        lemma_row_out(dir, rows.last());
        assert(rows_fields(dir, rows).drop_last() =~= rows_fields(dir, rows.drop_last()));
        assert(rows_fields(dir, rows).last() == row_fields(dir, rows.last()));
    }
}

/// The element names the exporter uses are plain.
proof fn lemma_export_names(dir: Seq<char>, rows: Seq<ExportRow>)
    ensures
        record_doc_names_ok("gameList"@, "game"@, rows_fields(dir, rows)),
{
    reveal_strlit("gameList");
    reveal_strlit("game");
    reveal_strlit("path");
    reveal_strlit("name");
    reveal_strlit("desc");
    reveal_strlit("genre");
    reveal_strlit("developer");
    reveal_strlit("publisher");
    reveal_strlit("releasedate");
    reveal_strlit("players");
    reveal_strlit("rating");
    reveal_strlit("favorite");
    reveal_strlit("hidden");
    assert(name_ok("gameList"@));
    assert(name_ok("game"@));
    assert(name_ok("path"@));
    assert(name_ok("name"@));
    assert(name_ok("desc"@));
    assert(name_ok("genre"@));
    assert(name_ok("developer"@));
    assert(name_ok("publisher"@));
    assert(name_ok("releasedate"@));
    assert(name_ok("players"@));
    assert(name_ok("rating"@));
    assert(name_ok("favorite"@));
    assert(name_ok("hidden"@));
    assert forall|i: int, k: int|
        0 <= i < rows_fields(dir, rows).len() && 0 <= k < rows_fields(dir, rows)[i].len() implies name_ok(
        #[trigger] rows_fields(dir, rows)[i][k].0,
    ) by {
        let fs = row_fields(dir, rows[i]);
        assert(rows_fields(dir, rows)[i] == fs);
        lemma_row_field_tags(dir, rows[i], k);
    }
}

/// The tags of a row's fields.
pub open spec fn row_tag(t: Seq<char>) -> bool {
    ||| t == "path"@
    ||| t == "name"@
    ||| t == "desc"@
    ||| t == "genre"@
    ||| t == "developer"@
    ||| t == "publisher"@
    ||| t == "releasedate"@
    ||| t == "players"@
    ||| t == "rating"@
    ||| t == "favorite"@
    ||| t == "hidden"@
}

proof fn lemma_tags_concat(a: Seq<(Seq<char>, Seq<char>)>, b: Seq<(Seq<char>, Seq<char>)>, k: int)
    requires
        0 <= k < (a + b).len(),
        k < a.len() ==> row_tag(a[k].0),
        k >= a.len() ==> row_tag(b[k - a.len()].0),
    ensures
        row_tag((a + b)[k].0),
{
}

proof fn lemma_row_field_tags(dir: Seq<char>, r: ExportRow, k: int)
    requires
        0 <= k < row_fields(dir, r).len(),
    ensures
        row_tag(row_fields(dir, r)[k].0),
{
    let h = head_fields(dir, r);
    let m = meta_fields(r);
    let f = flag_fields(r);
    if k < h.len() {
        lemma_tags_concat(h, m, k);
    } else if k < h.len() + m.len() {
        lemma_meta_tags(r, k - h.len());
        lemma_tags_concat(h, m, k);
    }
    if k < (h + m).len() {
        lemma_tags_concat(h + m, f, k);
    } else {
        lemma_flag_tags(r, k - (h + m).len());
        lemma_tags_concat(h + m, f, k);
    }
}

proof fn lemma_opt_tag(tag: Seq<char>, o: Option<Seq<char>>, k: int)
    requires
        row_tag(tag),
        0 <= k < opt_field(tag, o).len(),
    ensures
        row_tag(opt_field(tag, o)[k].0),
{
}

proof fn lemma_meta_tags(r: ExportRow, k: int)
    requires
        0 <= k < meta_fields(r).len(),
    ensures
        row_tag(meta_fields(r)[k].0),
{
    let f1 = opt_field("desc"@, opt_view(r.desc));
    let f2 = opt_field("genre"@, opt_view(r.genre));
    let f3 = opt_field("developer"@, opt_view(r.developer));
    let f4 = opt_field("publisher"@, opt_view(r.publisher));
    let f5 = opt_field("releasedate"@, opt_view(r.release_date));
    let f6 = opt_field("players"@, opt_view(r.players));
    let f7 = opt_field("rating"@, opt_view(r.rating));
    let s1 = f1 + f2;
    let s2 = s1 + f3;
    let s3 = s2 + f4;
    let s4 = s3 + f5;
    let s5 = s4 + f6;
    assert(meta_fields(r) == s5 + f7);
    assert forall|j: int| 0 <= j < s1.len() implies row_tag(#[trigger] s1[j].0) by {
        if j < f1.len() {
            lemma_opt_tag("desc"@, opt_view(r.desc), j);
        } else {
            lemma_opt_tag("genre"@, opt_view(r.genre), j - f1.len());
        }
        lemma_tags_concat(f1, f2, j);
    }
    assert forall|j: int| 0 <= j < s2.len() implies row_tag(#[trigger] s2[j].0) by {
        if j >= s1.len() {
            lemma_opt_tag("developer"@, opt_view(r.developer), j - s1.len());
        }
        lemma_tags_concat(s1, f3, j);
    }
    assert forall|j: int| 0 <= j < s3.len() implies row_tag(#[trigger] s3[j].0) by {
        if j >= s2.len() {
            lemma_opt_tag("publisher"@, opt_view(r.publisher), j - s2.len());
        }
        lemma_tags_concat(s2, f4, j);
    }
    assert forall|j: int| 0 <= j < s4.len() implies row_tag(#[trigger] s4[j].0) by {
        if j >= s3.len() {
            lemma_opt_tag("releasedate"@, opt_view(r.release_date), j - s3.len());
        }
        lemma_tags_concat(s3, f5, j);
    }
    assert forall|j: int| 0 <= j < s5.len() implies row_tag(#[trigger] s5[j].0) by {
        if j >= s4.len() {
            lemma_opt_tag("players"@, opt_view(r.players), j - s4.len());
        }
        lemma_tags_concat(s4, f6, j);
    }
    if k >= s5.len() {
        lemma_opt_tag("rating"@, opt_view(r.rating), k - s5.len());
    }
    lemma_tags_concat(s5, f7, k);
}

proof fn lemma_flag_tags(r: ExportRow, k: int)
    requires
        0 <= k < flag_fields(r).len(),
    ensures
        row_tag(flag_fields(r)[k].0),
{
    let g1 = flag_field("favorite"@, r.favorite);
    let g2 = flag_field("hidden"@, r.hidden);
    lemma_tags_concat(g1, g2, k);
}

/// The exported events are a record document with plain names.
proof fn lemma_export_is_record_doc(dir: Seq<char>, rows: Seq<ExportRow>)
    ensures
        export_events(dir, rows) == record_doc("gameList"@, "game"@, rows_fields(dir, rows)),
        is_record_doc(export_events(dir, rows)),
{
    lemma_rows_out(dir, rows);
    lemma_export_names(dir, rows);
    assert(export_events(dir, rows) =~= record_doc("gameList"@, "game"@, rows_fields(dir, rows)));
}

/// The value an element's text reads back as: trimmed by the XML reader,
/// then by the gamelist reader.
pub open spec fn field_value(v: Seq<char>) -> Seq<char> {
    trim(xml_trim(v))
}

/// An entry after the fields `fs`, read in order.
pub open spec fn fields_into(c: EntryView, fs: Seq<(Seq<char>, Seq<char>)>) -> EntryView
    decreases fs.len(),
{
    if fs.len() == 0 {
        c
    } else {
        assign_field(fields_into(c, fs.drop_last()), fs.last().0, field_value(fs.last().1))
    }
}

/// The entry a `<game>` of these fields reads back as.
pub open spec fn entry_of_fields(fs: Seq<(Seq<char>, Seq<char>)>) -> EntryView {
    fields_into(empty_entry(), fs)
}

/// The entries records read back as: those with a path.
pub open spec fn kept_entries(recs: Seq<Seq<(Seq<char>, Seq<char>)>>) -> Seq<EntryView>
    decreases recs.len(),
{
    if recs.len() == 0 {
        Seq::empty()
    } else if entry_of_fields(recs.last()).path.len() > 0 {
        kept_entries(recs.drop_last()).push(entry_of_fields(recs.last()))
    } else {
        kept_entries(recs.drop_last())
    }
}

/// A field element name the gamelist reader treats as a field.
pub open spec fn field_tag_ok(t: Seq<char>) -> bool {
    name_ok(t) && t != "game"@ && t != "gameList"@
}

proof fn lemma_read_back_concat(a: Seq<XmlOutView>, b: Seq<XmlOutView>)
    ensures
        read_back(a + b) == read_back(a) + read_back(b),
    decreases b.len(),
{
    if b.len() == 0 {
        assert(a + b =~= a);
        assert(read_back(a) + read_back(b) =~= read_back(a));
    } else {
        lemma_read_back_concat(a, b.drop_last());
        assert((a + b).drop_last() =~= a + b.drop_last());
        assert((a + b).last() == b.last());
        assert(read_back(a) + read_back(b) =~= read_back(a) + read_back(b.drop_last()) + read_back_one(
            b.last(),
        ));
    }
}

proof fn lemma_read_back_one(e: XmlOutView)
    ensures
        read_back(seq![e]) == read_back_one(e),
{
    assert(seq![e].drop_last() =~= Seq::<XmlOutView>::empty());
    assert(seq![e].last() == e);
    assert(read_back(Seq::<XmlOutView>::empty()) =~= Seq::<XmlEventView>::empty());
    assert(Seq::<XmlEventView>::empty() + read_back_one(e) =~= read_back_one(e));
}

proof fn lemma_gl_fold_concat(s: GlState, a: Seq<XmlEventView>, b: Seq<XmlEventView>)
    ensures
        gl_fold(s, a + b) == gl_fold(gl_fold(s, a), b),
    decreases b.len(),
{
    if b.len() == 0 {
        assert(a + b =~= a);
    } else {
        lemma_gl_fold_concat(s, a, b.drop_last());
        assert((a + b).drop_last() =~= a + b.drop_last());
        assert((a + b).last() == b.last());
    }
}

proof fn lemma_gl_fold_one(s: GlState, e: XmlEventView)
    ensures
        gl_fold(s, seq![e]) == gl_step(s, e),
{
    assert(seq![e].drop_last() =~= Seq::<XmlEventView>::empty());
    assert(seq![e].last() == e);
    assert(gl_fold(s, Seq::<XmlEventView>::empty()) == s);
    assert(gl_fold(s, seq![e]) == gl_step(gl_fold(s, seq![e].drop_last()), seq![e].last()));
}

proof fn lemma_local_plain(n: Seq<char>)
    requires
        name_ok(n),
    ensures
        local_name(n) == n,
{
    assert(!n.contains(':')) by {
        if n.contains(':') {
            let k = choose|k: int| 0 <= k < n.len() && n[k] == ':';
            assert(name_ok(n));
            assert('a' <= n[k] <= 'z' || 'A' <= n[k] <= 'Z' || '0' <= n[k] <= '9' || n[k] == '_');
        }
    }
    crate::text::lemma_find_from_absent(n, ':', 0);
}

/// Inside `<gameList>`, between games.
pub open spec fn in_list(entries: Seq<EntryView>) -> GlState {
    GlState { entries, depth: 1, current: None, stack: Seq::empty(), text: Seq::empty() }
}

/// Inside a `<game>`, between its fields.
pub open spec fn in_game(entries: Seq<EntryView>, c: EntryView) -> GlState {
    GlState { entries, depth: 1, current: Some(c), stack: seq!["game"@], text: Seq::empty() }
}

proof fn lemma_read_field(entries: Seq<EntryView>, c: EntryView, f: (Seq<char>, Seq<char>))
    requires
        field_tag_ok(f.0),
    ensures
        gl_fold(in_game(entries, c), read_back(field_out(f))) == in_game(
            entries,
            assign_field(c, f.0, field_value(f.1)),
        ),
{
    let t = f.0;
    let v = f.1;
    lemma_local_plain(t);
    let st = XmlOutView::Start(t);
    let tx = XmlOutView::Text(v);
    let en = XmlOutView::End(t);
    assert(field_out(f) =~= seq![st] + seq![tx] + seq![en]);
    lemma_read_back_concat(seq![st] + seq![tx], seq![en]);
    lemma_read_back_concat(seq![st], seq![tx]);
    lemma_read_back_one(st);
    lemma_read_back_one(tx);
    lemma_read_back_one(en);
    let e1 = read_back_one(st);
    let e2 = read_back_one(tx);
    let e3 = read_back_one(en);
    let s0 = in_game(entries, c);
    lemma_gl_fold_concat(s0, e1 + e2, e3);
    lemma_gl_fold_concat(s0, e1, e2);
    let tag = XmlTagView { name: t, attrs: Seq::empty() };
    lemma_gl_fold_one(s0, XmlEventView::Start(tag));
    let s1 = GlState { stack: seq!["game"@, t], ..s0 };
    assert(gl_step(s0, XmlEventView::Start(tag)) =~= s1) by {
        assert(s0.stack.push(t) =~= seq!["game"@, t]);
    }
    let s2 = GlState { text: xml_trim(v), ..s1 };
    if xml_trim(v).len() > 0 {
        lemma_gl_fold_one(s1, XmlEventView::Text(xml_trim(v)));
        assert(Seq::<char>::empty() + xml_trim(v) =~= xml_trim(v));
        assert(gl_fold(s1, e2) == s2);
    } else {
        assert(e2 =~= Seq::<XmlEventView>::empty());
        assert(xml_trim(v) =~= Seq::<char>::empty());
        assert(gl_fold(s1, e2) == s1);
        assert(s1 == s2);
    }
    lemma_gl_fold_one(s2, XmlEventView::End(t));
    assert(s2.stack.last() == t);
    assert(s2.stack.drop_last() =~= seq!["game"@]);
    assert(gl_step(s2, XmlEventView::End(t)) =~= in_game(entries, assign_field(c, t, trim(xml_trim(v)))));
}

proof fn lemma_read_fields(entries: Seq<EntryView>, c: EntryView, fs: Seq<(Seq<char>, Seq<char>)>)
    requires
        forall|k: int| 0 <= k < fs.len() ==> field_tag_ok(#[trigger] fs[k].0),
    ensures
        gl_fold(in_game(entries, c), read_back(fields_out(fs))) == in_game(entries, fields_into(c, fs)),
    decreases fs.len(),
{
    if fs.len() == 0 {
        assert(fields_out(fs) =~= Seq::<XmlOutView>::empty());
        assert(read_back(Seq::<XmlOutView>::empty()) =~= Seq::<XmlEventView>::empty());
    } else {
        let p = fs.drop_last();
        assert forall|k: int| 0 <= k < p.len() implies field_tag_ok(#[trigger] p[k].0) by {
            assert(p[k] == fs[k]);
        }
        lemma_read_fields(entries, c, p);
        lemma_read_back_concat(fields_out(p), field_out(fs.last()));
        lemma_gl_fold_concat(in_game(entries, c), read_back(fields_out(p)), read_back(field_out(fs.last())));
        assert(field_tag_ok(fs[fs.len() - 1].0));
        lemma_read_field(entries, fields_into(c, p), fs.last());
    }
}

proof fn lemma_read_record(entries: Seq<EntryView>, fs: Seq<(Seq<char>, Seq<char>)>)
    requires
        forall|k: int| 0 <= k < fs.len() ==> field_tag_ok(#[trigger] fs[k].0),
    ensures
        gl_fold(in_list(entries), read_back(record_out("game"@, fs))) == in_list(
            if entry_of_fields(fs).path.len() > 0 {
                entries.push(entry_of_fields(fs))
            } else {
                entries
            },
        ),
{
    reveal_strlit("game");
    reveal_strlit("gameList");
    assert(name_ok("game"@));
    lemma_local_plain("game"@);
    assert("game"@ != "gameList"@) by {
        assert("game"@.len() != "gameList"@.len());
    }
    let st = XmlOutView::Start("game"@);
    let en = XmlOutView::End("game"@);
    lemma_read_back_concat(seq![st] + fields_out(fs), seq![en]);
    lemma_read_back_concat(seq![st], fields_out(fs));
    lemma_read_back_one(st);
    lemma_read_back_one(en);
    let e1 = read_back_one(st);
    let e2 = read_back(fields_out(fs));
    let e3 = read_back_one(en);
    let s0 = in_list(entries);
    lemma_gl_fold_concat(s0, e1 + e2, e3);
    lemma_gl_fold_concat(s0, e1, e2);
    let tag = XmlTagView { name: "game"@, attrs: Seq::empty() };
    lemma_gl_fold_one(s0, XmlEventView::Start(tag));
    assert(gl_step(s0, XmlEventView::Start(tag)) =~= in_game(entries, empty_entry())) by {
        assert(Seq::<Seq<char>>::empty().push("game"@) =~= seq!["game"@]);
    }
    lemma_read_fields(entries, empty_entry(), fs);
    let s2 = in_game(entries, entry_of_fields(fs));
    lemma_gl_fold_one(s2, XmlEventView::End("game"@));
}

proof fn lemma_read_records(recs: Seq<Seq<(Seq<char>, Seq<char>)>>)
    requires
        forall|i: int, k: int|
            0 <= i < recs.len() && 0 <= k < recs[i].len() ==> field_tag_ok(#[trigger] recs[i][k].0),
    ensures
        gl_fold(in_list(Seq::empty()), read_back(records_out("game"@, recs))) == in_list(kept_entries(recs)),
    decreases recs.len(),
{
    if recs.len() == 0 {
        assert(records_out("game"@, recs) =~= Seq::<XmlOutView>::empty());
        assert(read_back(Seq::<XmlOutView>::empty()) =~= Seq::<XmlEventView>::empty());
    } else {
        let p = recs.drop_last();
        assert forall|i: int, k: int| 0 <= i < p.len() && 0 <= k < p[i].len() implies field_tag_ok(
            #[trigger] p[i][k].0,
        ) by {
            assert(p[i] == recs[i]);
        }
        lemma_read_records(p);
        let l = recs.last();
        assert forall|k: int| 0 <= k < l.len() implies field_tag_ok(#[trigger] l[k].0) by {
            assert(l == recs[recs.len() - 1]);
        }
        lemma_read_back_concat(records_out("game"@, p), record_out("game"@, l));
        lemma_gl_fold_concat(in_list(Seq::empty()), read_back(records_out("game"@, p)), read_back(record_out("game"@, l)));
        lemma_read_record(kept_entries(p), l);
    }
}

/// A document of `<game>` records inside a `<gameList>` reads back as its
/// records: each record with a path gives one entry, in order, its fields
/// read in order with their text trimmed; a record without a path is
/// dropped.
pub proof fn law_records_read_back(recs: Seq<Seq<(Seq<char>, Seq<char>)>>)
    requires
        forall|i: int, k: int|
            0 <= i < recs.len() && 0 <= k < recs[i].len() ==> field_tag_ok(#[trigger] recs[i][k].0),
    ensures
        gamelist_entries(read_back(record_doc("gameList"@, "game"@, recs))) == kept_entries(recs),
{
    reveal_strlit("gameList");
    assert(name_ok("gameList"@));
    lemma_local_plain("gameList"@);
    let d = XmlOutView::Decl;
    let st = XmlOutView::Start("gameList"@);
    let en = XmlOutView::End("gameList"@);
    let body = records_out("game"@, recs);
    assert(record_doc("gameList"@, "game"@, recs) =~= seq![d] + seq![st] + body + seq![en]);
    lemma_read_back_concat(seq![d] + seq![st] + body, seq![en]);
    lemma_read_back_concat(seq![d] + seq![st], body);
    lemma_read_back_concat(seq![d], seq![st]);
    lemma_read_back_one(d);
    lemma_read_back_one(st);
    lemma_read_back_one(en);
    let e0 = read_back_one(d);
    let e1 = read_back_one(st);
    let eb = read_back(body);
    let e3 = read_back_one(en);
    lemma_gl_fold_concat(gl_start(), e0 + e1 + eb, e3);
    lemma_gl_fold_concat(gl_start(), e0 + e1, eb);
    lemma_gl_fold_concat(gl_start(), e0, e1);
    lemma_gl_fold_one(gl_start(), XmlEventView::Other);
    let tag = XmlTagView { name: "gameList"@, attrs: Seq::empty() };
    lemma_gl_fold_one(gl_start(), XmlEventView::Start(tag));
    assert(gl_step(gl_start(), XmlEventView::Start(tag)) == in_list(Seq::empty()));
    lemma_read_records(recs);
    lemma_gl_fold_one(in_list(kept_entries(recs)), XmlEventView::End("gameList"@));
}

/// The element names a gamelist uses are all different.
proof fn lemma_tags_distinct()
    ensures
        "path"@ != "name"@,
        "path"@ != "desc"@,
        "path"@ != "genre"@,
        "path"@ != "developer"@,
        "path"@ != "publisher"@,
        "path"@ != "releasedate"@,
        "path"@ != "players"@,
        "path"@ != "rating"@,
        "path"@ != "image"@,
        "path"@ != "marquee"@,
        "path"@ != "video"@,
        "path"@ != "favorite"@,
        "path"@ != "hidden"@,
        "path"@ != "game"@,
        "path"@ != "gameList"@,
        "name"@ != "desc"@,
        "name"@ != "genre"@,
        "name"@ != "developer"@,
        "name"@ != "publisher"@,
        "name"@ != "releasedate"@,
        "name"@ != "players"@,
        "name"@ != "rating"@,
        "name"@ != "image"@,
        "name"@ != "marquee"@,
        "name"@ != "video"@,
        "name"@ != "favorite"@,
        "name"@ != "hidden"@,
        "name"@ != "game"@,
        "name"@ != "gameList"@,
        "desc"@ != "genre"@,
        "desc"@ != "developer"@,
        "desc"@ != "publisher"@,
        "desc"@ != "releasedate"@,
        "desc"@ != "players"@,
        "desc"@ != "rating"@,
        "desc"@ != "image"@,
        "desc"@ != "marquee"@,
        "desc"@ != "video"@,
        "desc"@ != "favorite"@,
        "desc"@ != "hidden"@,
        "desc"@ != "game"@,
        "desc"@ != "gameList"@,
        "genre"@ != "developer"@,
        "genre"@ != "publisher"@,
        "genre"@ != "releasedate"@,
        "genre"@ != "players"@,
        "genre"@ != "rating"@,
        "genre"@ != "image"@,
        "genre"@ != "marquee"@,
        "genre"@ != "video"@,
        "genre"@ != "favorite"@,
        "genre"@ != "hidden"@,
        "genre"@ != "game"@,
        "genre"@ != "gameList"@,
        "developer"@ != "publisher"@,
        "developer"@ != "releasedate"@,
        "developer"@ != "players"@,
        "developer"@ != "rating"@,
        "developer"@ != "image"@,
        "developer"@ != "marquee"@,
        "developer"@ != "video"@,
        "developer"@ != "favorite"@,
        "developer"@ != "hidden"@,
        "developer"@ != "game"@,
        "developer"@ != "gameList"@,
        "publisher"@ != "releasedate"@,
        "publisher"@ != "players"@,
        "publisher"@ != "rating"@,
        "publisher"@ != "image"@,
        "publisher"@ != "marquee"@,
        "publisher"@ != "video"@,
        "publisher"@ != "favorite"@,
        "publisher"@ != "hidden"@,
        "publisher"@ != "game"@,
        "publisher"@ != "gameList"@,
        "releasedate"@ != "players"@,
        "releasedate"@ != "rating"@,
        "releasedate"@ != "image"@,
        "releasedate"@ != "marquee"@,
        "releasedate"@ != "video"@,
        "releasedate"@ != "favorite"@,
        "releasedate"@ != "hidden"@,
        "releasedate"@ != "game"@,
        "releasedate"@ != "gameList"@,
        "players"@ != "rating"@,
        "players"@ != "image"@,
        "players"@ != "marquee"@,
        "players"@ != "video"@,
        "players"@ != "favorite"@,
        "players"@ != "hidden"@,
        "players"@ != "game"@,
        "players"@ != "gameList"@,
        "rating"@ != "image"@,
        "rating"@ != "marquee"@,
        "rating"@ != "video"@,
        "rating"@ != "favorite"@,
        "rating"@ != "hidden"@,
        "rating"@ != "game"@,
        "rating"@ != "gameList"@,
        "image"@ != "marquee"@,
        "image"@ != "video"@,
        "image"@ != "favorite"@,
        "image"@ != "hidden"@,
        "image"@ != "game"@,
        "image"@ != "gameList"@,
        "marquee"@ != "video"@,
        "marquee"@ != "favorite"@,
        "marquee"@ != "hidden"@,
        "marquee"@ != "game"@,
        "marquee"@ != "gameList"@,
        "video"@ != "favorite"@,
        "video"@ != "hidden"@,
        "video"@ != "game"@,
        "video"@ != "gameList"@,
        "favorite"@ != "hidden"@,
        "favorite"@ != "game"@,
        "favorite"@ != "gameList"@,
        "hidden"@ != "game"@,
        "hidden"@ != "gameList"@,
        "game"@ != "gameList"@,
{
    reveal_strlit("path");
    reveal_strlit("name");
    reveal_strlit("desc");
    reveal_strlit("genre");
    reveal_strlit("developer");
    reveal_strlit("publisher");
    reveal_strlit("releasedate");
    reveal_strlit("players");
    reveal_strlit("rating");
    reveal_strlit("image");
    reveal_strlit("marquee");
    reveal_strlit("video");
    reveal_strlit("favorite");
    reveal_strlit("hidden");
    reveal_strlit("game");
    reveal_strlit("gameList");
    assert("path"@[0] != "name"@[0]);
    assert("path"@[0] != "desc"@[0]);
    assert("path"@.len() != "genre"@.len());
    assert("path"@.len() != "developer"@.len());
    assert("path"@.len() != "publisher"@.len());
    assert("path"@.len() != "releasedate"@.len());
    assert("path"@.len() != "players"@.len());
    assert("path"@.len() != "rating"@.len());
    assert("path"@.len() != "image"@.len());
    assert("path"@.len() != "marquee"@.len());
    assert("path"@.len() != "video"@.len());
    assert("path"@.len() != "favorite"@.len());
    assert("path"@.len() != "hidden"@.len());
    assert("path"@[0] != "game"@[0]);
    assert("path"@.len() != "gameList"@.len());
    assert("name"@[0] != "desc"@[0]);
    assert("name"@.len() != "genre"@.len());
    assert("name"@.len() != "developer"@.len());
    assert("name"@.len() != "publisher"@.len());
    assert("name"@.len() != "releasedate"@.len());
    assert("name"@.len() != "players"@.len());
    assert("name"@.len() != "rating"@.len());
    assert("name"@.len() != "image"@.len());
    assert("name"@.len() != "marquee"@.len());
    assert("name"@.len() != "video"@.len());
    assert("name"@.len() != "favorite"@.len());
    assert("name"@.len() != "hidden"@.len());
    assert("name"@[0] != "game"@[0]);
    assert("name"@.len() != "gameList"@.len());
    assert("desc"@.len() != "genre"@.len());
    assert("desc"@.len() != "developer"@.len());
    assert("desc"@.len() != "publisher"@.len());
    assert("desc"@.len() != "releasedate"@.len());
    assert("desc"@.len() != "players"@.len());
    assert("desc"@.len() != "rating"@.len());
    assert("desc"@.len() != "image"@.len());
    assert("desc"@.len() != "marquee"@.len());
    assert("desc"@.len() != "video"@.len());
    assert("desc"@.len() != "favorite"@.len());
    assert("desc"@.len() != "hidden"@.len());
    assert("desc"@[0] != "game"@[0]);
    assert("desc"@.len() != "gameList"@.len());
    assert("genre"@.len() != "developer"@.len());
    assert("genre"@.len() != "publisher"@.len());
    assert("genre"@.len() != "releasedate"@.len());
    assert("genre"@.len() != "players"@.len());
    assert("genre"@.len() != "rating"@.len());
    assert("genre"@[0] != "image"@[0]);
    assert("genre"@.len() != "marquee"@.len());
    assert("genre"@[0] != "video"@[0]);
    assert("genre"@.len() != "favorite"@.len());
    assert("genre"@.len() != "hidden"@.len());
    assert("genre"@.len() != "game"@.len());
    assert("genre"@.len() != "gameList"@.len());
    assert("developer"@[0] != "publisher"@[0]);
    assert("developer"@.len() != "releasedate"@.len());
    assert("developer"@.len() != "players"@.len());
    assert("developer"@.len() != "rating"@.len());
    assert("developer"@.len() != "image"@.len());
    assert("developer"@.len() != "marquee"@.len());
    assert("developer"@.len() != "video"@.len());
    assert("developer"@.len() != "favorite"@.len());
    assert("developer"@.len() != "hidden"@.len());
    assert("developer"@.len() != "game"@.len());
    assert("developer"@.len() != "gameList"@.len());
    assert("publisher"@.len() != "releasedate"@.len());
    assert("publisher"@.len() != "players"@.len());
    assert("publisher"@.len() != "rating"@.len());
    assert("publisher"@.len() != "image"@.len());
    assert("publisher"@.len() != "marquee"@.len());
    assert("publisher"@.len() != "video"@.len());
    assert("publisher"@.len() != "favorite"@.len());
    assert("publisher"@.len() != "hidden"@.len());
    assert("publisher"@.len() != "game"@.len());
    assert("publisher"@.len() != "gameList"@.len());
    assert("releasedate"@.len() != "players"@.len());
    assert("releasedate"@.len() != "rating"@.len());
    assert("releasedate"@.len() != "image"@.len());
    assert("releasedate"@.len() != "marquee"@.len());
    assert("releasedate"@.len() != "video"@.len());
    assert("releasedate"@.len() != "favorite"@.len());
    assert("releasedate"@.len() != "hidden"@.len());
    assert("releasedate"@.len() != "game"@.len());
    assert("releasedate"@.len() != "gameList"@.len());
    assert("players"@.len() != "rating"@.len());
    assert("players"@.len() != "image"@.len());
    assert("players"@[0] != "marquee"@[0]);
    assert("players"@.len() != "video"@.len());
    assert("players"@.len() != "favorite"@.len());
    assert("players"@.len() != "hidden"@.len());
    assert("players"@.len() != "game"@.len());
    assert("players"@.len() != "gameList"@.len());
    assert("rating"@.len() != "image"@.len());
    assert("rating"@.len() != "marquee"@.len());
    assert("rating"@.len() != "video"@.len());
    assert("rating"@.len() != "favorite"@.len());
    assert("rating"@[0] != "hidden"@[0]);
    assert("rating"@.len() != "game"@.len());
    assert("rating"@.len() != "gameList"@.len());
    assert("image"@.len() != "marquee"@.len());
    assert("image"@[0] != "video"@[0]);
    assert("image"@.len() != "favorite"@.len());
    assert("image"@.len() != "hidden"@.len());
    assert("image"@.len() != "game"@.len());
    assert("image"@.len() != "gameList"@.len());
    assert("marquee"@.len() != "video"@.len());
    assert("marquee"@.len() != "favorite"@.len());
    assert("marquee"@.len() != "hidden"@.len());
    assert("marquee"@.len() != "game"@.len());
    assert("marquee"@.len() != "gameList"@.len());
    assert("video"@.len() != "favorite"@.len());
    assert("video"@.len() != "hidden"@.len());
    assert("video"@.len() != "game"@.len());
    assert("video"@.len() != "gameList"@.len());
    assert("favorite"@.len() != "hidden"@.len());
    assert("favorite"@.len() != "game"@.len());
    assert("favorite"@[0] != "gameList"@[0]);
    assert("hidden"@.len() != "game"@.len());
    assert("hidden"@.len() != "gameList"@.len());
    assert("game"@.len() != "gameList"@.len());
}

/// An optional field as read back: set when its text is not empty.
pub open spec fn opt_read(o: Option<Seq<char>>) -> Option<Seq<char>> {
    match o {
        Some(v) => set_opt(None, field_value(v)),
        None => None,
    }
}

/// The entry a row reads back as after export: each field the exporter
/// wrote, trimmed; the rating only when it still reads as a number; the
/// flags as they were; no media paths.
pub open spec fn read_back_entry(dir: Seq<char>, r: ExportRow) -> EntryView {
    EntryView {
        path: field_value(export_path_spec(dir, r.rel_path@)),
        name: set_opt(
            None,
            field_value(
                match r.title {
                    Some(t) => t@,
                    None => r.canonical_name@,
                },
            ),
        ),
        desc: opt_read(opt_view(r.desc)),
        genre: opt_read(opt_view(r.genre)),
        developer: opt_read(opt_view(r.developer)),
        publisher: opt_read(opt_view(r.publisher)),
        releasedate: opt_read(opt_view(r.release_date)),
        players: opt_read(opt_view(r.players)),
        rating: match opt_view(r.rating) {
            Some(v) => if parses_f64(field_value(v)) {
                Some(field_value(v))
            } else {
                None
            },
            None => None,
        },
        image: None,
        marquee: None,
        video: None,
        favorite: r.favorite,
        hidden: r.hidden,
    }
}

proof fn lemma_fields_into_concat(c: EntryView, a: Seq<(Seq<char>, Seq<char>)>, b: Seq<(Seq<char>, Seq<char>)>)
    ensures
        fields_into(c, a + b) == fields_into(fields_into(c, a), b),
    decreases b.len(),
{
    if b.len() == 0 {
        assert(a + b =~= a);
    } else {
        lemma_fields_into_concat(c, a, b.drop_last());
        assert((a + b).drop_last() =~= a + b.drop_last());
        assert((a + b).last() == b.last());
    }
}

proof fn lemma_fields_into_one(c: EntryView, f: (Seq<char>, Seq<char>))
    ensures
        fields_into(c, seq![f]) == assign_field(c, f.0, field_value(f.1)),
{
    assert(seq![f].drop_last() =~= Seq::<(Seq<char>, Seq<char>)>::empty());
    assert(seq![f].last() == f);
    assert(fields_into(c, Seq::<(Seq<char>, Seq<char>)>::empty()) == c);
}

proof fn lemma_fields_into_opt(c: EntryView, tag: Seq<char>, o: Option<Seq<char>>)
    ensures
        fields_into(c, opt_field(tag, o)) == match o {
            Some(v) => assign_field(c, tag, field_value(v)),
            None => c,
        },
{
    match o {
        Some(v) => lemma_fields_into_one(c, (tag, v)),
        None => {
            assert(fields_into(c, Seq::<(Seq<char>, Seq<char>)>::empty()) == c);
        },
    }
}

proof fn lemma_fields_into_flag(c: EntryView, tag: Seq<char>, b: bool)
    ensures
        fields_into(c, flag_field(tag, b)) == if b {
            assign_field(c, tag, field_value("true"@))
        } else {
            c
        },
{
    if b {
        lemma_fields_into_one(c, (tag, "true"@));
    } else {
        assert(fields_into(c, Seq::<(Seq<char>, Seq<char>)>::empty()) == c);
    }
}

proof fn lemma_xml_trim_plain(v: Seq<char>)
    requires
        v.len() == 0 || (!crate::text::is_ws(v[0]) && !crate::text::is_ws(v.last())),
    ensures
        xml_trim(v) == v,
        trim(v) == v,
{
    if v.len() > 0 {
        assert(!is_xml_ws(v[0]));
        assert(!is_xml_ws(v.last()));
    } else {
        assert(xml_trim_start(v) == v);
        assert(xml_trim_end(v) == v);
        assert(crate::text::trim_start(v) == v);
        assert(crate::text::trim_end(v) == v);
    }
}

/// Text with no whitespace at either end reads back unchanged.
pub proof fn law_plain_text_reads_back(v: Seq<char>)
    requires
        v.len() == 0 || (!crate::text::is_ws(v[0]) && !crate::text::is_ws(v.last())),
    ensures
        field_value(v) == v,
{
    lemma_xml_trim_plain(v);
}

proof fn lemma_xml_trim_end_keeps_first(s: Seq<char>)
    requires
        s.len() > 0,
        !is_xml_ws(s[0]),
    ensures
        xml_trim_end(s).len() > 0,
        xml_trim_end(s)[0] == s[0],
    decreases s.len(),
{
    if is_xml_ws(s.last()) {
        assert(s.len() > 1);
        assert(s.drop_last()[0] == s[0]);
        lemma_xml_trim_end_keeps_first(s.drop_last());
    }
}

proof fn lemma_trim_end_keeps_first(s: Seq<char>)
    requires
        s.len() > 0,
        !crate::text::is_ws(s[0]),
    ensures
        crate::text::trim_end(s).len() > 0,
    decreases s.len(),
{
    if crate::text::is_ws(s.last()) {
        assert(s.len() > 1);
        assert(s.drop_last()[0] == s[0]);
        lemma_trim_end_keeps_first(s.drop_last());
    }
}

/// An exported path (`./...`) reads back non-empty.
proof fn lemma_export_path_kept(dir: Seq<char>, rel: Seq<char>)
    ensures
        field_value(export_path_spec(dir, rel)).len() > 0,
{
    let s = export_path_spec(dir, rel);
    assert(s[0] == '.');
    assert(!is_xml_ws('.'));
    assert(!crate::text::is_ws('.'));
    assert(xml_trim_start(s) == s);
    lemma_xml_trim_end_keeps_first(s);
    let x = xml_trim(s);
    assert(crate::text::trim_start(x) == x);
    lemma_trim_end_keeps_first(x);
}

proof fn lemma_row_reads_back(dir: Seq<char>, r: ExportRow)
    ensures
        entry_of_fields(row_fields(dir, r)) == read_back_entry(dir, r),
{
    lemma_tags_distinct();
    reveal_strlit("path");
    reveal_strlit("true");
    let e0 = empty_entry();
    let h = head_fields(dir, r);
    let m = meta_fields(r);
    let g = flag_fields(r);
    lemma_fields_into_concat(e0, h + m, g);
    lemma_fields_into_concat(e0, h, m);
    assert(h =~= seq![h[0]] + seq![h[1]]);
    lemma_fields_into_concat(e0, seq![h[0]], seq![h[1]]);
    lemma_fields_into_one(e0, h[0]);
    let a1 = assign_field(e0, "path"@, field_value(h[0].1));
    lemma_fields_into_one(a1, h[1]);
    let a2 = assign_field(a1, "name"@, field_value(h[1].1));
    let f1 = opt_field("desc"@, opt_view(r.desc));
    let f2 = opt_field("genre"@, opt_view(r.genre));
    let f3 = opt_field("developer"@, opt_view(r.developer));
    let f4 = opt_field("publisher"@, opt_view(r.publisher));
    let f5 = opt_field("releasedate"@, opt_view(r.release_date));
    let f6 = opt_field("players"@, opt_view(r.players));
    let f7 = opt_field("rating"@, opt_view(r.rating));
    lemma_fields_into_concat(a2, f1 + f2 + f3 + f4 + f5 + f6, f7);
    lemma_fields_into_concat(a2, f1 + f2 + f3 + f4 + f5, f6);
    lemma_fields_into_concat(a2, f1 + f2 + f3 + f4, f5);
    lemma_fields_into_concat(a2, f1 + f2 + f3, f4);
    lemma_fields_into_concat(a2, f1 + f2, f3);
    lemma_fields_into_concat(a2, f1, f2);
    lemma_fields_into_opt(a2, "desc"@, opt_view(r.desc));
    let b1 = fields_into(a2, f1);
    lemma_fields_into_opt(b1, "genre"@, opt_view(r.genre));
    let b2 = fields_into(b1, f2);
    lemma_fields_into_opt(b2, "developer"@, opt_view(r.developer));
    let b3 = fields_into(b2, f3);
    lemma_fields_into_opt(b3, "publisher"@, opt_view(r.publisher));
    let b4 = fields_into(b3, f4);
    lemma_fields_into_opt(b4, "releasedate"@, opt_view(r.release_date));
    let b5 = fields_into(b4, f5);
    lemma_fields_into_opt(b5, "players"@, opt_view(r.players));
    let b6 = fields_into(b5, f6);
    lemma_fields_into_opt(b6, "rating"@, opt_view(r.rating));
    let b7 = fields_into(b6, f7);
    let g1 = flag_field("favorite"@, r.favorite);
    let g2 = flag_field("hidden"@, r.hidden);
    lemma_fields_into_concat(b7, g1, g2);
    lemma_fields_into_flag(b7, "favorite"@, r.favorite);
    let c1 = fields_into(b7, g1);
    lemma_fields_into_flag(c1, "hidden"@, r.hidden);
    law_plain_text_reads_back("true"@);
    assert(ascii_lower_seq("true"@) =~= "true"@);
    assert(is_truthy("true"@));
    assert(fields_into(e0, row_fields(dir, r)) =~= read_back_entry(dir, r));
}

proof fn lemma_kept_rows(dir: Seq<char>, rows: Seq<ExportRow>)
    ensures
        kept_entries(rows_fields(dir, rows)) == rows.map_values(|r: ExportRow| read_back_entry(dir, r)),
    decreases rows.len(),
{
    if rows.len() > 0 {
        lemma_kept_rows(dir, rows.drop_last());
        assert(rows_fields(dir, rows).drop_last() =~= rows_fields(dir, rows.drop_last()));
        assert(rows_fields(dir, rows).last() == row_fields(dir, rows.last()));
        lemma_row_reads_back(dir, rows.last());
        lemma_export_path_kept(dir, rows.last().rel_path@);
        assert(rows.map_values(|r: ExportRow| read_back_entry(dir, r)) =~= rows.drop_last().map_values(
            |r: ExportRow| read_back_entry(dir, r),
        ).push(read_back_entry(dir, rows.last())));
    } else {
        assert(rows.map_values(|r: ExportRow| read_back_entry(dir, r)) =~= Seq::<EntryView>::empty());
    }
}

/// Exporting rows and reading the text back gives one entry per row, in
/// order, with each field the exporter wrote (see [`read_back_entry`]);
/// a field whose text has no whitespace at either end comes back as it
/// was (see [`law_plain_text_reads_back`]). With the reading that
/// [`export_gamelist_xml`] guarantees (`reads_back_as`), these are the
/// entries [`parse_gamelist`] gives for its output.
pub proof fn law_export_reads_back(dir: Seq<char>, rows: Seq<ExportRow>)
    ensures
        gamelist_entries(read_back(export_events(dir, rows))) == rows.map_values(
            |r: ExportRow| read_back_entry(dir, r),
        ),
{
    lemma_export_is_record_doc(dir, rows);
    lemma_tags_distinct();
    let recs = rows_fields(dir, rows);
    assert forall|i: int, k: int| 0 <= i < recs.len() && 0 <= k < recs[i].len() implies field_tag_ok(
        #[trigger] recs[i][k].0,
    ) by {
        assert(recs[i] == row_fields(dir, rows[i]));
        lemma_row_field_tags(dir, rows[i], k);
        lemma_export_names(dir, rows);
    }
    law_records_read_back(recs);
    lemma_kept_rows(dir, rows);
}

/// A system's `gamelist.xml` text for `rows`.
pub fn export_gamelist_xml(rows: &[ExportRow], gamelist_rel_dir: &str) -> (r: String)
    ensures
        r@ == xml_render(export_events(gamelist_rel_dir@, rows@)),
        reads_back_as(r@, export_events(gamelist_rel_dir@, rows@)),
{
    let evs = export_gamelist_events(rows, gamelist_rel_dir);
    proof {
        lemma_export_is_record_doc(gamelist_rel_dir@, rows@);
    }
    render_xml(evs.as_slice())
}

} // verus!
