//! No-Intro / Redump DAT files (Logiqx `datafile` XML): their
//! `<game>`/`<machine>` entries, and what a matching entry gives a game.
//!
//! Tolerance: unknown elements and attributes are skipped, a nameless
//! entry is dropped, a `<rom>` without a usable `crc` keeps `crc: None`;
//! only malformed XML is an error. Matching against the index is CRC32
//! only, on the first ROM of an entry that has a CRC.

use vstd::prelude::*;

use crate::intents::{all_digits, digits_from, digits_value, is_digit};
use crate::metadata::xml::{
    attr_value, events_view, get_attr, local_name, local_name_exec, read_xml_events, tag_view,
    xml_events_of, XmlEvent, XmlEventView, XmlTag, XmlTagView,
};
use crate::text::{
    all_hex_digits, ascii_lower_seq, chars_eq_str, chars_of, is_hex_digit, opt_view, push_all,
    push_str, string_of, to_ascii_lower_chars, trim, trim_chars,
};

verus! {

/// One `<rom>` of a DAT entry.
#[derive(Debug, Clone, Default, PartialEq, Eq)]
pub struct DatRom {
    pub name: String,
    pub size: Option<u64>,
    /// Lowercase, zero-padded to 8 hex digits, as the index stores CRC32s.
    pub crc: Option<String>,
    pub md5: Option<String>,
}

/// One `<game>`/`<machine>` of a DAT file.
#[derive(Debug, Clone, Default, PartialEq, Eq)]
pub struct DatEntry {
    /// The `name` attribute, usually the canonical release name.
    pub name: String,
    /// The trimmed `<description>`, when present and non-empty; preferred
    /// over `name` as a title.
    pub description: Option<String>,
    pub roms: Vec<DatRom>,
}

/// A DAT that could not be read.
#[derive(Debug, Clone, PartialEq, Eq)]
pub enum DatError {
    /// Malformed XML, with the reader's message.
    Xml(String),
}

impl DatError {
    /// `"malformed DAT file: <reason>"`.
    pub fn message(&self) -> (r: String)
        ensures
            r@ == "malformed DAT file: "@ + match self {
                DatError::Xml(m) => m@,
            },
    {
        let mut out = chars_of("malformed DAT file: ");
        match self {
            DatError::Xml(m) => push_str(&mut out, m.as_str()),
        }
        string_of(&out)
    }
}

/// Per-match counts.
#[derive(Debug, Clone, Copy, Default, PartialEq, Eq)]
pub struct DatMatchStats {
    pub matched: u64,
    pub unmatched: u64,
}

pub struct DatRomView {
    pub name: Seq<char>,
    pub size: Option<u64>,
    pub crc: Option<Seq<char>>,
    pub md5: Option<Seq<char>>,
}

pub struct DatEntryView {
    pub name: Seq<char>,
    pub description: Option<Seq<char>>,
    pub roms: Seq<DatRomView>,
}

pub open spec fn rom_view(r: DatRom) -> DatRomView {
    DatRomView { name: r.name@, size: r.size, crc: opt_view(r.crc), md5: opt_view(r.md5) }
}

pub open spec fn entry_view(e: DatEntry) -> DatEntryView {
    DatEntryView {
        name: e.name@,
        description: opt_view(e.description),
        roms: e.roms@.map_values(|r: DatRom| rom_view(r)),
    }
}

pub open spec fn entries_view(v: Seq<DatEntry>) -> Seq<DatEntryView> {
    v.map_values(|e: DatEntry| entry_view(e))
}

/// The length of a leading `+`.
pub open spec fn plus_len(s: Seq<char>) -> int {
    if s.len() > 0 && s[0] == '+' {
        1
    } else {
        0
    }
}

/// `u64::from_str`: an optional `+`, then decimal digits, within range.
pub open spec fn parse_u64(s: Seq<char>) -> Option<u64> {
    let d = s.skip(plus_len(s));
    if d.len() > 0 && all_digits(d) && digits_value(d) <= u64::MAX {
        Some(digits_value(d) as u64)
    } else {
        None
    }
}

pub fn parse_u64_exec(s: &[char]) -> (r: Option<u64>)
    ensures
        r == parse_u64(s@),
{
    let n = s.len();
    let start: usize = if n > 0 && s[0] == '+' {
        1
    } else {
        0
    };
    let ghost d = s@.skip(plus_len(s@));
    proof {
        assert(start == plus_len(s@));
    }
    if start == n {
        return None;
    }
    if !digits_from(s, start) {
        proof {
            let k = choose|k: int| start <= k < s@.len() && !is_digit(#[trigger] s@[k]);
            assert(d[k - start] == s@[k]);
            assert(!is_digit(d[k - start]));
            assert(!all_digits(d));
        }
        return None;
    }
    proof {
        assert forall|j: int| 0 <= j < d.len() implies is_digit(#[trigger] d[j]) by {
            assert(d[j] == s@[j + start]);
        }
        assert(all_digits(d));
    }
    let mut acc: u64 = 0;
    let mut i: usize = start;
    while i < n
        invariant
            start <= i <= n == s@.len(),
            start == plus_len(s@),
            d == s@.skip(start as int),
            all_digits(d),
            acc == digits_value(d.take(i - start)),
        decreases n - i,
    {
        let c = s[i];
        let ghost k: int = i - start;
        proof {
            assert(d[k] == c);
            assert(is_digit(d[k]));
            assert(d.take(k + 1).drop_last() =~= d.take(k));
            assert(d.take(k + 1).last() == c);
        }
        let dv = (c as u32 - '0' as u32) as u64;
        proof {
            assert(digits_value(d.take(k + 1)) == acc * 10 + dv);
        }
        if acc > (u64::MAX - dv) / 10 {
            proof {
                assert(acc * 10 + dv > u64::MAX) by (nonlinear_arith)
                    requires
                        acc > (u64::MAX - dv) / 10,
                        dv <= 9,
                ;
                lemma_digits_value_mono(d, k + 1);
                assert(digits_value(d) > u64::MAX);
                assert(d == s@.skip(plus_len(s@)));
            }
            return None;
        }
        assert(acc * 10 + dv <= u64::MAX) by (nonlinear_arith)
            requires
                acc <= (u64::MAX - dv) / 10,
                dv <= 9,
        ;
        acc = acc * 10 + dv;
        i += 1;
    }
    proof {
        assert(d.take(n - start) =~= d);
    }
    Some(acc)
}

/// A longer run of digits is worth at least as much as its prefix.
proof fn lemma_digits_value_mono(d: Seq<char>, k: int)
    requires
        0 <= k <= d.len(),
        all_digits(d),
    ensures
        digits_value(d.take(k)) <= digits_value(d),
    decreases d.len() - k,
{
    if k < d.len() {
        lemma_digits_value_mono(d, k + 1);
        assert(d.take(k + 1).drop_last() =~= d.take(k));
        assert(is_digit(d[k]));
        assert(d.take(k + 1).last() == d[k]);
        assert(digits_value(d.take(k)) <= digits_value(d.take(k)) * 10 + ((d[k] as int) - ('0' as int))) by (nonlinear_arith)
            requires
                '0' <= d[k] <= '9',
        ;
    } else {
        assert(d.take(k) =~= d);
    }
}

/// A DAT CRC as the index stores it: trimmed, 1 to 8 hex digits,
/// lowercased and zero-padded on the left to 8; anything else is dropped.
pub open spec fn normalize_crc(raw: Seq<char>) -> Option<Seq<char>> {
    let t = trim(raw);
    if t.len() == 0 || t.len() > 8 || !(forall|i: int| 0 <= i < t.len() ==> is_hex_digit(#[trigger] t[i])) {
        None
    } else {
        Some(Seq::new((8 - t.len()) as nat, |i: int| '0') + ascii_lower_seq(t))
    }
}

pub fn normalize_crc_exec(raw: &str) -> (r: Option<String>)
    ensures
        opt_view(r) == normalize_crc(raw@),
{
    let t = trim_chars(chars_of(raw).as_slice());
    if t.len() == 0 || t.len() > 8 || !all_hex_digits(t.as_slice()) {
        return None;
    }
    let mut out: Vec<char> = Vec::new();
    let pad = 8 - t.len();
    let mut i: usize = 0;
    while i < pad
        invariant
            i <= pad,
            out@ == Seq::new(i as nat, |k: int| '0'),
        decreases pad - i,
    {
        out.push('0');
        i += 1;
        proof {
            assert(out@ =~= Seq::new(i as nat, |k: int| '0'));
        }
    }
    let lower = to_ascii_lower_chars(t.as_slice());
    push_all(&mut out, lower.as_slice());
    Some(string_of(&out))
}

/// `""` for a missing value.
pub open spec fn or_empty(o: Option<Seq<char>>) -> Seq<char> {
    match o {
        Some(s) => s,
        None => Seq::empty(),
    }
}

/// The ROM a `<rom>` tag describes.
pub open spec fn rom_of(t: XmlTagView) -> DatRomView {
    DatRomView {
        name: or_empty(attr_value(t.attrs, "name"@)),
        size: match attr_value(t.attrs, "size"@) {
            Some(s) => parse_u64(s),
            None => None,
        },
        crc: match attr_value(t.attrs, "crc"@) {
            Some(s) => normalize_crc(s),
            None => None,
        },
        md5: attr_value(t.attrs, "md5"@),
    }
}

/// The state of a DAT read: finished entries, the open entry, and the
/// `<description>` text being collected.
pub struct DatState {
    pub entries: Seq<DatEntryView>,
    pub current: Option<DatEntryView>,
    pub in_desc: bool,
    pub text: Seq<char>,
}

pub open spec fn is_entry_tag(l: Seq<char>) -> bool {
    l == "game"@ || l == "machine"@
}

pub open spec fn with_rom(s: DatState, t: XmlTagView) -> DatState {
    match s.current {
        Some(c) => DatState {
            current: Some(DatEntryView { roms: c.roms.push(rom_of(t)), ..c }),
            ..s
        },
        None => s,
    }
}

/// One event of a DAT document.
pub open spec fn dat_step(s: DatState, e: XmlEventView) -> DatState {
    match e {
        XmlEventView::Start(t) => {
            let l = local_name(t.name);
            if is_entry_tag(l) && s.current is None {
                DatState {
                    current: Some(
                        DatEntryView {
                            name: or_empty(attr_value(t.attrs, "name"@)),
                            description: None,
                            roms: Seq::empty(),
                        },
                    ),
                    ..s
                }
            } else if l == "description"@ && s.current is Some {
                DatState { in_desc: true, text: Seq::empty(), ..s }
            } else if l == "rom"@ && s.current is Some {
                with_rom(s, t)
            } else {
                s
            }
        },
        XmlEventView::Empty(t) => if local_name(t.name) == "rom"@ && s.current is Some {
            with_rom(s, t)
        } else {
            s
        },
        XmlEventView::Text(x) => if s.in_desc {
            DatState { text: s.text + x, ..s }
        } else {
            s
        },
        XmlEventView::End(n) => {
            let l = local_name(n);
            if l == "description"@ && s.in_desc {
                let v = trim(s.text);
                DatState {
                    in_desc: false,
                    text: Seq::empty(),
                    current: match s.current {
                        Some(c) => Some(
                            if v.len() > 0 {
                                DatEntryView { description: Some(v), ..c }
                            } else {
                                c
                            },
                        ),
                        None => None,
                    },
                    ..s
                }
            } else if is_entry_tag(l) {
                match s.current {
                    Some(c) => DatState {
                        current: None,
                        entries: if c.name.len() > 0 {
                            s.entries.push(c)
                        } else {
                            s.entries
                        },
                        ..s
                    },
                    None => s,
                }
            } else {
                s
            }
        },
        _ => s,
    }
}

pub open spec fn dat_fold(s: DatState, events: Seq<XmlEventView>) -> DatState
    decreases events.len(),
{
    if events.len() == 0 {
        s
    } else {
        dat_step(dat_fold(s, events.drop_last()), events.last())
    }
}

pub open spec fn dat_start() -> DatState {
    DatState { entries: Seq::empty(), current: None, in_desc: false, text: Seq::empty() }
}

/// The entries of a DAT document read as `events`.
pub open spec fn dat_entries(events: Seq<XmlEventView>) -> Seq<DatEntryView> {
    dat_fold(dat_start(), events).entries
}

struct DatReader {
    entries: Vec<DatEntry>,
    current: Option<DatEntry>,
    in_desc: bool,
    text: Vec<char>,
}

impl DatReader {
    spec fn view_state(&self) -> DatState {
        DatState {
            entries: entries_view(self.entries@),
            current: match self.current {
                Some(c) => Some(entry_view(c)),
                None => None,
            },
            in_desc: self.in_desc,
            text: self.text@,
        }
    }

    fn rom(t: &XmlTag) -> (r: DatRom)
        ensures
            rom_view(r) == rom_of(tag_view(*t)),
    {
        let name = match get_attr(t, "name") {
            Some(v) => v,
            None => {
                let e: Vec<char> = Vec::new();
                proof {
                    assert(e@ =~= Seq::<char>::empty());
                }
                string_of(&e)
            },
        };
        let size = match get_attr(t, "size") {
            Some(v) => parse_u64_exec(chars_of(v.as_str()).as_slice()),
            None => None,
        };
        let crc = match get_attr(t, "crc") {
            Some(v) => normalize_crc_exec(v.as_str()),
            None => None,
        };
        DatRom { name, size, crc, md5: get_attr(t, "md5") }
    }

    fn push_rom(&mut self, t: &XmlTag)
        ensures
            final(self).view_state() == with_rom(old(self).view_state(), tag_view(*t)),
    {
        let rom = Self::rom(t);
        match &mut self.current {
            Some(c) => {
                let ghost roms0 = c.roms@;
                c.roms.push(rom);
                proof {
                    assert(c.roms@.map_values(|r: DatRom| rom_view(r)) =~= roms0.map_values(
                        |r: DatRom| rom_view(r),
                    ).push(rom_view(rom)));
                }
            },
            None => {},
        }
    }

    fn step(&mut self, e: &XmlEvent)
        ensures
            final(self).view_state() == dat_step(old(self).view_state(), crate::metadata::xml::event_view(*e)),
    {
        match e {
            XmlEvent::Start(t) => {
                let l = local_name_exec(t.name.as_str());
                if (chars_eq_str(l.as_slice(), "game") || chars_eq_str(l.as_slice(), "machine"))
                    && self.current.is_none() {
                    let name = match get_attr(t, "name") {
                        Some(v) => v,
                        None => {
                            let e: Vec<char> = Vec::new();
                            proof {
                                assert(e@ =~= Seq::<char>::empty());
                            }
                            string_of(&e)
                        },
                    };
                    let entry = DatEntry { name, description: None, roms: Vec::new() };
                    proof {
                        assert(entry.roms@.map_values(|r: DatRom| rom_view(r)) =~= Seq::<
                            DatRomView,
                        >::empty());
                    }
                    self.current = Some(entry);
                } else if chars_eq_str(l.as_slice(), "description") && self.current.is_some() {
                    self.in_desc = true;
                    self.text = Vec::new();
                    proof {
                        assert(self.text@ =~= Seq::<char>::empty());
                    }
                } else if chars_eq_str(l.as_slice(), "rom") && self.current.is_some() {
                    self.push_rom(t);
                }
            },
            XmlEvent::Empty(t) => {
                let l = local_name_exec(t.name.as_str());
                if chars_eq_str(l.as_slice(), "rom") && self.current.is_some() {
                    self.push_rom(t);
                }
            },
            XmlEvent::Text(x) => {
                if self.in_desc {
                    push_str(&mut self.text, x.as_str());
                }
            },
            XmlEvent::End(n) => {
                let l = local_name_exec(n.as_str());
                if chars_eq_str(l.as_slice(), "description") && self.in_desc {
                    self.in_desc = false;
                    let v = trim_chars(self.text.as_slice());
                    self.text = Vec::new();
                    proof {
                        assert(self.text@ =~= Seq::<char>::empty());
                    }
                    if v.len() > 0 {
                        match &mut self.current {
                            Some(c) => {
                                c.description = Some(string_of(&v));
                            },
                            None => {},
                        }
                    }
                } else if chars_eq_str(l.as_slice(), "game") || chars_eq_str(l.as_slice(), "machine") {
                    match self.current.take() {
                        Some(c) => {
                            if chars_of(c.name.as_str()).len() > 0 {
                                let ghost e0 = self.entries@;
                                self.entries.push(c);
                                proof {
                                    assert(entries_view(self.entries@) =~= entries_view(e0).push(
                                        entry_view(c),
                                    ));
                                }
                            }
                        },
                        None => {},
                    }
                }
            },
            _ => {},
        }
    }
}

/// The entries of a DAT document given as its events.
pub fn dat_from_events(events: &[XmlEvent]) -> (r: Vec<DatEntry>)
    ensures
        entries_view(r@) == dat_entries(events_view(events@)),
{
    let mut rd = DatReader { entries: Vec::new(), current: None, in_desc: false, text: Vec::new() };
    proof {
        assert(entries_view(rd.entries@) =~= Seq::<DatEntryView>::empty());
        assert(rd.text@ =~= Seq::<char>::empty());
        assert(events_view(events@).take(0) =~= Seq::<XmlEventView>::empty());
    }
    let mut i: usize = 0;
    while i < events.len()
        invariant
            i <= events@.len(),
            rd.view_state() == dat_fold(dat_start(), events_view(events@).take(i as int)),
        decreases events.len() - i,
    {
        rd.step(&events[i]);
        proof {
            let t = events_view(events@).take(i + 1);
            assert(t.drop_last() =~= events_view(events@).take(i as int));
        }
        i += 1;
    }
    proof {
        assert(events_view(events@).take(events@.len() as int) =~= events_view(events@));
    }
    rd.entries
}

/// Parses a DAT document into its entries; malformed XML is an error.
pub fn parse_dat(xml: &str) -> (r: Result<Vec<DatEntry>, DatError>)
    ensures
        match xml_events_of(xml@) {
            Ok(evs) => r matches Ok(v) && entries_view(v@) == dat_entries(evs),
            Err(m) => r matches Err(DatError::Xml(msg)) && msg@ == m,
        },
{
    match read_xml_events(xml) {
        Ok(evs) => Ok(dat_from_events(evs.as_slice())),
        Err(m) => Err(DatError::Xml(m)),
    }
}

proof fn lemma_dat_fold(events: Seq<XmlEventView>)
    ensures
        forall|i: int|
            0 <= i < dat_fold(dat_start(), events).entries.len() ==> (#[trigger] dat_fold(
                dat_start(),
                events,
            ).entries[i]).name.len() > 0,
    decreases events.len(),
{
    if events.len() > 0 {
        lemma_dat_fold(events.drop_last());
    }
}

/// An entry without a name is dropped: every entry read has a non-empty
/// name, whatever the document.
pub proof fn law_dat_entries_have_names(events: Seq<XmlEventView>)
    ensures
        forall|i: int| 0 <= i < dat_entries(events).len() ==> (#[trigger] dat_entries(events)[i]).name.len() > 0,
{
    lemma_dat_fold(events);
}

/// Whether an event opens a `<game>` or `<machine>` entry.
pub open spec fn opens_entry(e: XmlEventView) -> bool {
    e matches XmlEventView::Start(t) && is_entry_tag(local_name(t.name))
}

proof fn lemma_no_entry(events: Seq<XmlEventView>)
    requires
        forall|k: int| 0 <= k < events.len() ==> !opens_entry(#[trigger] events[k]),
    ensures
        dat_fold(dat_start(), events).entries.len() == 0,
        dat_fold(dat_start(), events).current is None,
    decreases events.len(),
{
    if events.len() > 0 {
        let p = events.drop_last();
        assert forall|k: int| 0 <= k < p.len() implies !opens_entry(#[trigger] p[k]) by {
            assert(p[k] == events[k]);
        }
        lemma_no_entry(p);
        assert(!opens_entry(events[events.len() - 1]));
    }
}

/// Only `<game>` and `<machine>` elements make entries: a document with
/// neither has none, whatever `<rom>` tags it holds.
pub proof fn law_entries_only_from_game_or_machine(events: Seq<XmlEventView>)
    requires
        forall|k: int| 0 <= k < events.len() ==> !opens_entry(#[trigger] events[k]),
    ensures
        dat_entries(events).len() == 0,
{
    lemma_no_entry(events);
}

/// The number of `true` outcomes.
pub open spec fn count_true(v: Seq<bool>) -> nat
    decreases v.len(),
{
    if v.len() == 0 {
        0
    } else {
        count_true(v.drop_last()) + if v.last() {
            1nat
        } else {
            0nat
        }
    }
}

/// The counts of a DAT import from each entry's outcome (`true` when its
/// CRC matched an indexed file of the system): matched and unmatched
/// entries.
pub fn dat_tally(matched: &[bool]) -> (s: DatMatchStats)
    ensures
        s.matched == count_true(matched@),
        s.matched + s.unmatched == matched@.len(),
{
    let mut m: u64 = 0;
    let mut u: u64 = 0;
    let mut i: usize = 0;
    while i < matched.len()
        invariant
            i <= matched@.len(),
            m == count_true(matched@.take(i as int)),
            m + u == i,
        decreases matched.len() - i,
    {
        proof {
            assert(matched@.take(i + 1).drop_last() =~= matched@.take(i as int));
        }
        if matched[i] {
            m = m + 1;
        } else {
            u = u + 1;
        }
        i += 1;
    }
    proof {
        assert(matched@.take(matched@.len() as int) =~= matched@);
    }
    DatMatchStats { matched: m, unmatched: u }
}

/// The CRC an entry is matched by: that of its first ROM with one.
pub open spec fn entry_crc_spec(roms: Seq<DatRomView>) -> Option<Seq<char>>
    decreases roms.len(),
{
    if roms.len() == 0 {
        None
    } else if roms[0].crc is Some {
        roms[0].crc
    } else {
        entry_crc_spec(roms.skip(1))
    }
}

/// An entry is matched by the CRC of its first ROM that has one, and has no
/// CRC exactly when none of its ROMs has one.
pub proof fn law_entry_crc_is_first_rom_crc(roms: Seq<DatRomView>)
    ensures
        forall|k: int|
            0 <= k < roms.len() && (#[trigger] roms[k]).crc is Some && (forall|j: int|
                0 <= j < k ==> roms[j].crc is None) ==> entry_crc_spec(roms) == roms[k].crc,
        (entry_crc_spec(roms) is None) == (forall|k: int|
            0 <= k < roms.len() ==> (#[trigger] roms[k]).crc is None),
        roms.len() > 0 && roms[0].crc is Some ==> entry_crc_spec(roms) == roms[0].crc,
    decreases roms.len(),
{
    if roms.len() > 0 {
        let rest = roms.skip(1);
        law_entry_crc_is_first_rom_crc(rest);
        assert forall|k: int|
            0 <= k < roms.len() && (#[trigger] roms[k]).crc is Some && (forall|j: int|
                0 <= j < k ==> roms[j].crc is None) implies entry_crc_spec(roms) == roms[k].crc by {
            if k > 0 {
                assert(roms[0].crc is None);
                assert(rest[k - 1] == roms[k]);
                assert forall|j: int| 0 <= j < k - 1 implies rest[j].crc is None by {
                    assert(rest[j] == roms[j + 1]);
                }
            }
        }
        if roms[0].crc is None {
            if forall|k: int| 0 <= k < rest.len() ==> (#[trigger] rest[k]).crc is None {
                assert forall|k: int| 0 <= k < roms.len() implies (#[trigger] roms[k]).crc is None by {
                    if k > 0 {
                        assert(rest[k - 1] == roms[k]);
                    }
                }
            } else {
                let k = choose|k: int| 0 <= k < rest.len() && (#[trigger] rest[k]).crc is Some;
                assert(roms[k + 1] == rest[k]);
            }
        }
    }
}

pub fn entry_crc(entry: &DatEntry) -> (r: Option<String>)
    ensures
        opt_view(r) == entry_crc_spec(entry_view(*entry).roms),
        forall|k: int|
            0 <= k < entry_view(*entry).roms.len() && (#[trigger] entry_view(*entry).roms[k]).crc is Some
                && (forall|j: int| 0 <= j < k ==> entry_view(*entry).roms[j].crc is None)
                ==> opt_view(r) == entry_view(*entry).roms[k].crc,
        r is None <==> (forall|k: int|
            0 <= k < entry_view(*entry).roms.len() ==> (#[trigger] entry_view(*entry).roms[k]).crc is None),
{
    proof {
        law_entry_crc_is_first_rom_crc(entry_view(*entry).roms);
    }
    let ghost roms = entry_view(*entry).roms;
    let mut i: usize = 0;
    proof {
        assert(roms.skip(0) =~= roms);
    }
    while i < entry.roms.len()
        invariant
            i <= entry.roms@.len(),
            roms == entry_view(*entry).roms,
            entry_crc_spec(roms) == entry_crc_spec(roms.skip(i as int)),
        decreases entry.roms.len() - i,
    {
        proof {
            assert(roms.skip(i as int)[0] == rom_view(entry.roms@[i as int]));
            assert(roms.skip(i as int).skip(1) =~= roms.skip(i + 1));
        }
        match &entry.roms[i].crc {
            Some(c) => {
                proof {
                    law_entry_crc_is_first_rom_crc(roms);
                }
                return Some(string_of(&chars_of(c.as_str())));
            },
            None => {},
        }
        i += 1;
    }
    proof {
        assert(roms.skip(i as int).len() == 0);
    }
    None
}

/// The title a matched entry gives its game: the description, else the
/// name.
pub fn entry_title(entry: &DatEntry) -> (r: String)
    ensures
        r@ == match entry.description {
            Some(d) => d@,
            None => entry.name@,
        },
{
    match &entry.description {
        Some(d) => string_of(&chars_of(d.as_str())),
        None => string_of(&chars_of(entry.name.as_str())),
    }
}

} // verus!
