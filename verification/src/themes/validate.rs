//! Manifest and theme-folder validation.
//!
//! [`validate_manifest`] checks everything the manifest text alone decides;
//! the folder checks add that every `[sounds]` file stays inside the theme
//! folder, exists, and has a sound format. Errors reject a theme; warnings
//! (unknown keys, an unusual scale) are reported and the theme still
//! loads.

use vstd::prelude::*;

use crate::paths::{extension, extension_exec};
use crate::scan::{int_text, push_i64};
use crate::text::{
    all_hex_digits, ascii_lower_seq, chars_eq, chars_eq_str, chars_of, copy_range, is_hex_digit,
    push_all, push_str, starts_with, starts_with_chars, string_of, to_ascii_lower_chars,
};
use crate::themes::toml_doc::{
    doc_view, item_view, leaf_view, parse_toml, toml_doc_of, top_view, TomlDoc, TomlItem,
    TomlItemView, TomlLeaf, TomlTop,
};

verus! {

/// How serious a finding is: errors reject the theme, warnings do not.
#[derive(Debug, Clone, Copy, PartialEq, Eq, Structural)]
pub enum Severity {
    Error,
    Warning,
}

/// One finding: a stable kebab-case `code` and a message for people.
#[derive(Debug, Clone)]
pub struct Issue {
    pub severity: Severity,
    pub code: String,
    pub message: String,
}

pub open spec fn issue_view(i: Issue) -> (Severity, Seq<char>, Seq<char>) {
    (i.severity, i.code@, i.message@)
}

pub open spec fn issues_view(v: Seq<Issue>) -> Seq<(Severity, Seq<char>, Seq<char>)> {
    v.map_values(|i: Issue| issue_view(i))
}

pub open spec fn err(code: Seq<char>, msg: Seq<char>) -> Seq<(Severity, Seq<char>, Seq<char>)> {
    seq![(Severity::Error, code, msg)]
}

pub open spec fn warn(code: Seq<char>, msg: Seq<char>) -> Seq<(Severity, Seq<char>, Seq<char>)> {
    seq![(Severity::Warning, code, msg)]
}

/// The tables a manifest may have, for their known keys.
#[derive(Debug, Clone, Copy, PartialEq, Eq, Structural)]
pub enum Section {
    Top,
    Theme,
    Colors,
    Dark,
    Light,
    Typography,
    Shape,
    Sounds,
}

/// The keys a section knows; any other is a warning.
pub open spec fn known_key(s: Section, k: Seq<char>) -> bool {
    match s {
        Section::Top => k == "theme"@ || k == "colors"@ || k == "typography"@ || k == "shape"@ || k
            == "sounds"@,
        Section::Theme => k == "name"@ || k == "author"@ || k == "version"@ || k
            == "format_version"@ || k == "description"@,
        Section::Colors => k == "dark"@ || k == "light"@,
        Section::Dark | Section::Light => k == "bg"@ || k == "surface"@ || k == "text"@ || k
            == "text_dim"@ || k == "accent"@ || k == "favorite"@,
        Section::Typography => k == "font_family"@ || k == "scale"@,
        Section::Shape => k == "radius"@,
        Section::Sounds => k == "move"@ || k == "select"@ || k == "back"@,
    }
}

fn known_key_exec(s: Section, k: &[char]) -> (b: bool)
    ensures
        b == known_key(s, k@),
{
    match s {
        Section::Top => chars_eq_str(k, "theme") || chars_eq_str(k, "colors") || chars_eq_str(
            k,
            "typography",
        ) || chars_eq_str(k, "shape") || chars_eq_str(k, "sounds"),
        Section::Theme => chars_eq_str(k, "name") || chars_eq_str(k, "author") || chars_eq_str(
            k,
            "version",
        ) || chars_eq_str(k, "format_version") || chars_eq_str(k, "description"),
        Section::Colors => chars_eq_str(k, "dark") || chars_eq_str(k, "light"),
        Section::Dark | Section::Light => chars_eq_str(k, "bg") || chars_eq_str(k, "surface")
            || chars_eq_str(k, "text") || chars_eq_str(k, "text_dim") || chars_eq_str(k, "accent")
            || chars_eq_str(k, "favorite"),
        Section::Typography => chars_eq_str(k, "font_family") || chars_eq_str(k, "scale"),
        Section::Shape => chars_eq_str(k, "radius"),
        Section::Sounds => chars_eq_str(k, "move") || chars_eq_str(k, "select") || chars_eq_str(
            k,
            "back",
        ),
    }
}

pub open spec fn section_name(s: Section) -> Seq<char> {
    match s {
        Section::Top => Seq::empty(),
        Section::Theme => "theme"@,
        Section::Colors => "colors"@,
        Section::Dark => "colors.dark"@,
        Section::Light => "colors.light"@,
        Section::Typography => "typography"@,
        Section::Shape => "shape"@,
        Section::Sounds => "sounds"@,
    }
}

fn section_name_exec(s: Section) -> (r: &'static str)
    ensures
        r@ == section_name(s),
{
    match s {
        Section::Top => {
            proof {
                reveal_strlit("");
            }
            ""
        },
        Section::Theme => "theme",
        Section::Colors => "colors",
        Section::Dark => "colors.dark",
        Section::Light => "colors.light",
        Section::Typography => "typography",
        Section::Shape => "shape",
        Section::Sounds => "sounds",
    }
}

/// The warning for an unknown key.
pub open spec fn unknown_msg(s: Section, k: Seq<char>) -> Seq<char> {
    if s == Section::Top {
        "unknown top-level key `"@ + k + "`"@
    } else {
        "unknown key in `["@ + section_name(s) + "]`: `"@ + k + "`"@
    }
}

/// A warning per unknown key, in key order.
pub open spec fn unknown_issues(s: Section, keys: Seq<Seq<char>>) -> Seq<(Severity, Seq<char>, Seq<char>)>
    decreases keys.len(),
{
    if keys.len() == 0 {
        Seq::empty()
    } else {
        unknown_issues(s, keys.drop_last()) + if known_key(s, keys.last()) {
            Seq::empty()
        } else {
            warn("unknown-key"@, unknown_msg(s, keys.last()))
        }
    }
}

pub open spec fn keys_of<T>(es: Seq<(Seq<char>, T)>) -> Seq<Seq<char>> {
    es.map_values(|e: (Seq<char>, T)| e.0)
}

/// The first index at or after `i` whose key is `k`.
pub open spec fn key_from(keys: Seq<Seq<char>>, k: Seq<char>, i: int) -> Option<int>
    decreases keys.len() - i,
{
    if i < 0 || i >= keys.len() {
        None
    } else if keys[i] == k {
        Some(i)
    } else {
        key_from(keys, k, i + 1)
    }
}

/// The value of key `k` in a table's entries.
pub open spec fn lookup<T>(es: Seq<(Seq<char>, T)>, k: Seq<char>) -> Option<T> {
    match key_from(keys_of(es), k, 0) {
        Some(i) => Some(es[i].1),
        None => None,
    }
}

/// An issue built from parts.
fn issue(severity: Severity, code: &str, message: &Vec<char>) -> (r: Issue)
    ensures
        issue_view(r) == (severity, code@, message@),
{
    Issue { severity, code: string_of(&chars_of(code)), message: string_of(message) }
}

fn one(i: Issue) -> (r: Vec<Issue>)
    ensures
        issues_view(r@) == seq![issue_view(i)],
{
    let mut r: Vec<Issue> = Vec::new();
    r.push(i);
    proof {
        assert(issues_view(r@) =~= seq![issue_view(i)]);
    }
    r
}

fn none() -> (r: Vec<Issue>)
    ensures
        issues_view(r@) == Seq::<(Severity, Seq<char>, Seq<char>)>::empty(),
{
    let r: Vec<Issue> = Vec::new();
    proof {
        assert(issues_view(r@) =~= Seq::<(Severity, Seq<char>, Seq<char>)>::empty());
    }
    r
}

fn append(a: &mut Vec<Issue>, b: Vec<Issue>)
    ensures
        issues_view(final(a)@) == issues_view(old(a)@) + issues_view(b@),
{
    let mut b = b;
    let ghost bb = b@;
    a.append(&mut b);
    proof {
        assert(issues_view(a@) =~= issues_view(old(a)@) + issues_view(bb));
    }
}

/// Index of the entry with key `k`.
fn key_index<T>(es: &Vec<(String, T)>, k: &str) -> (r: Option<usize>)
    ensures
        match r {
            Some(i) => i < es@.len() && key_from(
                es@.map_values(|e: (String, T)| e.0@),
                k@,
                0,
            ) == Some(i as int),
            None => key_from(es@.map_values(|e: (String, T)| e.0@), k@, 0) is None,
        },
{
    let ghost keys = es@.map_values(|e: (String, T)| e.0@);
    let kc = chars_of(k);
    let mut i: usize = 0;
    while i < es.len()
        invariant
            i <= es@.len(),
            kc@ == k@,
            keys == es@.map_values(|e: (String, T)| e.0@),
            key_from(keys, k@, 0) == key_from(keys, k@, i as int),
        decreases es.len() - i,
    {
        if chars_eq(chars_of(es[i].0.as_str()).as_slice(), kc.as_slice()) {
            return Some(i);
        }
        i += 1;
    }
    None
}

/// The unknown-key warnings of a table with the given keys.
fn unknown_exec<T>(s: Section, es: &Vec<(String, T)>) -> (r: Vec<Issue>)
    ensures
        issues_view(r@) == unknown_issues(s, es@.map_values(|e: (String, T)| e.0@)),
{
    let ghost keys = es@.map_values(|e: (String, T)| e.0@);
    let mut out = none();
    let mut i: usize = 0;
    while i < es.len()
        invariant
            i <= es@.len(),
            keys == es@.map_values(|e: (String, T)| e.0@),
            issues_view(out@) == unknown_issues(s, keys.take(i as int)),
        decreases es.len() - i,
    {
        let k = chars_of(es[i].0.as_str());
        proof {
            assert(keys.take(i + 1).drop_last() =~= keys.take(i as int));
            assert(keys.take(i + 1).last() == k@);
        }
        if !known_key_exec(s, k.as_slice()) {
            let mut m: Vec<char> = Vec::new();
            if s == Section::Top {
                push_str(&mut m, "unknown top-level key `");
                push_all(&mut m, k.as_slice());
                push_str(&mut m, "`");
            } else {
                push_str(&mut m, "unknown key in `[");
                push_str(&mut m, section_name_exec(s));
                push_str(&mut m, "]`: `");
                push_all(&mut m, k.as_slice());
                push_str(&mut m, "`");
            }
            proof {
                assert(m@ =~= unknown_msg(s, k@));
            }
            append(&mut out, one(issue(Severity::Warning, "unknown-key", &m)));
        } else {
            append(&mut out, none());
        }
        i += 1;
    }
    proof {
        assert(keys.take(es@.len() as int) =~= keys);
    }
    out
}

// ---------------------------------------------------------------------
// Hex colors and numbers
// ---------------------------------------------------------------------

/// A hex color: `#` and 3, 4, 6 or 8 hex digits.
pub open spec fn is_valid_hex_spec(s: Seq<char>) -> bool {
    s.len() > 0 && s[0] == '#' && {
        let rest = s.skip(1);
        (rest.len() == 3 || rest.len() == 4 || rest.len() == 6 || rest.len() == 8) && forall|i: int|
            0 <= i < rest.len() ==> is_hex_digit(#[trigger] rest[i])
    }
}

pub fn is_valid_hex(s: &str) -> (b: bool)
    ensures
        b == is_valid_hex_spec(s@),
{
    let c = chars_of(s);
    let n = c.len();
    if n == 0 || c[0] != '#' {
        return false;
    }
    let rest = copy_range(c.as_slice(), 1, n);
    proof {
        assert(rest@ =~= s@.skip(1));
    }
    let rl = rest.len();
    if !(rl == 3 || rl == 4 || rl == 6 || rl == 8) {
        return false;
    }
    all_hex_digits(rest.as_slice())
}

/// The exponent field of an IEEE-754 double.
pub open spec fn exp_bits(bits: u64) -> int {
    (bits as int / 0x10_0000_0000_0000) % 0x800
}

/// The bits are a NaN.
pub open spec fn is_nan_bits(bits: u64) -> bool {
    exp_bits(bits) == 0x7ff && bits as int % 0x10_0000_0000_0000 != 0
}

/// The double is `<= 0.0`: not a NaN, and negative or a zero.
pub open spec fn le_zero_bits(bits: u64) -> bool {
    !is_nan_bits(bits) && (bits >= 0x8000_0000_0000_0000 || bits == 0)
}

/// The double lies in `[0.5, 3.0]`.
pub open spec fn in_scale_range_bits(bits: u64) -> bool {
    0x3FE0_0000_0000_0000 <= bits <= 0x4008_0000_0000_0000
}

// ---------------------------------------------------------------------
// The manifest rules
// ---------------------------------------------------------------------

/// The findings on `[theme]`: its unknown keys, then `name` (a string)
/// and `format_version` (an integer the engine supports, only 1).
pub open spec fn theme_issues(root: Seq<(Seq<char>, Option<Seq<(Seq<char>, TomlItemView)>>)>) -> Seq<(Severity, Seq<char>, Seq<char>)> {
    match lookup(root, "theme"@) {
        Some(Some(t)) => unknown_issues(Section::Theme, keys_of(t)) + (match lookup(t, "name"@) {
            Some(TomlItemView::Str(_)) => Seq::empty(),
            _ => err(
                "missing-name"@,
                "required field `theme.name` is missing or not a string"@,
            ),
        }) + (match lookup(t, "format_version"@) {
            Some(TomlItemView::Int(v)) => if v == 1 {
                Seq::empty()
            } else {
                err(
                    "unsupported-format-version"@,
                    "theme targets format v"@ + int_text(v as int)
                        + ", this Relic supports v1\u{2013}v1"@,
                )
            },
            _ => err(
                "missing-format-version"@,
                "required field `theme.format_version` is missing or not an integer"@,
            ),
        }),
        _ => err("missing-theme-table"@, "required `[theme]` table is missing"@) + err(
            "missing-name"@,
            "required field `theme.name` is missing"@,
        ) + err("missing-format-version"@, "required field `theme.format_version` is missing"@),
    }
}

/// The finding on one color of a variant.
pub open spec fn color_issue(set: Seq<(Seq<char>, Option<Seq<char>>)>, v: Seq<char>, key: Seq<char>) -> Seq<(Severity, Seq<char>, Seq<char>)> {
    match lookup(set, key) {
        None => Seq::empty(),
        Some(Some(s)) => if is_valid_hex_spec(s) {
            Seq::empty()
        } else {
            err(
                "bad-color"@,
                "`colors."@ + v + "."@ + key + "` is not a valid hex color: `"@ + s + "`"@,
            )
        },
        Some(None) => err("bad-color"@, "`colors."@ + v + "."@ + key + "` must be a string"@),
    }
}

/// The findings on one color variant, when it is a table.
pub open spec fn variant_issues(c: Seq<(Seq<char>, TomlItemView)>, dark: bool) -> Seq<(Severity, Seq<char>, Seq<char>)> {
    let v = if dark {
        "dark"@
    } else {
        "light"@
    };
    match lookup(c, v) {
        Some(TomlItemView::Table(set)) => unknown_issues(
            if dark {
                Section::Dark
            } else {
                Section::Light
            },
            keys_of(set),
        ) + color_issue(set, v, "bg"@) + color_issue(set, v, "surface"@) + color_issue(
            set,
            v,
            "text"@,
        ) + color_issue(set, v, "text_dim"@) + color_issue(set, v, "accent"@) + color_issue(
            set,
            v,
            "favorite"@,
        ),
        _ => Seq::empty(),
    }
}

/// The findings on `[colors]`.
pub open spec fn colors_issues(root: Seq<(Seq<char>, Option<Seq<(Seq<char>, TomlItemView)>>)>) -> Seq<(Severity, Seq<char>, Seq<char>)> {
    match lookup(root, "colors"@) {
        Some(Some(c)) => unknown_issues(Section::Colors, keys_of(c)) + variant_issues(c, true)
            + variant_issues(c, false),
        _ => Seq::empty(),
    }
}

/// The findings on a scale value read as a number (`le0`: it is `<= 0`;
/// `in_range`: it lies in `[0.5, 3.0]`; `text`: how it displays).
pub open spec fn scale_number_issues(le0: bool, in_range: bool, text: Seq<char>) -> Seq<(Severity, Seq<char>, Seq<char>)> {
    if le0 {
        err("scale-out-of-range"@, "`typography.scale` must be > 0"@)
    } else if !in_range {
        warn(
            "scale-out-of-range"@,
            "`typography.scale` ("@ + text + ") outside recommended [0.5, 3.0]"@,
        )
    } else {
        Seq::empty()
    }
}

/// The findings on `[typography]`. An integer scale displays as the
/// integer.
pub open spec fn typography_issues(root: Seq<(Seq<char>, Option<Seq<(Seq<char>, TomlItemView)>>)>) -> Seq<(Severity, Seq<char>, Seq<char>)> {
    match lookup(root, "typography"@) {
        Some(Some(t)) => unknown_issues(Section::Typography, keys_of(t)) + match lookup(t, "scale"@) {
            None => Seq::empty(),
            Some(TomlItemView::Float(bits, text)) => scale_number_issues(
                le_zero_bits(bits),
                in_scale_range_bits(bits),
                text,
            ),
            Some(TomlItemView::Int(i)) => scale_number_issues(i <= 0, 1 <= i <= 3, int_text(i as int)),
            Some(_) => err("scale-out-of-range"@, "`typography.scale` must be a number"@),
        },
        _ => Seq::empty(),
    }
}

/// The findings on `[shape]`.
pub open spec fn shape_issues(root: Seq<(Seq<char>, Option<Seq<(Seq<char>, TomlItemView)>>)>) -> Seq<(Severity, Seq<char>, Seq<char>)> {
    match lookup(root, "shape"@) {
        Some(Some(s)) => unknown_issues(Section::Shape, keys_of(s)) + match lookup(s, "radius"@) {
            None => Seq::empty(),
            Some(TomlItemView::Int(i)) => if i < 0 {
                err("radius-negative"@, "`shape.radius` must be >= 0"@)
            } else {
                Seq::empty()
            },
            Some(_) => err("radius-negative"@, "`shape.radius` must be an integer"@),
        },
        _ => Seq::empty(),
    }
}

/// The finding on one sound key.
pub open spec fn sound_issue(s: Seq<(Seq<char>, TomlItemView)>, key: Seq<char>) -> Seq<(Severity, Seq<char>, Seq<char>)> {
    match lookup(s, key) {
        None => Seq::empty(),
        Some(TomlItemView::Str(_)) => Seq::empty(),
        Some(_) => err("bad-sound"@, "`sounds."@ + key + "` must be a string"@),
    }
}

/// The findings on `[sounds]`.
pub open spec fn sounds_issues(root: Seq<(Seq<char>, Option<Seq<(Seq<char>, TomlItemView)>>)>) -> Seq<(Severity, Seq<char>, Seq<char>)> {
    match lookup(root, "sounds"@) {
        Some(Some(s)) => unknown_issues(Section::Sounds, keys_of(s)) + sound_issue(s, "move"@)
            + sound_issue(s, "select"@) + sound_issue(s, "back"@),
        _ => Seq::empty(),
    }
}

/// Every finding on a parsed manifest, in rule order.
pub open spec fn manifest_issues(parsed: Result<Option<Seq<(Seq<char>, Option<Seq<(Seq<char>, TomlItemView)>>)>>, Seq<char>>) -> Seq<(Severity, Seq<char>, Seq<char>)> {
    match parsed {
        Err(m) => err("unparseable-toml"@, "theme.toml is not valid TOML: "@ + m),
        Ok(None) => err("unparseable-toml"@, "theme.toml root must be a table"@),
        Ok(Some(root)) => unknown_issues(Section::Top, keys_of(root)) + theme_issues(root)
            + colors_issues(root) + typography_issues(root) + shape_issues(root) + sounds_issues(
            root,
        ),
    }
}


/// Every finding coded `unknown-key` is a warning.
pub open spec fn unknown_keys_warn(v: Seq<(Severity, Seq<char>, Seq<char>)>) -> bool {
    forall|i: int| 0 <= i < v.len() && (#[trigger] v[i]).1 == "unknown-key"@ ==> v[i].0 == Severity::Warning
}

proof fn lemma_warn_concat(a: Seq<(Severity, Seq<char>, Seq<char>)>, b: Seq<(Severity, Seq<char>, Seq<char>)>)
    requires
        unknown_keys_warn(a),
        unknown_keys_warn(b),
    ensures
        unknown_keys_warn(a + b),
{
    assert forall|i: int| 0 <= i < (a + b).len() && (#[trigger] (a + b)[i]).1 == "unknown-key"@ implies (a
        + b)[i].0 == Severity::Warning by {
        if i < a.len() {
            assert((a + b)[i] == a[i]);
        } else {
            assert((a + b)[i] == b[i - a.len()]);
        }
    }
}

/// The codes of errors differ from `unknown-key`.
proof fn lemma_error_codes()
    ensures
        "missing-theme-table"@ != "unknown-key"@,
        "missing-name"@ != "unknown-key"@,
        "missing-format-version"@ != "unknown-key"@,
        "unsupported-format-version"@ != "unknown-key"@,
        "bad-color"@ != "unknown-key"@,
        "scale-out-of-range"@ != "unknown-key"@,
        "radius-negative"@ != "unknown-key"@,
        "bad-sound"@ != "unknown-key"@,
        "unparseable-toml"@ != "unknown-key"@,
{
    reveal_strlit("unknown-key");
    reveal_strlit("missing-theme-table");
    reveal_strlit("missing-name");
    reveal_strlit("missing-format-version");
    reveal_strlit("unsupported-format-version");
    reveal_strlit("bad-color");
    reveal_strlit("scale-out-of-range");
    reveal_strlit("radius-negative");
    reveal_strlit("bad-sound");
    reveal_strlit("unparseable-toml");
    assert("unknown-key"@[0] == 'u');
    assert("missing-theme-table"@[0] == 'm');
    assert("missing-name"@[0] == 'm');
    assert("missing-format-version"@[0] == 'm');
    assert("unknown-key"@[2] == 'k');
    assert("unsupported-format-version"@[2] == 's');
    assert("unparseable-toml"@[2] == 'p');
    assert("bad-color"@[0] == 'b');
    assert("scale-out-of-range"@[0] == 's');
    assert("radius-negative"@[0] == 'r');
    assert("bad-sound"@[0] == 'b');
}

proof fn lemma_err_ok(code: Seq<char>, msg: Seq<char>)
    requires
        code != "unknown-key"@,
    ensures
        unknown_keys_warn(err(code, msg)),
{
    assert(err(code, msg)[0].1 == code);
}

proof fn lemma_warn_ok(code: Seq<char>, msg: Seq<char>)
    ensures
        unknown_keys_warn(warn(code, msg)),
{
    assert(warn(code, msg)[0].0 == Severity::Warning);
}

proof fn lemma_unknown_issues_ok(s: Section, keys: Seq<Seq<char>>)
    ensures
        unknown_keys_warn(unknown_issues(s, keys)),
    decreases keys.len(),
{
    if keys.len() > 0 {
        lemma_unknown_issues_ok(s, keys.drop_last());
        if !known_key(s, keys.last()) {
            lemma_warn_ok("unknown-key"@, unknown_msg(s, keys.last()));
        }
        lemma_warn_concat(
            unknown_issues(s, keys.drop_last()),
            if known_key(s, keys.last()) {
                Seq::empty()
            } else {
                warn("unknown-key"@, unknown_msg(s, keys.last()))
            },
        );
    }
}

proof fn lemma_color_issue_ok(set: Seq<(Seq<char>, Option<Seq<char>>)>, v: Seq<char>, key: Seq<char>)
    ensures
        unknown_keys_warn(color_issue(set, v, key)),
{
    lemma_error_codes();
    match lookup(set, key) {
        None => {},
        Some(Some(s)) => if !is_valid_hex_spec(s) {
            lemma_err_ok(
                "bad-color"@,
                "`colors."@ + v + "."@ + key + "` is not a valid hex color: `"@ + s + "`"@,
            );
        },
        Some(None) => lemma_err_ok("bad-color"@, "`colors."@ + v + "."@ + key + "` must be a string"@),
    }
}

proof fn lemma_variant_ok(c: Seq<(Seq<char>, TomlItemView)>, dark: bool)
    ensures
        unknown_keys_warn(variant_issues(c, dark)),
{
    let v = if dark {
        "dark"@
    } else {
        "light"@
    };
    match lookup(c, v) {
        Some(TomlItemView::Table(set)) => {
            let sec = if dark {
                Section::Dark
            } else {
                Section::Light
            };
            lemma_unknown_issues_ok(sec, keys_of(set));
            lemma_color_issue_ok(set, v, "bg"@);
            lemma_color_issue_ok(set, v, "surface"@);
            lemma_color_issue_ok(set, v, "text"@);
            lemma_color_issue_ok(set, v, "text_dim"@);
            lemma_color_issue_ok(set, v, "accent"@);
            lemma_color_issue_ok(set, v, "favorite"@);
            let a = unknown_issues(sec, keys_of(set));
            let b = a + color_issue(set, v, "bg"@);
            lemma_warn_concat(a, color_issue(set, v, "bg"@));
            let c2 = b + color_issue(set, v, "surface"@);
            lemma_warn_concat(b, color_issue(set, v, "surface"@));
            let d = c2 + color_issue(set, v, "text"@);
            lemma_warn_concat(c2, color_issue(set, v, "text"@));
            let e = d + color_issue(set, v, "text_dim"@);
            lemma_warn_concat(d, color_issue(set, v, "text_dim"@));
            let f = e + color_issue(set, v, "accent"@);
            lemma_warn_concat(e, color_issue(set, v, "accent"@));
            lemma_warn_concat(f, color_issue(set, v, "favorite"@));
        },
        _ => {},
    }
}

proof fn lemma_theme_ok(root: Seq<(Seq<char>, Option<Seq<(Seq<char>, TomlItemView)>>)>)
    ensures
        unknown_keys_warn(theme_issues(root)),
{
    lemma_error_codes();
    match lookup(root, "theme"@) {
        Some(Some(t)) => {
            lemma_unknown_issues_ok(Section::Theme, keys_of(t));
            let n = match lookup(t, "name"@) {
                Some(TomlItemView::Str(_)) => Seq::empty(),
                _ => err("missing-name"@, "required field `theme.name` is missing or not a string"@),
            };
            let f = match lookup(t, "format_version"@) {
                Some(TomlItemView::Int(v)) => if v == 1 {
                    Seq::empty()
                } else {
                    err(
                        "unsupported-format-version"@,
                        "theme targets format v"@ + int_text(v as int)
                            + ", this Relic supports v1\u{2013}v1"@,
                    )
                },
                _ => err(
                    "missing-format-version"@,
                    "required field `theme.format_version` is missing or not an integer"@,
                ),
            };
            assert(unknown_keys_warn(n)) by {
                if n.len() > 0 {
                    assert(n[0].1 == "missing-name"@);
                }
            }
            assert(unknown_keys_warn(f)) by {
                if f.len() > 0 {
                    assert(f[0].1 == "unsupported-format-version"@ || f[0].1 == "missing-format-version"@);
                }
            }
            lemma_warn_concat(unknown_issues(Section::Theme, keys_of(t)), n);
            lemma_warn_concat(unknown_issues(Section::Theme, keys_of(t)) + n, f);
        },
        _ => {
            let a = err("missing-theme-table"@, "required `[theme]` table is missing"@);
            let b = err("missing-name"@, "required field `theme.name` is missing"@);
            let c = err("missing-format-version"@, "required field `theme.format_version` is missing"@);
            lemma_err_ok("missing-theme-table"@, "required `[theme]` table is missing"@);
            lemma_err_ok("missing-name"@, "required field `theme.name` is missing"@);
            lemma_err_ok("missing-format-version"@, "required field `theme.format_version` is missing"@);
            lemma_warn_concat(a, b);
            lemma_warn_concat(a + b, c);
        },
    }
}

proof fn lemma_scale_ok(le0: bool, in_range: bool, text: Seq<char>)
    ensures
        unknown_keys_warn(scale_number_issues(le0, in_range, text)),
{
    lemma_error_codes();
    if le0 {
        lemma_err_ok("scale-out-of-range"@, "`typography.scale` must be > 0"@);
    } else if !in_range {
        lemma_warn_ok(
            "scale-out-of-range"@,
            "`typography.scale` ("@ + text + ") outside recommended [0.5, 3.0]"@,
        );
    }
}

proof fn lemma_typography_ok(root: Seq<(Seq<char>, Option<Seq<(Seq<char>, TomlItemView)>>)>)
    ensures
        unknown_keys_warn(typography_issues(root)),
{
    lemma_error_codes();
    match lookup(root, "typography"@) {
        Some(Some(t)) => {
            lemma_unknown_issues_ok(Section::Typography, keys_of(t));
            let rest = match lookup(t, "scale"@) {
                None => Seq::empty(),
                Some(TomlItemView::Float(bits, text)) => scale_number_issues(
                    le_zero_bits(bits),
                    in_scale_range_bits(bits),
                    text,
                ),
                Some(TomlItemView::Int(i)) => scale_number_issues(i <= 0, 1 <= i <= 3, int_text(i as int)),
                Some(_) => err("scale-out-of-range"@, "`typography.scale` must be a number"@),
            };
            match lookup(t, "scale"@) {
                None => {},
                Some(TomlItemView::Float(bits, text)) => lemma_scale_ok(
                    le_zero_bits(bits),
                    in_scale_range_bits(bits),
                    text,
                ),
                Some(TomlItemView::Int(i)) => lemma_scale_ok(i <= 0, 1 <= i <= 3, int_text(i as int)),
                Some(_) => lemma_err_ok("scale-out-of-range"@, "`typography.scale` must be a number"@),
            }
            lemma_warn_concat(unknown_issues(Section::Typography, keys_of(t)), rest);
        },
        _ => {},
    }
}

proof fn lemma_shape_ok(root: Seq<(Seq<char>, Option<Seq<(Seq<char>, TomlItemView)>>)>)
    ensures
        unknown_keys_warn(shape_issues(root)),
{
    lemma_error_codes();
    match lookup(root, "shape"@) {
        Some(Some(s)) => {
            lemma_unknown_issues_ok(Section::Shape, keys_of(s));
            let rest = match lookup(s, "radius"@) {
                None => Seq::empty(),
                Some(TomlItemView::Int(i)) => if i < 0 {
                    err("radius-negative"@, "`shape.radius` must be >= 0"@)
                } else {
                    Seq::empty()
                },
                Some(_) => err("radius-negative"@, "`shape.radius` must be an integer"@),
            };
            assert(unknown_keys_warn(rest)) by {
                if rest.len() > 0 {
                    assert(rest[0].1 == "radius-negative"@);
                }
            }
            lemma_warn_concat(unknown_issues(Section::Shape, keys_of(s)), rest);
        },
        _ => {},
    }
}

proof fn lemma_sounds_ok(root: Seq<(Seq<char>, Option<Seq<(Seq<char>, TomlItemView)>>)>)
    ensures
        unknown_keys_warn(sounds_issues(root)),
{
    lemma_error_codes();
    match lookup(root, "sounds"@) {
        Some(Some(s)) => {
            lemma_unknown_issues_ok(Section::Sounds, keys_of(s));
            assert forall|key: Seq<char>| unknown_keys_warn(#[trigger] sound_issue(s, key)) by {
                if sound_issue(s, key).len() > 0 {
                    assert(sound_issue(s, key)[0].1 == "bad-sound"@);
                }
            }
            let a = unknown_issues(Section::Sounds, keys_of(s));
            lemma_warn_concat(a, sound_issue(s, "move"@));
            lemma_warn_concat(a + sound_issue(s, "move"@), sound_issue(s, "select"@));
            lemma_warn_concat(
                a + sound_issue(s, "move"@) + sound_issue(s, "select"@),
                sound_issue(s, "back"@),
            );
        },
        _ => {},
    }
}

proof fn lemma_colors_ok(root: Seq<(Seq<char>, Option<Seq<(Seq<char>, TomlItemView)>>)>)
    ensures
        unknown_keys_warn(colors_issues(root)),
{
    match lookup(root, "colors"@) {
        Some(Some(c)) => {
            lemma_unknown_issues_ok(Section::Colors, keys_of(c));
            lemma_variant_ok(c, true);
            lemma_variant_ok(c, false);
            lemma_warn_concat(unknown_issues(Section::Colors, keys_of(c)), variant_issues(c, true));
            lemma_warn_concat(
                unknown_issues(Section::Colors, keys_of(c)) + variant_issues(c, true),
                variant_issues(c, false),
            );
        },
        _ => {},
    }
}

/// A sound path that is absolute or climbs out with `..` is rejected as
/// escaping the theme folder, whether or not a file is there; a path that
/// exists inside the folder with a permitted extension (of any letter
/// case) gives no finding.
pub proof fn law_sound_path_rules(key: Seq<char>, path: Seq<char>, canonical: Option<Seq<char>>, dir: Seq<char>)
    ensures
        path.len() > 0 && (path[0] == '/' || path[0] == '\\' || has_parent_segment(path)) ==> {
            let f = sound_file_issue_spec(key, path, canonical, dir);
            f.len() == 1 && f[0].0 == Severity::Error && f[0].1 == "path-escape"@
        },
        path.len() > 0 && path[0] != '/' && path[0] != '\\' && !has_parent_segment(path) && canonical is None
            ==> sound_file_issue_spec(key, path, canonical, dir)[0].1 == "missing-asset"@,
        path.len() > 0 && path[0] != '/' && path[0] != '\\' && !has_parent_segment(path) && (canonical
            matches Some(c) && under_dir(c, dir) && (extension(c) matches Some(e) && is_sound_ext(
            ascii_lower_seq(e),
        ))) ==> sound_file_issue_spec(key, path, canonical, dir).len() == 0,
        path.len() == 0 ==> sound_file_issue_spec(key, path, canonical, dir).len() == 0,
{
}

/// Folder checks only add to the manifest's findings, and only when the
/// manifest has a `[sounds]` table: a readable manifest without one gets
/// exactly the manifest's findings, and an unreadable one a single
/// `missing-manifest` error.
pub proof fn law_dir_adds_only_sound_checks(
    manifest: Result<Seq<char>, Seq<char>>,
    dir: Result<Seq<char>, Seq<char>>,
    canon: Seq<Option<Seq<char>>>,
)
    ensures
        manifest matches Ok(src) ==> dir_issues(manifest, dir, canon).subrange(
            0,
            manifest_issues(toml_doc_of(src)).len() as int,
        ) == manifest_issues(toml_doc_of(src)),
        manifest matches Ok(src) ==> (sound_paths_spec(toml_doc_of(src)) is None ==> dir_issues(
            manifest,
            dir,
            canon,
        ) == manifest_issues(toml_doc_of(src))),
        manifest is Err ==> dir_issues(manifest, dir, canon).len() == 1 && dir_issues(manifest, dir, canon)[0].0
            == Severity::Error && dir_issues(manifest, dir, canon)[0].1 == "missing-manifest"@,
{
    if let Ok(src) = manifest {
        let m = manifest_issues(toml_doc_of(src));
        let rest: Seq<(Severity, Seq<char>, Seq<char>)> = match sound_paths_spec(toml_doc_of(src)) {
            None => Seq::empty(),
            Some(ps) => match dir {
                Err(e) => err("missing-asset"@, "cannot canonicalize theme dir: "@ + e),
                Ok(d) => sound_files_issues(ps, canon, d),
            },
        };
        assert(dir_issues(manifest, dir, canon) == m + rest);
        assert((m + rest).subrange(0, m.len() as int) =~= m);
        if sound_paths_spec(toml_doc_of(src)) is None {
            assert(m + rest =~= m);
        }
    }
}

proof fn lemma_unknown_issues_one(s: Section, k: Seq<char>)
    requires
        known_key(s, k),
    ensures
        unknown_issues(s, seq![k]) == Seq::<(Severity, Seq<char>, Seq<char>)>::empty(),
{
    assert(seq![k].drop_last() =~= Seq::<Seq<char>>::empty());
    assert(seq![k].last() == k);
    assert(unknown_issues(s, Seq::<Seq<char>>::empty()) =~= Seq::<(Severity, Seq<char>, Seq<char>)>::empty());
    assert(unknown_issues(s, seq![k]) =~= Seq::<(Severity, Seq<char>, Seq<char>)>::empty());
}

/// A manifest of just `[theme]` with a name and an integer
/// `format_version` has no finding when the version is 1, and exactly one
/// error, coded `unsupported-format-version`, for any other version.
pub proof fn law_format_version(name: Seq<char>, v: i64)
    ensures
        ({
            let doc = seq![
                (
                    "theme"@,
                    Some(seq![("name"@, TomlItemView::Str(name)), ("format_version"@, TomlItemView::Int(v))]),
                ),
            ];
            let r = manifest_issues(Ok(Some(doc)));
            &&& v == 1 ==> r.len() == 0
            &&& v != 1 ==> r.len() == 1 && r[0].0 == Severity::Error && r[0].1 == "unsupported-format-version"@
        }),
{
    reveal_strlit("theme");
    reveal_strlit("colors");
    reveal_strlit("typography");
    reveal_strlit("shape");
    reveal_strlit("sounds");
    reveal_strlit("name");
    reveal_strlit("format_version");
    let t = seq![("name"@, TomlItemView::Str(name)), ("format_version"@, TomlItemView::Int(v))];
    let doc: Seq<(Seq<char>, Option<Seq<(Seq<char>, TomlItemView)>>)> = seq![("theme"@, Some(t))];
    assert(keys_of(doc) =~= seq!["theme"@]);
    lemma_unknown_issues_one(Section::Top, "theme"@);
    assert(key_from(keys_of(doc), "theme"@, 0) == Some(0int));
    assert("theme"@.len() != "colors"@.len());
    assert("theme"@[0] != "shape"@[0]);
    assert("theme"@.len() != "sounds"@.len());
    assert("theme"@.len() != "typography"@.len());
    assert(key_from(keys_of(doc), "colors"@, 1) == None::<int>);
    assert(key_from(keys_of(doc), "colors"@, 0) == None::<int>);
    assert(key_from(keys_of(doc), "typography"@, 0) == None::<int>) by {
        assert(key_from(keys_of(doc), "typography"@, 1) == None::<int>);
    }
    assert(key_from(keys_of(doc), "shape"@, 0) == None::<int>) by {
        assert(key_from(keys_of(doc), "shape"@, 1) == None::<int>);
    }
    assert(key_from(keys_of(doc), "sounds"@, 0) == None::<int>) by {
        assert(key_from(keys_of(doc), "sounds"@, 1) == None::<int>);
    }
    assert(keys_of(t) =~= seq!["name"@, "format_version"@]);
    assert(keys_of(t).drop_last() =~= seq!["name"@]);
    lemma_unknown_issues_one(Section::Theme, "name"@);
    assert(unknown_issues(Section::Theme, keys_of(t)) =~= Seq::<(Severity, Seq<char>, Seq<char>)>::empty());
    assert("name"@.len() != "format_version"@.len());
    assert(key_from(keys_of(t), "name"@, 0) == Some(0int));
    assert(key_from(keys_of(t), "format_version"@, 1) == Some(1int));
    assert(key_from(keys_of(t), "format_version"@, 0) == Some(1int));
    let r = manifest_issues(Ok(Some(doc)));
    assert(colors_issues(doc) =~= Seq::<(Severity, Seq<char>, Seq<char>)>::empty());
    assert(typography_issues(doc) =~= Seq::<(Severity, Seq<char>, Seq<char>)>::empty());
    assert(shape_issues(doc) =~= Seq::<(Severity, Seq<char>, Seq<char>)>::empty());
    assert(sounds_issues(doc) =~= Seq::<(Severity, Seq<char>, Seq<char>)>::empty());
    if v == 1 {
        assert(theme_issues(doc) =~= Seq::<(Severity, Seq<char>, Seq<char>)>::empty());
        assert(r =~= Seq::<(Severity, Seq<char>, Seq<char>)>::empty());
    } else {
        let m = "theme targets format v"@ + int_text(v as int) + ", this Relic supports v1\u{2013}v1"@;
        assert(theme_issues(doc) =~= err("unsupported-format-version"@, m));
        assert(r =~= err("unsupported-format-version"@, m));
    }
}

/// A color present in a color set is reported (one `bad-color` error)
/// exactly when it is not a string or not `#` with 3, 4, 6 or 8 hex
/// digits; an absent color is not reported.
pub proof fn law_color_checked(set: Seq<(Seq<char>, Option<Seq<char>>)>, v: Seq<char>, key: Seq<char>)
    ensures
        (color_issue(set, v, key).len() > 0) == (lookup(set, key) matches Some(x) && (x is None || !is_valid_hex_spec(
            x->0,
        ))),
        color_issue(set, v, key).len() <= 1,
        color_issue(set, v, key).len() == 1 ==> color_issue(set, v, key)[0].0 == Severity::Error
            && color_issue(set, v, key)[0].1 == "bad-color"@,
        is_valid_hex_spec("#abc"@) && is_valid_hex_spec("#abcd"@) && is_valid_hex_spec("#aabbcc"@)
            && is_valid_hex_spec("#aabbccdd"@) && is_valid_hex_spec("#FFAaBB"@),
        !is_valid_hex_spec("not-a-color"@) && !is_valid_hex_spec("#12345"@),
{
    reveal_strlit("#abc");
    reveal_strlit("#abcd");
    reveal_strlit("#aabbcc");
    reveal_strlit("#aabbccdd");
    reveal_strlit("#FFAaBB");
    reveal_strlit("not-a-color");
    reveal_strlit("#12345");
    assert("#abc"@.skip(1) =~= seq!['a', 'b', 'c']);
    assert("#abcd"@.skip(1) =~= seq!['a', 'b', 'c', 'd']);
    assert("#aabbcc"@.skip(1) =~= seq!['a', 'a', 'b', 'b', 'c', 'c']);
    assert("#aabbccdd"@.skip(1) =~= seq!['a', 'a', 'b', 'b', 'c', 'c', 'd', 'd']);
    assert("#FFAaBB"@.skip(1) =~= seq!['F', 'F', 'A', 'a', 'B', 'B']);
    assert("#12345"@.skip(1).len() == 5);
}

/// Unknown keys never reject a theme: on any manifest, every finding
/// about an unknown key is a warning.
pub proof fn law_unknown_keys_are_warnings(
    parsed: Result<Option<Seq<(Seq<char>, Option<Seq<(Seq<char>, TomlItemView)>>)>>, Seq<char>>,
)
    ensures
        unknown_keys_warn(manifest_issues(parsed)),
{
    lemma_error_codes();
    match parsed {
        Err(m) => lemma_err_ok("unparseable-toml"@, "theme.toml is not valid TOML: "@ + m),
        Ok(None) => lemma_err_ok("unparseable-toml"@, "theme.toml root must be a table"@),
        Ok(Some(root)) => {
            lemma_unknown_issues_ok(Section::Top, keys_of(root));
            lemma_theme_ok(root);
            lemma_colors_ok(root);
            lemma_typography_ok(root);
            lemma_shape_ok(root);
            lemma_sounds_ok(root);
            let a = unknown_issues(Section::Top, keys_of(root));
            let b = a + theme_issues(root);
            lemma_warn_concat(a, theme_issues(root));
            let c = b + colors_issues(root);
            lemma_warn_concat(b, colors_issues(root));
            let d = c + typography_issues(root);
            lemma_warn_concat(c, typography_issues(root));
            let e = d + shape_issues(root);
            lemma_warn_concat(d, shape_issues(root));
            lemma_warn_concat(e, sounds_issues(root));
        },
    }
}


// ---------------------------------------------------------------------
// The manifest rules, executable side
// ---------------------------------------------------------------------

/// The table under top-level key `k`.
fn get_table<'a>(root: &'a Vec<(String, TomlTop)>, k: &str) -> (r: Option<&'a Vec<(String, TomlItem)>>)
    ensures
        match lookup(root@.map_values(|e: (String, TomlTop)| (e.0@, top_view(e.1))), k@) {
            Some(Some(t)) => r matches Some(x) && x@.map_values(
                |e: (String, TomlItem)| (e.0@, item_view(e.1)),
            ) == t,
            _ => r is None,
        },
{
    proof {
        assert(keys_of(root@.map_values(|e: (String, TomlTop)| (e.0@, top_view(e.1)))) =~= root@.map_values(
            |e: (String, TomlTop)| e.0@,
        ));
    }
    match key_index(root, k) {
        Some(i) => match &root[i].1 {
            TomlTop::Table(t) => Some(t),
            TomlTop::Other => None,
        },
        None => None,
    }
}

/// The item under key `k` of a table.
fn get_item<'a>(t: &'a Vec<(String, TomlItem)>, k: &str) -> (r: Option<&'a TomlItem>)
    ensures
        match r {
            Some(x) => lookup(t@.map_values(|e: (String, TomlItem)| (e.0@, item_view(e.1))), k@)
                == Some(item_view(*x)),
            None => lookup(t@.map_values(|e: (String, TomlItem)| (e.0@, item_view(e.1))), k@) is None,
        },
{
    proof {
        assert(keys_of(t@.map_values(|e: (String, TomlItem)| (e.0@, item_view(e.1)))) =~= t@.map_values(
            |e: (String, TomlItem)| e.0@,
        ));
    }
    match key_index(t, k) {
        Some(i) => Some(&t[i].1),
        None => None,
    }
}

/// The leaf under key `k` of a sub-table.
fn get_leaf<'a>(t: &'a Vec<(String, TomlLeaf)>, k: &str) -> (r: Option<&'a TomlLeaf>)
    ensures
        match r {
            Some(x) => lookup(t@.map_values(|e: (String, TomlLeaf)| (e.0@, leaf_view(e.1))), k@)
                == Some(leaf_view(*x)),
            None => lookup(t@.map_values(|e: (String, TomlLeaf)| (e.0@, leaf_view(e.1))), k@) is None,
        },
{
    proof {
        assert(keys_of(t@.map_values(|e: (String, TomlLeaf)| (e.0@, leaf_view(e.1)))) =~= t@.map_values(
            |e: (String, TomlLeaf)| e.0@,
        ));
    }
    match key_index(t, k) {
        Some(i) => Some(&t[i].1),
        None => None,
    }
}

fn theme_exec(root: &Vec<(String, TomlTop)>) -> (r: Vec<Issue>)
    ensures
        issues_view(r@) == theme_issues(root@.map_values(|e: (String, TomlTop)| (e.0@, top_view(e.1)))),
{
    match get_table(root, "theme") {
        Some(t) => {
            let ghost tv = t@.map_values(|e: (String, TomlItem)| (e.0@, item_view(e.1)));
            let mut out = unknown_exec(Section::Theme, t);
            let name_ok = match get_item(t, "name") {
                Some(TomlItem::Str(_)) => true,
                _ => false,
            };
            if !name_ok {
                let m = chars_of("required field `theme.name` is missing or not a string");
                append(&mut out, one(issue(Severity::Error, "missing-name", &m)));
            } else {
                append(&mut out, none());
            }
            match get_item(t, "format_version") {
                Some(TomlItem::Int(v)) => {
                    if *v == 1 {
                        append(&mut out, none());
                    } else {
                        let mut m = chars_of("theme targets format v");
                        push_i64(&mut m, *v);
                        push_str(&mut m, ", this Relic supports v1\u{2013}v1");
                        append(&mut out, one(issue(Severity::Error, "unsupported-format-version", &m)));
                    }
                },
                _ => {
                    let m = chars_of("required field `theme.format_version` is missing or not an integer");
                    append(&mut out, one(issue(Severity::Error, "missing-format-version", &m)));
                },
            }
            proof {
                assert(keys_of(tv) =~= t@.map_values(|e: (String, TomlItem)| e.0@));
            }
            out
        },
        None => {
            let mut out = one(issue(Severity::Error, "missing-theme-table", &chars_of("required `[theme]` table is missing")));
            append(&mut out, one(issue(Severity::Error, "missing-name", &chars_of("required field `theme.name` is missing"))));
            append(&mut out, one(issue(Severity::Error, "missing-format-version", &chars_of("required field `theme.format_version` is missing"))));
            out
        },
    }
}

fn color_issue_exec(set: &Vec<(String, TomlLeaf)>, v: &str, key: &str) -> (r: Vec<Issue>)
    ensures
        issues_view(r@) == color_issue(
            set@.map_values(|e: (String, TomlLeaf)| (e.0@, leaf_view(e.1))),
            v@,
            key@,
        ),
{
    match get_leaf(set, key) {
        None => none(),
        Some(TomlLeaf::Str(s)) => {
            if is_valid_hex(s.as_str()) {
                none()
            } else {
                let mut m = chars_of("`colors.");
                push_str(&mut m, v);
                push_str(&mut m, ".");
                push_str(&mut m, key);
                push_str(&mut m, "` is not a valid hex color: `");
                push_str(&mut m, s.as_str());
                push_str(&mut m, "`");
                proof {
                    assert(m@ =~= "`colors."@ + v@ + "."@ + key@ + "` is not a valid hex color: `"@
                        + s@ + "`"@);
                }
                one(issue(Severity::Error, "bad-color", &m))
            }
        },
        Some(TomlLeaf::Other) => {
            let mut m = chars_of("`colors.");
            push_str(&mut m, v);
            push_str(&mut m, ".");
            push_str(&mut m, key);
            push_str(&mut m, "` must be a string");
            proof {
                assert(m@ =~= "`colors."@ + v@ + "."@ + key@ + "` must be a string"@);
            }
            one(issue(Severity::Error, "bad-color", &m))
        },
    }
}

fn variant_exec(c: &Vec<(String, TomlItem)>, dark: bool) -> (r: Vec<Issue>)
    ensures
        issues_view(r@) == variant_issues(
            c@.map_values(|e: (String, TomlItem)| (e.0@, item_view(e.1))),
            dark,
        ),
{
    let v = if dark {
        "dark"
    } else {
        "light"
    };
    match get_item(c, v) {
        Some(TomlItem::Table(set)) => {
            let ghost sv = set@.map_values(|e: (String, TomlLeaf)| (e.0@, leaf_view(e.1)));
            let mut out = unknown_exec(
                if dark {
                    Section::Dark
                } else {
                    Section::Light
                },
                set,
            );
            let ghost o0 = issues_view(out@);
            append(&mut out, color_issue_exec(set, v, "bg"));
            append(&mut out, color_issue_exec(set, v, "surface"));
            append(&mut out, color_issue_exec(set, v, "text"));
            append(&mut out, color_issue_exec(set, v, "text_dim"));
            append(&mut out, color_issue_exec(set, v, "accent"));
            append(&mut out, color_issue_exec(set, v, "favorite"));
            proof {
                assert(keys_of(sv) =~= set@.map_values(|e: (String, TomlLeaf)| e.0@));
                assert(issues_view(out@) =~= variant_issues(
                    c@.map_values(|e: (String, TomlItem)| (e.0@, item_view(e.1))),
                    dark,
                ));
            }
            out
        },
        _ => none(),
    }
}

fn colors_exec(root: &Vec<(String, TomlTop)>) -> (r: Vec<Issue>)
    ensures
        issues_view(r@) == colors_issues(root@.map_values(|e: (String, TomlTop)| (e.0@, top_view(e.1)))),
{
    match get_table(root, "colors") {
        Some(c) => {
            let mut out = unknown_exec(Section::Colors, c);
            append(&mut out, variant_exec(c, true));
            append(&mut out, variant_exec(c, false));
            proof {
                assert(keys_of(c@.map_values(|e: (String, TomlItem)| (e.0@, item_view(e.1))))
                    =~= c@.map_values(|e: (String, TomlItem)| e.0@));
            }
            out
        },
        None => none(),
    }
}

fn scale_exec(le0: bool, in_range: bool, text: &Vec<char>) -> (r: Vec<Issue>)
    ensures
        issues_view(r@) == scale_number_issues(le0, in_range, text@),
{
    if le0 {
        one(issue(Severity::Error, "scale-out-of-range", &chars_of("`typography.scale` must be > 0")))
    } else if !in_range {
        let mut m = chars_of("`typography.scale` (");
        push_all(&mut m, text.as_slice());
        push_str(&mut m, ") outside recommended [0.5, 3.0]");
        one(issue(Severity::Warning, "scale-out-of-range", &m))
    } else {
        none()
    }
}

fn typography_exec(root: &Vec<(String, TomlTop)>) -> (r: Vec<Issue>)
    ensures
        issues_view(r@) == typography_issues(root@.map_values(|e: (String, TomlTop)| (e.0@, top_view(e.1)))),
{
    match get_table(root, "typography") {
        Some(t) => {
            let mut out = unknown_exec(Section::Typography, t);
            match get_item(t, "scale") {
                None => append(&mut out, none()),
                Some(TomlItem::Float { bits, text }) => {
                    let b = *bits;
                    let exp = (b / 0x10_0000_0000_0000) % 0x800;
                    let nan = exp == 0x7ff && b % 0x10_0000_0000_0000 != 0;
                    let le0 = !nan && (b >= 0x8000_0000_0000_0000 || b == 0);
                    let in_range = 0x3FE0_0000_0000_0000 <= b && b <= 0x4008_0000_0000_0000;
                    append(&mut out, scale_exec(le0, in_range, &chars_of(text.as_str())));
                },
                Some(TomlItem::Int(i)) => {
                    let mut text: Vec<char> = Vec::new();
                    push_i64(&mut text, *i);
                    proof {
                        assert(text@ =~= int_text(*i as int));
                    }
                    append(&mut out, scale_exec(*i <= 0, 1 <= *i && *i <= 3, &text));
                },
                Some(_) => append(
                    &mut out,
                    one(issue(Severity::Error, "scale-out-of-range", &chars_of("`typography.scale` must be a number"))),
                ),
            }
            proof {
                assert(keys_of(t@.map_values(|e: (String, TomlItem)| (e.0@, item_view(e.1))))
                    =~= t@.map_values(|e: (String, TomlItem)| e.0@));
            }
            out
        },
        None => none(),
    }
}

fn shape_exec(root: &Vec<(String, TomlTop)>) -> (r: Vec<Issue>)
    ensures
        issues_view(r@) == shape_issues(root@.map_values(|e: (String, TomlTop)| (e.0@, top_view(e.1)))),
{
    match get_table(root, "shape") {
        Some(s) => {
            let mut out = unknown_exec(Section::Shape, s);
            match get_item(s, "radius") {
                None => append(&mut out, none()),
                Some(TomlItem::Int(i)) => {
                    if *i < 0 {
                        append(&mut out, one(issue(Severity::Error, "radius-negative", &chars_of("`shape.radius` must be >= 0"))));
                    } else {
                        append(&mut out, none());
                    }
                },
                Some(_) => append(
                    &mut out,
                    one(issue(Severity::Error, "radius-negative", &chars_of("`shape.radius` must be an integer"))),
                ),
            }
            proof {
                assert(keys_of(s@.map_values(|e: (String, TomlItem)| (e.0@, item_view(e.1))))
                    =~= s@.map_values(|e: (String, TomlItem)| e.0@));
            }
            out
        },
        None => none(),
    }
}

fn sound_issue_exec(s: &Vec<(String, TomlItem)>, key: &str) -> (r: Vec<Issue>)
    ensures
        issues_view(r@) == sound_issue(s@.map_values(|e: (String, TomlItem)| (e.0@, item_view(e.1))), key@),
{
    match get_item(s, key) {
        None => none(),
        Some(TomlItem::Str(_)) => none(),
        Some(_) => {
            let mut m = chars_of("`sounds.");
            push_str(&mut m, key);
            push_str(&mut m, "` must be a string");
            one(issue(Severity::Error, "bad-sound", &m))
        },
    }
}

fn sounds_exec(root: &Vec<(String, TomlTop)>) -> (r: Vec<Issue>)
    ensures
        issues_view(r@) == sounds_issues(root@.map_values(|e: (String, TomlTop)| (e.0@, top_view(e.1)))),
{
    match get_table(root, "sounds") {
        Some(s) => {
            let mut out = unknown_exec(Section::Sounds, s);
            append(&mut out, sound_issue_exec(s, "move"));
            append(&mut out, sound_issue_exec(s, "select"));
            append(&mut out, sound_issue_exec(s, "back"));
            proof {
                assert(keys_of(s@.map_values(|e: (String, TomlItem)| (e.0@, item_view(e.1))))
                    =~= s@.map_values(|e: (String, TomlItem)| e.0@));
            }
            out
        },
        None => none(),
    }
}

/// Every finding on a manifest's text, errors and warnings, in rule
/// order: unknown top-level keys, `[theme]`, `[colors]`, `[typography]`,
/// `[shape]`, `[sounds]`. Text that is not TOML is one error.
pub fn validate_manifest(toml_src: &str) -> (r: Vec<Issue>)
    ensures
        issues_view(r@) == manifest_issues(toml_doc_of(toml_src@)),
{
    match parse_toml(toml_src) {
        Err(e) => {
            let mut m = chars_of("theme.toml is not valid TOML: ");
            push_str(&mut m, e.as_str());
            one(issue(Severity::Error, "unparseable-toml", &m))
        },
        Ok(doc) => validate_document(&doc),
    }
}

/// Every finding on a parsed manifest, in rule order: unknown top-level
/// keys, `[theme]`, `[colors]`, `[typography]`, `[shape]`, `[sounds]`; a
/// document whose root is not a table is one error.
pub fn validate_document(doc: &TomlDoc) -> (r: Vec<Issue>)
    ensures
        issues_view(r@) == manifest_issues(Ok(doc_view(*doc))),
{
    match &doc.root {
        None => one(issue(Severity::Error, "unparseable-toml", &chars_of("theme.toml root must be a table"))),
        Some(root) => {
            let mut out = unknown_exec(Section::Top, root);
            append(&mut out, theme_exec(root));
            append(&mut out, colors_exec(root));
            append(&mut out, typography_exec(root));
            append(&mut out, shape_exec(root));
            append(&mut out, sounds_exec(root));
            proof {
                assert(keys_of(root@.map_values(|e: (String, TomlTop)| (e.0@, top_view(e.1))))
                    =~= root@.map_values(|e: (String, TomlTop)| e.0@));
            }
            out
        },
    }
}

/// Whether any finding is an error.
pub fn has_error(issues: &[Issue]) -> (b: bool)
    ensures
        b == exists|i: int| 0 <= i < issues@.len() && (#[trigger] issues@[i]).severity == Severity::Error,
{
    let mut i: usize = 0;
    while i < issues.len()
        invariant
            i <= issues@.len(),
            forall|k: int| 0 <= k < i ==> (#[trigger] issues@[k]).severity != Severity::Error,
        decreases issues.len() - i,
    {
        if issues[i].severity == Severity::Error {
            return true;
        }
        i += 1;
    }
    false
}


// ---------------------------------------------------------------------
// The theme folder
// ---------------------------------------------------------------------

/// The sound files a manifest names: each of `move`, `select`, `back`
/// (in that order) whose value is a string. `None` when the manifest does
/// not parse or has no `[sounds]` table.
pub open spec fn sound_paths_spec(parsed: Result<Option<Seq<(Seq<char>, Option<Seq<(Seq<char>, TomlItemView)>>)>>, Seq<char>>) -> Option<Seq<(Seq<char>, Seq<char>)>> {
    match parsed {
        Ok(Some(root)) => match lookup(root, "sounds"@) {
            Some(Some(s)) => Some(sound_path(s, "move"@) + sound_path(s, "select"@) + sound_path(s, "back"@)),
            _ => None,
        },
        _ => None,
    }
}

pub open spec fn sound_path(s: Seq<(Seq<char>, TomlItemView)>, key: Seq<char>) -> Seq<(Seq<char>, Seq<char>)> {
    match lookup(s, key) {
        Some(TomlItemView::Str(p)) => seq![(key, p)],
        _ => Seq::empty(),
    }
}

fn push_sound_path(out: &mut Vec<(String, String)>, s: &Vec<(String, TomlItem)>, key: &str)
    ensures
        final(out)@.map_values(|e: (String, String)| (e.0@, e.1@)) == old(out)@.map_values(
            |e: (String, String)| (e.0@, e.1@),
        ) + sound_path(s@.map_values(|e: (String, TomlItem)| (e.0@, item_view(e.1))), key@),
{
    let ghost o = out@.map_values(|e: (String, String)| (e.0@, e.1@));
    match get_item(s, key) {
        Some(TomlItem::Str(p)) => {
            out.push((string_of(&chars_of(key)), string_of(&chars_of(p.as_str()))));
            proof {
                assert(out@.map_values(|e: (String, String)| (e.0@, e.1@)) =~= o + seq![(key@, p@)]);
            }
        },
        _ => {
            proof {
                assert(o + Seq::<(Seq<char>, Seq<char>)>::empty() =~= o);
            }
        },
    }
}

/// The sound files `theme.toml` text names, for the folder checks.
pub fn sound_paths(toml_src: &str) -> (r: Option<Vec<(String, String)>>)
    ensures
        match sound_paths_spec(toml_doc_of(toml_src@)) {
            Some(ps) => r matches Some(v) && v@.map_values(|e: (String, String)| (e.0@, e.1@)) == ps,
            None => r is None,
        },
{
    match parse_toml(toml_src) {
        Err(_) => None,
        Ok(doc) => match &doc.root {
            None => None,
            Some(root) => match get_table(root, "sounds") {
                None => None,
                Some(s) => {
                    let mut out: Vec<(String, String)> = Vec::new();
                    proof {
                        assert(out@.map_values(|e: (String, String)| (e.0@, e.1@)) =~= Seq::<
                            (Seq<char>, Seq<char>),
                        >::empty());
                    }
                    push_sound_path(&mut out, s, "move");
                    push_sound_path(&mut out, s, "select");
                    push_sound_path(&mut out, s, "back");
                    proof {
                        assert(Seq::<(Seq<char>, Seq<char>)>::empty() + sound_path(
                            s@.map_values(|e: (String, TomlItem)| (e.0@, item_view(e.1))),
                            "move"@,
                        ) =~= sound_path(
                            s@.map_values(|e: (String, TomlItem)| (e.0@, item_view(e.1))),
                            "move"@,
                        ));
                    }
                    Some(out)
                },
            },
        },
    }
}

pub open spec fn is_sep(c: char) -> bool {
    c == '/' || c == '\\'
}

/// Some `/`- or `\`-separated segment of `s` is `..`.
pub open spec fn has_parent_segment(s: Seq<char>) -> bool {
    exists|i: int|
        0 <= i && i + 2 <= s.len() && #[trigger] s[i] == '.' && s[i + 1] == '.' && (i == 0 || is_sep(
            s[i - 1],
        )) && (i + 2 == s.len() || is_sep(s[i + 2]))
}

fn has_parent_segment_exec(s: &[char]) -> (b: bool)
    ensures
        b == has_parent_segment(s@),
{
    let n = s.len();
    let mut i: usize = 0;
    while i < n
        invariant
            i <= n == s@.len(),
            forall|j: int|
                0 <= j < i ==> !(j + 2 <= s@.len() && #[trigger] s@[j] == '.' && s@[j + 1] == '.' && (j
                    == 0 || is_sep(s@[j - 1])) && (j + 2 == s@.len() || is_sep(s@[j + 2]))),
        decreases n - i,
    {
        if n - i >= 2 && s[i] == '.' && s[i + 1] == '.' && (i == 0 || s[i - 1] == '/' || s[i - 1]
            == '\\') && (i + 2 == n || s[i + 2] == '/' || s[i + 2] == '\\') {
            return true;
        }
        i += 1;
    }
    false
}

/// `Path::starts_with` on canonical paths: `p` is the folder `d` or lies
/// under it.
pub open spec fn under_dir(p: Seq<char>, d: Seq<char>) -> bool {
    if d == seq!['/'] {
        starts_with(p, d)
    } else {
        p == d || starts_with(p, d + seq!['/'])
    }
}

fn under_dir_exec(p: &[char], d: &[char]) -> (b: bool)
    ensures
        b == under_dir(p@, d@),
{
    if d.len() == 1 && d[0] == '/' {
        proof {
            assert(d@ =~= seq!['/']);
        }
        return starts_with_chars(p, d);
    }
    proof {
        if d@.len() == 1 {
            assert(d@[0] != '/');
            assert(d@ != seq!['/']) by {
                assert(d@[0] != seq!['/'][0]);
            }
        } else {
            assert(d@.len() != seq!['/'].len());
        }
    }
    let mut ds = copy_range(d, 0, d.len());
    ds.push('/');
    proof {
        assert(ds@ =~= d@ + seq!['/']);
    }
    chars_eq(p, d) || starts_with_chars(p, ds.as_slice())
}

/// A permitted sound format.
pub open spec fn is_sound_ext(e: Seq<char>) -> bool {
    e == "wav"@ || e == "ogg"@ || e == "flac"@ || e == "mp3"@
}

/// The finding on one sound file `path` of `key`, given its canonical
/// form (`None` when it does not exist) and the theme folder's. Empty
/// paths are not checked.
pub open spec fn sound_file_issue_spec(key: Seq<char>, path: Seq<char>, canonical: Option<Seq<char>>, dir: Seq<char>) -> Seq<(Severity, Seq<char>, Seq<char>)> {
    if path.len() == 0 {
        Seq::empty()
    } else if path[0] == '/' || path[0] == '\\' {
        err("path-escape"@, "`sounds."@ + key + "` is an absolute path: `"@ + path + "`"@)
    } else if has_parent_segment(path) {
        err(
            "path-escape"@,
            "`sounds."@ + key + "` traverses outside the theme folder: `"@ + path + "`"@,
        )
    } else {
        match canonical {
            None => err(
                "missing-asset"@,
                "`sounds."@ + key + "` references missing file: `"@ + path + "`"@,
            ),
            Some(c) => if !under_dir(c, dir) {
                err(
                    "path-escape"@,
                    "`sounds."@ + key + "` resolves outside the theme folder: `"@ + path + "`"@,
                )
            } else if match extension(c) {
                Some(e) => is_sound_ext(ascii_lower_seq(e)),
                None => false,
            } {
                Seq::empty()
            } else {
                err(
                    "bad-asset-format"@,
                    "`sounds."@ + key
                        + "` is not a permitted sound format (wav/ogg/flac/mp3): `"@ + path + "`"@,
                )
            },
        }
    }
}

fn sound_msg(key: &str, middle: &str, path: &str) -> (r: Vec<char>)
    ensures
        r@ == "`sounds."@ + key@ + middle@ + path@ + "`"@,
{
    let mut m = chars_of("`sounds.");
    push_str(&mut m, key);
    push_str(&mut m, middle);
    push_str(&mut m, path);
    push_str(&mut m, "`");
    proof {
        assert(m@ =~= "`sounds."@ + key@ + middle@ + path@ + "`"@);
    }
    m
}

pub fn sound_file_issue(key: &str, path: &str, canonical: &Option<String>, dir_canonical: &str) -> (r: Vec<Issue>)
    ensures
        issues_view(r@) == sound_file_issue_spec(
            key@,
            path@,
            crate::text::opt_view(*canonical),
            dir_canonical@,
        ),
{
    let pc = chars_of(path);
    if pc.len() == 0 {
        return none();
    }
    if pc[0] == '/' || pc[0] == '\\' {
        return one(issue(Severity::Error, "path-escape", &sound_msg(key, "` is an absolute path: `", path)));
    }
    if has_parent_segment_exec(pc.as_slice()) {
        return one(issue(Severity::Error, "path-escape", &sound_msg(key, "` traverses outside the theme folder: `", path)));
    }
    match canonical {
        None => one(issue(Severity::Error, "missing-asset", &sound_msg(key, "` references missing file: `", path))),
        Some(c) => {
            let cc = chars_of(c.as_str());
            if !under_dir_exec(cc.as_slice(), chars_of(dir_canonical).as_slice()) {
                return one(issue(Severity::Error, "path-escape", &sound_msg(key, "` resolves outside the theme folder: `", path)));
            }
            let ok = match extension_exec(cc.as_slice()) {
                Some(e) => {
                    let l = to_ascii_lower_chars(e.as_slice());
                    chars_eq_str(l.as_slice(), "wav") || chars_eq_str(l.as_slice(), "ogg")
                        || chars_eq_str(l.as_slice(), "flac") || chars_eq_str(l.as_slice(), "mp3")
                },
                None => false,
            };
            if ok {
                none()
            } else {
                one(issue(Severity::Error, "bad-asset-format", &sound_msg(key, "` is not a permitted sound format (wav/ogg/flac/mp3): `", path)))
            }
        },
    }
}

/// The finding when `theme.toml` cannot be read.
pub fn missing_manifest_issue(reason: &str) -> (r: Issue)
    ensures
        issue_view(r) == (Severity::Error, "missing-manifest"@, "cannot read `theme.toml`: "@ + reason@),
{
    let mut m = chars_of("cannot read `theme.toml`: ");
    push_str(&mut m, reason);
    issue(Severity::Error, "missing-manifest", &m)
}

/// The finding when the theme folder cannot be canonicalized.
pub fn folder_issue(reason: &str) -> (r: Issue)
    ensures
        issue_view(r) == (Severity::Error, "missing-asset"@, "cannot canonicalize theme dir: "@ + reason@),
{
    let mut m = chars_of("cannot canonicalize theme dir: ");
    push_str(&mut m, reason);
    issue(Severity::Error, "missing-asset", &m)
}

/// The findings on the sound files named `ps`, in order, given the
/// canonical form of each (`canon[k]` for `ps[k]`; `None`, or no entry,
/// when the file does not exist) and the theme folder's canonical path.
pub open spec fn sound_files_issues(
    ps: Seq<(Seq<char>, Seq<char>)>,
    canon: Seq<Option<Seq<char>>>,
    dir: Seq<char>,
) -> Seq<(Severity, Seq<char>, Seq<char>)>
    decreases ps.len(),
{
    if ps.len() == 0 {
        Seq::empty()
    } else {
        let k = ps.len() - 1;
        sound_files_issues(ps.drop_last(), canon, dir) + sound_file_issue_spec(
            ps.last().0,
            ps.last().1,
            if k < canon.len() {
                canon[k]
            } else {
                None
            },
            dir,
        )
    }
}

/// Every finding on a theme folder: `theme.toml`'s text (or why it could
/// not be read), then, when the manifest has a `[sounds]` table, the
/// folder's canonical path (or why it has none) and the checks of each
/// sound file.
pub open spec fn dir_issues(
    manifest: Result<Seq<char>, Seq<char>>,
    dir: Result<Seq<char>, Seq<char>>,
    canon: Seq<Option<Seq<char>>>,
) -> Seq<(Severity, Seq<char>, Seq<char>)> {
    match manifest {
        Err(e) => err("missing-manifest"@, "cannot read `theme.toml`: "@ + e),
        Ok(src) => manifest_issues(toml_doc_of(src)) + match sound_paths_spec(toml_doc_of(src)) {
            None => Seq::empty(),
            Some(ps) => match dir {
                Err(e) => err("missing-asset"@, "cannot canonicalize theme dir: "@ + e),
                Ok(d) => sound_files_issues(ps, canon, d),
            },
        },
    }
}

pub open spec fn result_view(r: Result<String, String>) -> Result<Seq<char>, Seq<char>> {
    match r {
        Ok(s) => Ok(s@),
        Err(e) => Err(e@),
    }
}

pub open spec fn canon_view(v: Seq<Option<String>>) -> Seq<Option<Seq<char>>> {
    v.map_values(|o: Option<String>| crate::text::opt_view(o))
}

/// Validates a theme folder from what the application read there:
/// `manifest` is the text of `theme.toml` (or why it could not be read),
/// `dir_canonical` the folder's canonical path (or why it has none), and
/// `canonical[k]` the canonical path of the `k`-th file that
/// `sound_paths` lists, joined to the folder (`None` when it does not
/// exist).
pub fn validate_dir(
    manifest: &Result<String, String>,
    dir_canonical: &Result<String, String>,
    canonical: &[Option<String>],
) -> (r: Vec<Issue>)
    ensures
        issues_view(r@) == dir_issues(
            result_view(*manifest),
            result_view(*dir_canonical),
            canon_view(canonical@),
        ),
{
    match manifest {
        Err(e) => one(missing_manifest_issue(e.as_str())),
        Ok(src) => {
            let mut out = validate_manifest(src.as_str());
            match sound_paths(src.as_str()) {
                None => {
                    proof {
                        assert(issues_view(out@) =~= issues_view(out@) + Seq::<
                            (Severity, Seq<char>, Seq<char>),
                        >::empty());
                    }
                    out
                },
                Some(ps) => match dir_canonical {
                    Err(e) => {
                        append(&mut out, one(folder_issue(e.as_str())));
                        out
                    },
                    Ok(d) => {
                        let ghost head = issues_view(out@);
                        let ghost psv = ps@.map_values(|e: (String, String)| (e.0@, e.1@));
                        let mut i: usize = 0;
                        proof {
                            assert(psv.take(0) =~= Seq::<(Seq<char>, Seq<char>)>::empty());
                            assert(head + Seq::<(Severity, Seq<char>, Seq<char>)>::empty() =~= head);
                        }
                        while i < ps.len()
                            invariant
                                i <= ps@.len(),
                                psv == ps@.map_values(|e: (String, String)| (e.0@, e.1@)),
                                issues_view(out@) == head + sound_files_issues(
                                    psv.take(i as int),
                                    canon_view(canonical@),
                                    d@,
                                ),
                            decreases ps.len() - i,
                        {
                            let c: Option<String> = if i < canonical.len() {
                                match &canonical[i] {
                                    Some(s) => Some(string_of(&chars_of(s.as_str()))),
                                    None => None,
                                }
                            } else {
                                None
                            };
                            let ghost before = issues_view(out@);
                            let found = sound_file_issue(ps[i].0.as_str(), ps[i].1.as_str(), &c, d.as_str());
                            append(&mut out, found);
                            proof {
                                let t = psv.take(i + 1);
                                assert(t.drop_last() =~= psv.take(i as int));
                                assert(t.last() == psv[i as int]);
                                assert(crate::text::opt_view(c) == (if i < canon_view(canonical@).len() {
                                    canon_view(canonical@)[i as int]
                                } else {
                                    None
                                }));
                                assert(issues_view(out@) =~= head + sound_files_issues(
                                    t,
                                    canon_view(canonical@),
                                    d@,
                                ));
                            }
                            i += 1;
                        }
                        proof {
                            assert(psv.take(ps@.len() as int) =~= psv);
                        }
                        out
                    },
                },
            }
        },
    }
}

} // verus!
