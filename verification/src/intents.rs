//! Android intent templates: validation and resolution.
//!
//! A template names an emulator's package/activity, how the ROM reaches it
//! (`data_mode`), the extras and flags to send, and per-system overrides.
//! This module validates templates against the template rules and resolves
//! one into a concrete intent description; it does not fire anything. The
//! TOML files that hold templates are read by the application, which hands
//! the parsed [`IntentTemplate`] to the functions here.

use vstd::prelude::*;

use crate::text::{
    append_strings, chars_view, opt_view, chars_eq, chars_eq_str, chars_of, contains_char, contains_chars,
    contains_seq, copy_all, copy_range, find_char, find_from, lemma_find_from, lemma_find_from_skip,
    push_all, push_str, starts_with, starts_with_str, string_of, strings_view,
};

verus! {

/// How the ROM reaches the target activity.
#[derive(Debug, Clone, Copy, PartialEq, Eq, Structural)]
pub enum DataMode {
    Data,
    Extra,
    /// No ROM is attached (`data_mode = "none"` in template files).
    NoData,
}

/// The `putExtra` overload an extra is sent with.
#[derive(Debug, Clone, Copy, PartialEq, Eq, Structural)]
pub enum ExtraType {
    String,
    Bool,
    Int,
}

/// One `[[extras]]` entry of a template.
#[derive(Debug, Clone, PartialEq, Eq)]
pub struct Extra {
    pub name: String,
    pub extra_type: ExtraType,
    pub value: String,
}

/// A `[per_system.<slug>]` override; every field is optional.
#[derive(Debug, Clone, Default, PartialEq, Eq)]
pub struct PerSystemOverride {
    pub activity: Option<String>,
    pub action: Option<String>,
    pub data_mode: Option<DataMode>,
    pub data_extra_name: Option<String>,
    pub data_mime_type: Option<String>,
    pub extras: Vec<Extra>,
    pub flags: Vec<String>,
}

/// A parsed intent template. `per_system` keeps the overrides as
/// `(system slug, override)` pairs, as a TOML table gives them (so each
/// slug once); where a slug is given twice, its first pair applies.
#[derive(Debug, Clone, PartialEq, Eq)]
pub struct IntentTemplate {
    pub id: String,
    pub display_name: String,
    pub package: String,
    pub activity: String,
    pub action: String,
    pub data_mode: DataMode,
    pub data_extra_name: Option<String>,
    pub data_mime_type: Option<String>,
    pub flags: Vec<String>,
    pub min_version_code: Option<u32>,
    pub extras: Vec<Extra>,
    pub per_system: Vec<(String, PerSystemOverride)>,
    /// System slugs this template targets, or `["*"]` for every system.
    pub systems: Vec<String>,
}

// ---------------------------------------------------------------------
// Placeholders
// ---------------------------------------------------------------------

/// The names inside `{...}` in `v`, in order; `{{` is a literal brace, not
/// a placeholder opener, and a `{` with no later `}` ends the scan.
pub open spec fn placeholders(v: Seq<char>) -> Seq<Seq<char>>
    decreases v.len(),
{
    match find_from(v, '{', 0) {
        None => Seq::empty(),
        Some(start) => {
            proof {
                lemma_find_from(v, '{', 0);
            }
            if start + 1 < v.len() && v[start + 1] == '{' {
                placeholders(v.skip(start + 2))
            } else {
                let after = v.skip(start + 1);
                match find_from(after, '}', 0) {
                    None => Seq::empty(),
                    Some(end) => {
                        proof {
                            lemma_find_from(after, '}', 0);
                        }
                        seq![after.take(end)] + placeholders(after.skip(end + 1))
                    },
                }
            }
        },
    }
}


/// The placeholder names referenced by `value`.
pub fn find_placeholders(value: &[char]) -> (r: Vec<Vec<char>>)
    ensures
        chars_view(r@) == placeholders(value@),
{
    let vl = value.len();
    let mut out: Vec<Vec<char>> = Vec::new();
    let mut pos: usize = 0;
    proof {
        assert(value@.skip(0) =~= value@);
        assert(chars_view(out@) + placeholders(value@) =~= placeholders(value@));
    }
    loop
        invariant
            pos <= value@.len(),
            vl == value@.len(),
            placeholders(value@) == chars_view(out@) + placeholders(value@.skip(pos as int)),
        decreases value@.len() - pos,
    {
        let ghost rest = value@.skip(pos as int);
        proof {
            lemma_find_from_skip(value@, '{', pos as int, 0);
        }
        match find_char(value, '{', pos) {
            None => {
                proof {
                    assert(chars_view(out@) + Seq::<Seq<char>>::empty() =~= chars_view(out@));
                }
                return out;
            },
            Some(start) => {
                proof {
                    lemma_find_from(value@, '{', pos as int);
                }
                if start + 1 < vl && value[start + 1] == '{' {
                    proof {
                        assert(rest.skip(start - pos + 2) =~= value@.skip(start + 2));
                    }
                    pos = start + 2;
                } else {
                    proof {
                        lemma_find_from_skip(value@, '}', start + 1, 0);
                        assert(rest.skip(start - pos + 1) =~= value@.skip(start + 1));
                    }
                    match find_char(value, '}', start + 1) {
                        None => {
                            proof {
                                assert(chars_view(out@) + Seq::<Seq<char>>::empty()
                                    =~= chars_view(out@));
                            }
                            return out;
                        },
                        Some(end) => {
                            proof {
                                lemma_find_from(value@, '}', start + 1);
                            }
                            let name = copy_range(value, start + 1, end);
                            let ghost prev = out@;
                            out.push(name);
                            proof {
                                assert(value@.skip(start + 1).take(end - start - 1) =~= name@);
                                assert(value@.skip(start + 1).skip(end - start) =~= value@.skip(
                                    end + 1,
                                ));
                                assert(chars_view(out@) =~= chars_view(prev).push(name@));
                                assert(chars_view(prev) + (seq![name@] + placeholders(
                                    value@.skip(end + 1),
                                )) =~= chars_view(out@) + placeholders(value@.skip(end + 1)));
                            }
                            pos = end + 1;
                        },
                    }
                }
            },
        }
    }
}

// ---------------------------------------------------------------------
// Resolution
// ---------------------------------------------------------------------

/// One resolved `[[extras]]` entry, ready for the matching `putExtra`.
#[derive(Debug, Clone, PartialEq, Eq)]
pub struct ResolvedExtra {
    pub name: String,
    pub extra_type: ExtraType,
    pub value: String,
}

/// A template merged with its per-system override and with every
/// placeholder substituted. `flags` always includes
/// `FLAG_GRANT_READ_URI_PERMISSION` and `FLAG_ACTIVITY_NEW_TASK`.
#[derive(Debug, Clone, PartialEq, Eq)]
pub struct ResolvedIntent {
    pub package: String,
    pub activity: String,
    pub action: String,
    pub data_mode: DataMode,
    pub data_extra_name: Option<String>,
    pub data_mime_type: Option<String>,
    pub extras: Vec<ResolvedExtra>,
    pub flags: Vec<String>,
}

/// Placeholder values available at launch time. `core` must already be the
/// full path to substitute for `{core}`.
pub struct LaunchContext<'a> {
    pub rom_uri: &'a str,
    pub rom_path: &'a str,
    pub core: Option<&'a str>,
}

/// The value substituted for placeholder `name`, if it is one of the three
/// known placeholders (`{core}` with no core is empty).
pub open spec fn placeholder_value(ctx: LaunchContext, name: Seq<char>) -> Option<Seq<char>> {
    if name == "rom_uri"@ {
        Some(ctx.rom_uri@)
    } else if name == "rom_path"@ {
        Some(ctx.rom_path@)
    } else if name == "core"@ {
        Some(
            match ctx.core {
                Some(c) => c@,
                None => Seq::empty(),
            },
        )
    } else {
        None
    }
}

/// Substitution inside an extra value: `{{`/`}}` are literal braces, the
/// known placeholders are replaced, any other `{name}` is kept as written,
/// and a `{` with no later `}` is kept.
pub open spec fn subst_value(rest: Seq<char>, ctx: LaunchContext) -> Seq<char>
    decreases rest.len(),
{
    if rest.len() == 0 {
        Seq::empty()
    } else if starts_with(rest, seq!['{', '{']) {
        seq!['{'] + subst_value(rest.skip(2), ctx)
    } else if starts_with(rest, seq!['}', '}']) {
        seq!['}'] + subst_value(rest.skip(2), ctx)
    } else if rest[0] == '{' {
        let after = rest.skip(1);
        match find_from(after, '}', 0) {
            Some(end) => {
                proof {
                    lemma_find_from(after, '}', 0);
                }
                let name = after.take(end);
                let v = match placeholder_value(ctx, name) {
                    Some(x) => x,
                    None => seq!['{'] + name + seq!['}'],
                };
                v + subst_value(after.skip(end + 1), ctx)
            },
            None => seq!['{'] + subst_value(rest.skip(1), ctx),
        }
    } else {
        seq![rest[0]] + subst_value(rest.skip(1), ctx)
    }
}

/// Substitute `{rom_uri}`/`{rom_path}`/`{core}` in an extra value.
fn substitute(value: &str, ctx: &LaunchContext) -> (r: String)
    ensures
        r@ == subst_value(value@, *ctx),
{
    let v = chars_of(value);
    let vl = v.len();
    let mut out: Vec<char> = Vec::new();
    let mut i: usize = 0;
    proof {
        assert(v@.skip(0) =~= v@);
        assert(Seq::<char>::empty() + subst_value(v@, *ctx) =~= subst_value(v@, *ctx));
    }
    while i < vl
        invariant
            i <= v@.len(),
            vl == v@.len(),
            v@ == value@,
            subst_value(value@, *ctx) == out@ + subst_value(v@.skip(i as int), *ctx),
        decreases vl - i,
    {
        let ghost rest = v@.skip(i as int);
        let ghost old_out = out@;
        if i + 1 < vl && v[i] == '{' && v[i + 1] == '{' {
            proof {
                assert(rest.take(2) =~= seq!['{', '{']);
                assert(rest.skip(2) =~= v@.skip(i + 2));
            }
            out.push('{');
            i = i + 2;
            proof {
                assert(old_out + (seq!['{'] + subst_value(v@.skip(i as int), *ctx)) =~= out@
                    + subst_value(v@.skip(i as int), *ctx));
            }
        } else if i + 1 < vl && v[i] == '}' && v[i + 1] == '}' {
            proof {
                assert(rest.take(2) =~= seq!['}', '}']);
                assert(!starts_with(rest, seq!['{', '{']));
                assert(rest.skip(2) =~= v@.skip(i + 2));
            }
            out.push('}');
            i = i + 2;
            proof {
                assert(old_out + (seq!['}'] + subst_value(v@.skip(i as int), *ctx)) =~= out@
                    + subst_value(v@.skip(i as int), *ctx));
            }
        } else if v[i] == '{' {
            proof {
                assert(!starts_with(rest, seq!['{', '{'])) by {
                    if starts_with(rest, seq!['{', '{']) {
                        assert(rest.take(2)[1] == v@[i + 1]);
                    }
                }
                assert(!starts_with(rest, seq!['}', '}'])) by {
                    if starts_with(rest, seq!['}', '}']) {
                        assert(rest.take(2)[0] == v@[i as int]);
                    }
                }
                lemma_find_from_skip(v@, '}', i + 1, 0);
                assert(rest.skip(1) =~= v@.skip(i + 1));
            }
            match find_char(&v, '}', i + 1) {
                Some(end) => {
                    proof {
                        lemma_find_from(v@, '}', i + 1);
                    }
                    let name = copy_range(&v, i + 1, end);
                    proof {
                        assert(v@.skip(i + 1).take(end - i - 1) =~= name@);
                        assert(v@.skip(i + 1).skip(end - i) =~= v@.skip(end + 1));
                    }
                    if chars_eq_str(&name, "rom_uri") {
                        push_str(&mut out, ctx.rom_uri);
                    } else if chars_eq_str(&name, "rom_path") {
                        push_str(&mut out, ctx.rom_path);
                    } else if chars_eq_str(&name, "core") {
                        match ctx.core {
                            Some(c) => push_str(&mut out, c),
                            None => {
                                proof {
                                    assert(out@ + Seq::<char>::empty() =~= out@);
                                }
                            },
                        }
                    } else {
                        out.push('{');
                        push_all(&mut out, &name);
                        out.push('}');
                        proof {
                            assert(out@ =~= old_out + (seq!['{'] + name@ + seq!['}']));
                        }
                    }
                    i = end + 1;
                    proof {
                        let pv = match placeholder_value(*ctx, name@) {
                            Some(x) => x,
                            None => seq!['{'] + name@ + seq!['}'],
                        };
                        assert(out@ =~= old_out + pv);
                        assert(old_out + (pv + subst_value(v@.skip(i as int), *ctx)) =~= out@
                            + subst_value(v@.skip(i as int), *ctx));
                    }
                },
                None => {
                    out.push('{');
                    i = i + 1;
                    proof {
                        assert(old_out + (seq!['{'] + subst_value(v@.skip(i as int), *ctx))
                            =~= out@ + subst_value(v@.skip(i as int), *ctx));
                    }
                },
            }
        } else {
            proof {
                assert(!starts_with(rest, seq!['{', '{'])) by {
                    if starts_with(rest, seq!['{', '{']) {
                        assert(rest.take(2)[0] == v@[i as int]);
                        assert(rest.take(2)[1] == v@[i + 1]);
                    }
                }
                assert(!starts_with(rest, seq!['}', '}'])) by {
                    if starts_with(rest, seq!['}', '}']) {
                        assert(rest.take(2)[0] == v@[i as int]);
                        assert(rest.take(2)[1] == v@[i + 1]);
                    }
                }
                assert(rest.skip(1) =~= v@.skip(i + 1));
            }
            out.push(v[i]);
            i = i + 1;
            proof {
                assert(old_out + (seq![rest[0]] + subst_value(v@.skip(i as int), *ctx)) =~= out@
                    + subst_value(v@.skip(i as int), *ctx));
            }
        }
    }
    proof {
        assert(v@.skip(vl as int) =~= Seq::<char>::empty());
        assert(out@ + Seq::<char>::empty() =~= out@);
    }
    string_of(&out)
}


/// A copy of an optional string.
fn clone_opt(o: &Option<String>) -> (r: Option<String>)
    ensures
        opt_view(r) == opt_view(*o),
{
    match o {
        Some(s) => Some(s.clone()),
        None => None,
    }
}

/// Index of the first override keyed by `slug`, searching from `i`.
pub open spec fn override_from(ps: Seq<(String, PerSystemOverride)>, slug: Seq<char>, i: int) -> Option<
    int,
>
    decreases ps.len() - i,
{
    if i < 0 || i >= ps.len() {
        None
    } else if ps[i].0@ == slug {
        Some(i)
    } else {
        override_from(ps, slug, i + 1)
    }
}

/// The override for `slug`, if the template has one.
pub open spec fn override_for(t: IntentTemplate, slug: Seq<char>) -> Option<PerSystemOverride> {
    match override_from(t.per_system@, slug, 0) {
        Some(i) => Some(t.per_system@[i].1),
        None => None,
    }
}

fn find_override(ps: &Vec<(String, PerSystemOverride)>, slug: &str) -> (r: Option<usize>)
    ensures
        r matches Some(i) ==> override_from(ps@, slug@, 0) == Some(i as int) && i < ps@.len(),
        r is None ==> override_from(ps@, slug@, 0) is None,
{
    let mut i: usize = 0;
    while i < ps.len()
        invariant
            i <= ps@.len(),
            override_from(ps@, slug@, 0) == override_from(ps@, slug@, i as int),
        decreases ps.len() - i,
    {
        if chars_eq_str(&chars_of(ps[i].0.as_str()), slug) {
            return Some(i);
        }
        i += 1;
    }
    None
}

/// The view of a resolved intent.
pub struct ResolvedIntentView {
    pub package: Seq<char>,
    pub activity: Seq<char>,
    pub action: Seq<char>,
    pub data_mode: DataMode,
    pub data_extra_name: Option<Seq<char>>,
    pub data_mime_type: Option<Seq<char>>,
    pub extras: Seq<(Seq<char>, ExtraType, Seq<char>)>,
    pub flags: Seq<Seq<char>>,
}

impl View for ResolvedIntent {
    type V = ResolvedIntentView;

    open spec fn view(&self) -> ResolvedIntentView {
        ResolvedIntentView {
            package: self.package@,
            activity: self.activity@,
            action: self.action@,
            data_mode: self.data_mode,
            data_extra_name: opt_view(self.data_extra_name),
            data_mime_type: opt_view(self.data_mime_type),
            extras: self.extras@.map_values(
                |e: ResolvedExtra| (e.name@, e.extra_type, e.value@),
            ),
            flags: strings_view(self.flags@),
        }
    }
}

/// `flags` with `FLAG_GRANT_READ_URI_PERMISSION` and then
/// `FLAG_ACTIVITY_NEW_TASK` appended when missing.
pub open spec fn with_implicit_flags(flags: Seq<Seq<char>>) -> Seq<Seq<char>> {
    let f1 = if flags.contains("FLAG_GRANT_READ_URI_PERMISSION"@) {
        flags
    } else {
        flags.push("FLAG_GRANT_READ_URI_PERMISSION"@)
    };
    if f1.contains("FLAG_ACTIVITY_NEW_TASK"@) {
        f1
    } else {
        f1.push("FLAG_ACTIVITY_NEW_TASK"@)
    }
}

/// A scalar field after merging: the override's value when it sets one.
pub open spec fn merged(over: Option<PerSystemOverride>, pick: spec_fn(PerSystemOverride) -> Option<String>, base: Seq<char>) -> Seq<char> {
    match over {
        Some(o) => match pick(o) {
            Some(v) => v@,
            None => base,
        },
        None => base,
    }
}

/// An optional field after merging: the override's value, else the base.
pub open spec fn merged_opt(over: Option<PerSystemOverride>, pick: spec_fn(PerSystemOverride) -> Option<String>, base: Option<String>) -> Option<Seq<char>> {
    match over {
        Some(o) => match pick(o) {
            Some(v) => Some(v@),
            None => opt_view(base),
        },
        None => opt_view(base),
    }
}

/// The extras that apply: the override's when it lists any (they replace
/// the base list wholesale), else the template's.
pub open spec fn extras_source(t: IntentTemplate, over: Option<PerSystemOverride>) -> Seq<Extra> {
    match over {
        Some(o) => if o.extras@.len() > 0 {
            o.extras@
        } else {
            t.extras@
        },
        None => t.extras@,
    }
}

/// The flags that apply, chosen the same way as the extras.
pub open spec fn flags_source(t: IntentTemplate, over: Option<PerSystemOverride>) -> Seq<String> {
    match over {
        Some(o) => if o.flags@.len() > 0 {
            o.flags@
        } else {
            t.flags@
        },
        None => t.flags@,
    }
}

/// What `resolve` returns: the template merged with the override for the
/// system and with placeholders substituted in every extra value.
pub open spec fn resolve_spec(t: IntentTemplate, slug: Seq<char>, ctx: LaunchContext) -> ResolvedIntentView {
    let over = override_for(t, slug);
    ResolvedIntentView {
        package: t.package@,
        activity: merged(over, |o: PerSystemOverride| o.activity, t.activity@),
        action: merged(over, |o: PerSystemOverride| o.action, t.action@),
        data_mode: match over {
            Some(o) => match o.data_mode {
                Some(m) => m,
                None => t.data_mode,
            },
            None => t.data_mode,
        },
        data_extra_name: merged_opt(over, |o: PerSystemOverride| o.data_extra_name, t.data_extra_name),
        data_mime_type: merged_opt(over, |o: PerSystemOverride| o.data_mime_type, t.data_mime_type),
        extras: extras_source(t, over).map_values(
            |e: Extra| (e.name@, e.extra_type, subst_value(e.value@, ctx)),
        ),
        flags: with_implicit_flags(strings_view(flags_source(t, over))),
    }
}

/// A resolved intent always carries read permission on the ROM URI and
/// starts a new task, and keeps every flag its template (or override) set.
pub proof fn law_resolved_flags(t: IntentTemplate, slug: Seq<char>, ctx: LaunchContext)
    ensures
        resolve_spec(t, slug, ctx).flags.contains("FLAG_GRANT_READ_URI_PERMISSION"@),
        resolve_spec(t, slug, ctx).flags.contains("FLAG_ACTIVITY_NEW_TASK"@),
        forall|f: Seq<char>| strings_view(flags_source(t, override_for(t, slug))).contains(f)
            ==> #[trigger] resolve_spec(t, slug, ctx).flags.contains(f),
{
    let flags = strings_view(flags_source(t, override_for(t, slug)));
    let g = "FLAG_GRANT_READ_URI_PERMISSION"@;
    let n = "FLAG_ACTIVITY_NEW_TASK"@;
    let f1 = if flags.contains(g) {
        flags
    } else {
        flags.push(g)
    };
    if !flags.contains(g) {
        assert(f1[flags.len() as int] == g);
    }
    assert(f1.contains(g));
    let f2 = if f1.contains(n) {
        f1
    } else {
        f1.push(n)
    };
    if !f1.contains(n) {
        assert(f2[f1.len() as int] == n);
        let k = choose|k: int| 0 <= k < f1.len() && f1[k] == g;
        assert(f2[k] == g);
    }
    assert(f2.contains(n));
    assert(f2.contains(g));
    assert forall|f: Seq<char>| flags.contains(f) implies #[trigger] f2.contains(f) by {
        let k = choose|k: int| 0 <= k < flags.len() && flags[k] == f;
        assert(f1[k] == f);
        assert(f2[k] == f);
    }
}

/// Whether `v` holds a string equal to `s`.
fn contains_string(v: &Vec<String>, s: &str) -> (b: bool)
    ensures
        b == strings_view(v@).contains(s@),
{
    let mut i: usize = 0;
    while i < v.len()
        invariant
            i <= v@.len(),
            forall|k: int| 0 <= k < i ==> v@[k]@ != s@,
        decreases v.len() - i,
    {
        if chars_eq_str(&chars_of(v[i].as_str()), s) {
            proof {
                assert(strings_view(v@)[i as int] == s@);
            }
            return true;
        }
        i += 1;
    }
    proof {
        if strings_view(v@).contains(s@) {
            let k = choose|k: int| 0 <= k < strings_view(v@).len() && strings_view(v@)[k] == s@;
            assert(v@[k]@ == s@);
        }
    }
    false
}

/// Merge `template`'s override for `system_slug` (if present) over its
/// top-level fields, then substitute placeholders in every extra value.
/// Assumes `template` already passed [`validate`]: unknown placeholders are
/// kept as written, not rejected.
pub fn resolve(template: &IntentTemplate, system_slug: &str, ctx: &LaunchContext) -> (r:
    ResolvedIntent)
    ensures
        r@ == resolve_spec(*template, system_slug@, *ctx),
{
    let idx = find_override(&template.per_system, system_slug);
    let ghost over = override_for(*template, system_slug@);
    let activity = match idx {
        Some(i) => match &template.per_system[i].1.activity {
            Some(a) => a.clone(),
            None => template.activity.clone(),
        },
        None => template.activity.clone(),
    };
    let action = match idx {
        Some(i) => match &template.per_system[i].1.action {
            Some(a) => a.clone(),
            None => template.action.clone(),
        },
        None => template.action.clone(),
    };
    let data_mode = match idx {
        Some(i) => match template.per_system[i].1.data_mode {
            Some(m) => m,
            None => template.data_mode,
        },
        None => template.data_mode,
    };
    let data_extra_name = match idx {
        Some(i) => match &template.per_system[i].1.data_extra_name {
            Some(a) => Some(a.clone()),
            None => clone_opt(&template.data_extra_name),
        },
        None => clone_opt(&template.data_extra_name),
    };
    let data_mime_type = match idx {
        Some(i) => match &template.per_system[i].1.data_mime_type {
            Some(a) => Some(a.clone()),
            None => clone_opt(&template.data_mime_type),
        },
        None => clone_opt(&template.data_mime_type),
    };
    let extras_src: &Vec<Extra> = match idx {
        Some(i) => if template.per_system[i].1.extras.len() > 0 {
            &template.per_system[i].1.extras
        } else {
            &template.extras
        },
        None => &template.extras,
    };
    let flags_src: &Vec<String> = match idx {
        Some(i) => if template.per_system[i].1.flags.len() > 0 {
            &template.per_system[i].1.flags
        } else {
            &template.flags
        },
        None => &template.flags,
    };
    proof {
        assert(extras_src@ == extras_source(*template, over));
        assert(flags_src@ == flags_source(*template, over));
    }
    let mut extras: Vec<ResolvedExtra> = Vec::new();
    let mut k: usize = 0;
    while k < extras_src.len()
        invariant
            k <= extras_src@.len(),
            extras@.len() == k,
            forall|q: int|
                0 <= q < k ==> {
                    &&& (#[trigger] extras@[q]).name@ == extras_src@[q].name@
                    &&& extras@[q].extra_type == extras_src@[q].extra_type
                    &&& extras@[q].value@ == subst_value(extras_src@[q].value@, *ctx)
                },
        decreases extras_src.len() - k,
    {
        let e = &extras_src[k];
        let re = ResolvedExtra {
            name: e.name.clone(),
            extra_type: e.extra_type,
            value: substitute(e.value.as_str(), ctx),
        };
        extras.push(re);
        k += 1;
    }
    let mut flags: Vec<String> = Vec::new();
    let mut j: usize = 0;
    while j < flags_src.len()
        invariant
            j <= flags_src@.len(),
            flags@.len() == j,
            forall|q: int| 0 <= q < j ==> (#[trigger] flags@[q])@ == flags_src@[q]@,
        decreases flags_src.len() - j,
    {
        flags.push(flags_src[j].clone());
        j += 1;
    }
    proof {
        assert(strings_view(flags@) =~= strings_view(flags_src@));
        assert(extras@.map_values(|e: ResolvedExtra| (e.name@, e.extra_type, e.value@))
            =~= extras_src@.map_values(
            |e: Extra| (e.name@, e.extra_type, subst_value(e.value@, *ctx)),
        ));
    }
    if !contains_string(&flags, "FLAG_GRANT_READ_URI_PERMISSION") {
        let f = string_of(&chars_of("FLAG_GRANT_READ_URI_PERMISSION"));
        let ghost prev = flags@;
        flags.push(f);
        proof {
            assert(strings_view(flags@) =~= strings_view(prev).push(f@));
        }
    }
    if !contains_string(&flags, "FLAG_ACTIVITY_NEW_TASK") {
        let f = string_of(&chars_of("FLAG_ACTIVITY_NEW_TASK"));
        let ghost prev = flags@;
        flags.push(f);
        proof {
            assert(strings_view(flags@) =~= strings_view(prev).push(f@));
        }
    }
    ResolvedIntent {
        package: template.package.clone(),
        activity,
        action,
        data_mode,
        data_extra_name,
        data_mime_type,
        extras,
        flags,
    }
}

/// Whether `template` targets `system_slug`, directly or through `"*"`.
pub open spec fn applies_to_spec(t: IntentTemplate, slug: Seq<char>) -> bool {
    exists|i: int| 0 <= i < t.systems@.len() && (t.systems@[i]@ == "*"@ || t.systems@[i]@ == slug)
}

/// The system slugs a template applies to, for shells picking candidate
/// templates for a game's system.
pub fn applies_to(template: &IntentTemplate, system_slug: &str) -> (b: bool)
    ensures
        b == applies_to_spec(*template, system_slug@),
{
    let mut i: usize = 0;
    while i < template.systems.len()
        invariant
            i <= template.systems@.len(),
            forall|k: int| 0 <= k < i ==> !(template.systems@[k]@ == "*"@ || template.systems@[k]@ == system_slug@),
        decreases template.systems.len() - i,
    {
        let s = chars_of(template.systems[i].as_str());
        if chars_eq_str(&s, "*") || chars_eq_str(&s, system_slug) {
            return true;
        }
        i += 1;
    }
    false
}

// ---------------------------------------------------------------------
// Validation
// ---------------------------------------------------------------------

/// `c` is an ASCII decimal digit.
pub open spec fn is_digit(c: char) -> bool {
    '0' <= c <= '9'
}

/// The value of a run of decimal digits.
pub open spec fn digits_value(d: Seq<char>) -> nat
    decreases d.len(),
{
    if d.len() == 0 {
        0
    } else {
        digits_value(d.drop_last()) * 10 + ((d.last() as int) - ('0' as int)) as nat
    }
}

/// Every character of `d` is a decimal digit.
pub open spec fn all_digits(d: Seq<char>) -> bool {
    forall|i: int| 0 <= i < d.len() ==> is_digit(#[trigger] d[i])
}

/// The length of a leading `+` or `-`.
pub open spec fn sign_len(s: Seq<char>) -> int {
    if s.len() > 0 && (s[0] == '+' || s[0] == '-') {
        1
    } else {
        0
    }
}

/// `str::parse::<i64>` succeeds on `s`: an optional sign, then at least one
/// digit, and a value within `i64`.
pub open spec fn parses_i64(s: Seq<char>) -> bool {
    let d = s.skip(sign_len(s));
    &&& d.len() > 0
    &&& all_digits(d)
    &&& if s.len() > 0 && s[0] == '-' {
        digits_value(d) <= 9223372036854775808
    } else {
        digits_value(d) <= 9223372036854775807
    }
}

/// Whether every character of `s` from `start` on is a decimal digit.
pub fn digits_from(s: &[char], start: usize) -> (b: bool)
    requires
        start <= s@.len(),
    ensures
        b == (forall|k: int| start <= k < s@.len() ==> is_digit(#[trigger] s@[k])),
{
    let mut i = start;
    while i < s.len()
        invariant
            start <= i <= s@.len(),
            forall|k: int| start <= k < i ==> is_digit(#[trigger] s@[k]),
        decreases s@.len() - i,
    {
        if !('0' <= s[i] && s[i] <= '9') {
            return false;
        }
        i += 1;
    }
    true
}

/// Whether `s` parses as an `i64`.
pub fn parses_i64_exec(s: &[char]) -> (b: bool)
    ensures
        b == parses_i64(s@),
{
    let n = s.len();
    let signed = n > 0 && (s[0] == '+' || s[0] == '-');
    let neg = n > 0 && s[0] == '-';
    let start: usize = if signed {
        1
    } else {
        0
    };
    let ghost d = s@.skip(sign_len(s@));
    proof {
        assert(start == sign_len(s@));
    }
    if start == n {
        return false;
    }
    if !digits_from(s, start) {
        proof {
            let k = choose|k: int| start <= k < s@.len() && !is_digit(#[trigger] s@[k]);
            assert(d[k - start] == s@[k]);
            assert(!is_digit(d[k - start]));
            assert(!all_digits(d));
        }
        return false;
    }
    proof {
        assert forall|j: int| 0 <= j < d.len() implies is_digit(#[trigger] d[j]) by {
            assert(d[j] == s@[j + start]);
        }
        assert(all_digits(d));
    }
    let cap: u128 = 9223372036854775809;
    let mut acc: u128 = 0;
    let mut i: usize = start;
    while i < n
        invariant
            start <= i <= n == s@.len(),
            cap == 9223372036854775809u128,
            d == s@.skip(start as int),
            forall|j: int| 0 <= j < d.len() ==> is_digit(#[trigger] d[j]),
            acc == if digits_value(d.take(i - start)) < cap {
                digits_value(d.take(i - start))
            } else {
                cap as nat
            },
        decreases n - i,
    {
        let c = s[i];
        let ghost k: int = i - start;
        proof {
            assert(d[k] == c);
            assert(is_digit(d[k]));
        }
        let dv = (c as u32 - '0' as u32) as u128;
        let ghost prev: nat = digits_value(d.take(k));
        proof {
            assert(d.take(k + 1).drop_last() =~= d.take(k));
            assert(d.take(k + 1).last() == c);
            assert(digits_value(d.take(k + 1)) == prev * 10 + dv);
        }
        if acc >= cap {
            proof {
                assert(prev >= cap);
                assert(prev * 10 + dv >= cap) by (nonlinear_arith)
                    requires
                        prev >= cap,
                        dv >= 0,
                ;
            }
            acc = cap;
        } else {
            assert(acc * 10 + dv < 0x1_0000_0000_0000_0000_0000_0000_0000_0000) by (nonlinear_arith)
                requires
                    acc < cap,
                    cap == 9223372036854775809u128,
                    dv <= 9,
            ;
            acc = acc * 10 + dv;
            if acc > cap {
                acc = cap;
            }
        }
        i += 1;
    }
    proof {
        assert(d.take(n - start) =~= d);
    }
    if neg {
        acc <= 9223372036854775808
    } else {
        acc <= 9223372036854775807
    }
}

/// `{name}` names the template language knows.
pub open spec fn known_placeholder(p: Seq<char>) -> bool {
    p == "rom_uri"@ || p == "rom_path"@ || p == "core"@
}

/// `Intent.FLAG_*` names templates may use.
pub open spec fn known_flag(f: Seq<char>) -> bool {
    ||| f == "FLAG_GRANT_READ_URI_PERMISSION"@
    ||| f == "FLAG_ACTIVITY_NEW_TASK"@
    ||| f == "FLAG_ACTIVITY_CLEAR_TOP"@
    ||| f == "FLAG_ACTIVITY_SINGLE_TOP"@
    ||| f == "FLAG_ACTIVITY_NO_HISTORY"@
    ||| f == "FLAG_ACTIVITY_EXCLUDE_FROM_RECENTS"@
}

/// The one flag the read-only security model forbids.
pub open spec fn forbidden_flag(f: Seq<char>) -> bool {
    f == "FLAG_GRANT_WRITE_URI_PERMISSION"@
}

/// Template ids of libretro frontends, the only ones allowed `{core}`.
pub open spec fn libretro_id(id: Seq<char>) -> bool {
    id == "retroarch"@ || id == "retroarch_aarch64"@
}

pub open spec fn m_unknown_placeholder(prefix: Seq<char>, name: Seq<char>, p: Seq<char>) -> Seq<char> {
    prefix + ("extra '"@ + name + "' references unknown placeholder {"@ + p + "}"@)
}

pub open spec fn m_core(name: Seq<char>) -> Seq<char> {
    "extra '"@ + name
        + "' references {core}, but {core} is only valid in a libretro-frontend template ([\"retroarch\", \"retroarch_aarch64\"])"@
}

/// The findings for one placeholder of an extra.
pub open spec fn placeholder_check(p: Seq<char>, prefix: Seq<char>, name: Seq<char>, id: Seq<char>, with_core: bool) -> Seq<Seq<char>> {
    (if !known_placeholder(p) {
        seq![m_unknown_placeholder(prefix, name, p)]
    } else {
        Seq::empty()
    }) + (if with_core && p == "core"@ && !libretro_id(id) {
        seq![m_core(name)]
    } else {
        Seq::empty()
    })
}

pub open spec fn placeholder_checks(ps: Seq<Seq<char>>, prefix: Seq<char>, name: Seq<char>, id: Seq<char>, with_core: bool) -> Seq<Seq<char>>
    decreases ps.len(),
{
    if ps.len() == 0 {
        Seq::empty()
    } else {
        placeholder_checks(ps.drop_last(), prefix, name, id, with_core) + placeholder_check(
            ps.last(),
            prefix,
            name,
            id,
            with_core,
        )
    }
}

pub open spec fn m_bool(name: Seq<char>, value: Seq<char>) -> Seq<char> {
    "extra '"@ + name + "' has type = \"bool\" but value '"@ + value + "' is not \"true\"/\"false\""@
}

pub open spec fn m_int(name: Seq<char>, value: Seq<char>) -> Seq<char> {
    "extra '"@ + name + "' has type = \"int\" but value '"@ + value + "' is not a base-10 integer"@
}

/// The type finding for one extra.
pub open spec fn type_check(e: Extra) -> Seq<Seq<char>> {
    match e.extra_type {
        ExtraType::Bool => if e.value@ != "true"@ && e.value@ != "false"@ {
            seq![m_bool(e.name@, e.value@)]
        } else {
            Seq::empty()
        },
        ExtraType::Int => if !parses_i64(e.value@) {
            seq![m_int(e.name@, e.value@)]
        } else {
            Seq::empty()
        },
        ExtraType::String => Seq::empty(),
    }
}

/// All findings for one top-level extra.
pub open spec fn extra_check(e: Extra, id: Seq<char>) -> Seq<Seq<char>> {
    (if e.name@.len() == 0 {
        seq!["an extra has an empty name"@]
    } else {
        Seq::empty()
    }) + type_check(e) + placeholder_checks(placeholders(e.value@), Seq::empty(), e.name@, id, true)
}

pub open spec fn extras_checks(es: Seq<Extra>, id: Seq<char>) -> Seq<Seq<char>>
    decreases es.len(),
{
    if es.len() == 0 {
        Seq::empty()
    } else {
        extras_checks(es.drop_last(), id) + extra_check(es.last(), id)
    }
}

pub open spec fn m_forbidden(prefix: Seq<char>, f: Seq<char>) -> Seq<char> {
    prefix + ("flag '"@ + f + "' is forbidden (read-only security model)"@)
}

pub open spec fn m_unknown_flag(prefix: Seq<char>, f: Seq<char>) -> Seq<char> {
    prefix + ("flag '"@ + f + "' is not a known Intent.FLAG_* name"@)
}

/// The finding for one flag.
pub open spec fn flag_check(f: Seq<char>, prefix: Seq<char>) -> Seq<Seq<char>> {
    if forbidden_flag(f) {
        seq![m_forbidden(prefix, f)]
    } else if !known_flag(f) {
        seq![m_unknown_flag(prefix, f)]
    } else {
        Seq::empty()
    }
}

pub open spec fn flags_checks(fs: Seq<String>, prefix: Seq<char>) -> Seq<Seq<char>>
    decreases fs.len(),
{
    if fs.len() == 0 {
        Seq::empty()
    } else {
        flags_checks(fs.drop_last(), prefix) + flag_check(fs.last()@, prefix)
    }
}

/// The prefix of findings inside `[per_system.<slug>]`.
pub open spec fn system_prefix(slug: Seq<char>) -> Seq<char> {
    "per_system."@ + slug + " "@
}

pub open spec fn override_extras_checks(es: Seq<Extra>, prefix: Seq<char>) -> Seq<Seq<char>>
    decreases es.len(),
{
    if es.len() == 0 {
        Seq::empty()
    } else {
        override_extras_checks(es.drop_last(), prefix) + placeholder_checks(
            placeholders(es.last().value@),
            prefix,
            es.last().name@,
            Seq::empty(),
            false,
        )
    }
}

pub open spec fn m_unknown_key(slug: Seq<char>) -> Seq<char> {
    "per_system key '"@ + slug + "' is not a known system slug"@
}

/// The findings for one per-system override.
pub open spec fn override_check(slug: Seq<char>, o: PerSystemOverride, known: Seq<Seq<char>>) -> Seq<Seq<char>> {
    (if !known.contains(slug) {
        seq![m_unknown_key(slug)]
    } else {
        Seq::empty()
    }) + override_extras_checks(o.extras@, system_prefix(slug)) + flags_checks(
        o.flags@,
        system_prefix(slug),
    )
}

pub open spec fn overrides_checks(ps: Seq<(String, PerSystemOverride)>, known: Seq<Seq<char>>) -> Seq<Seq<char>>
    decreases ps.len(),
{
    if ps.len() == 0 {
        Seq::empty()
    } else {
        overrides_checks(ps.drop_last(), known) + override_check(ps.last().0@, ps.last().1, known)
    }
}

pub open spec fn m_none_rom(name: Seq<char>) -> Seq<char> {
    "data_mode = \"none\" but extra '"@ + name + "' references {rom_uri}"@
}

pub open spec fn none_mode_checks(es: Seq<Extra>) -> Seq<Seq<char>>
    decreases es.len(),
{
    if es.len() == 0 {
        Seq::empty()
    } else {
        none_mode_checks(es.drop_last()) + (if contains_seq(es.last().value@, "{rom_uri}"@) {
            seq![m_none_rom(es.last().name@)]
        } else {
            Seq::empty()
        })
    }
}

/// Some extra is named `n` and carries `{rom_uri}`.
pub open spec fn carries_rom(es: Seq<Extra>, n: Seq<char>) -> bool {
    exists|i: int| 0 <= i < es.len() && es[i].name@ == n && es[i].value@ == "{rom_uri}"@
}

pub open spec fn m_no_rom(name: Seq<char>) -> Seq<char> {
    "data_mode = \"extra\" names data_extra_name '"@ + name
        + "', but no [[extras]] entry has name = '"@ + name + "' and value = \"{rom_uri}\""@
}

/// The findings on how the ROM reaches the activity.
pub open spec fn data_mode_check(t: IntentTemplate) -> Seq<Seq<char>> {
    match t.data_mode {
        DataMode::Extra => match t.data_extra_name {
            None => seq!["data_mode = \"extra\" requires a non-empty data_extra_name"@],
            Some(n) => if n@.len() == 0 {
                seq!["data_mode = \"extra\" requires a non-empty data_extra_name"@]
            } else if carries_rom(t.extras@, n@) {
                Seq::empty()
            } else {
                seq![m_no_rom(n@)]
            },
        },
        DataMode::NoData => none_mode_checks(t.extras@),
        DataMode::Data => Seq::empty(),
    }
}

/// The finding for `package` or `activity`.
pub open spec fn component_check(field: Seq<char>, v: Seq<char>) -> Seq<Seq<char>> {
    if v.len() == 0 || !v.contains('.') || v.contains(' ') {
        seq![field + " '"@ + v + "' must be a non-empty, dotted, space-free component name"@]
    } else {
        Seq::empty()
    }
}

pub open spec fn unknown_systems_checks(ss: Seq<String>, known: Seq<Seq<char>>) -> Seq<Seq<char>>
    decreases ss.len(),
{
    if ss.len() == 0 {
        Seq::empty()
    } else {
        unknown_systems_checks(ss.drop_last(), known) + (if !known.contains(ss.last()@) {
            seq!["systems entry '"@ + ss.last()@ + "' is not a known system slug"@]
        } else {
            Seq::empty()
        })
    }
}

/// The findings on `systems`: non-empty, and either exactly `["*"]` or
/// known slugs only.
pub open spec fn systems_check(t: IntentTemplate, known: Seq<Seq<char>>) -> Seq<Seq<char>> {
    if t.systems@.len() == 0 {
        seq!["systems must not be empty"@]
    } else if strings_view(t.systems@).contains("*"@) {
        if t.systems@.len() > 1 {
            seq!["systems: '*' must be the only entry, not mixed with slugs"@]
        } else {
            Seq::empty()
        }
    } else {
        unknown_systems_checks(t.systems@, known)
    }
}

/// Every finding for a template, in the order the rules are checked.
pub open spec fn validate_spec(t: IntentTemplate, stem: Seq<char>, known: Seq<Seq<char>>) -> Seq<Seq<char>> {
    (if t.id@ != stem {
        seq!["id '"@ + t.id@ + "' does not match filename stem '"@ + stem + "'"@]
    } else {
        Seq::empty()
    }) + component_check("package"@, t.package@) + component_check("activity"@, t.activity@) + (
    if !starts_with(t.action@, "android.intent.action."@) {
        seq!["action '"@ + t.action@ + "' must start with 'android.intent.action.'"@]
    } else {
        Seq::empty()
    }) + data_mode_check(t) + extras_checks(t.extras@, t.id@) + flags_checks(
        t.flags@,
        Seq::empty(),
    ) + overrides_checks(t.per_system@, known) + systems_check(t, known)
}


// ---------------------------------------------------------------------
// Validation, executable side
// ---------------------------------------------------------------------

/// Whether `v` holds a string equal to `s`.
fn slice_contains(v: &[String], s: &[char]) -> (b: bool)
    ensures
        b == strings_view(v@).contains(s@),
{
    let mut i: usize = 0;
    while i < v.len()
        invariant
            i <= v@.len(),
            forall|k: int| 0 <= k < i ==> v@[k]@ != s@,
        decreases v.len() - i,
    {
        if chars_eq(&chars_of(v[i].as_str()), s) {
            proof {
                assert(strings_view(v@)[i as int] == s@);
            }
            return true;
        }
        i += 1;
    }
    proof {
        if strings_view(v@).contains(s@) {
            let k = choose|k: int| 0 <= k < strings_view(v@).len() && strings_view(v@)[k] == s@;
            assert(v@[k]@ == s@);
        }
    }
    false
}

/// One finding, as a list.
fn one(v: &Vec<char>) -> (r: Vec<String>)
    ensures
        strings_view(r@) == seq![v@],
{
    let mut r: Vec<String> = Vec::new();
    r.push(string_of(v));
    proof {
        assert(strings_view(r@) =~= seq![v@]);
    }
    r
}

/// No finding.
fn none_found() -> (r: Vec<String>)
    ensures
        strings_view(r@) == Seq::<Seq<char>>::empty(),
{
    let r: Vec<String> = Vec::new();
    proof {
        assert(strings_view(r@) =~= Seq::<Seq<char>>::empty());
    }
    r
}

fn is_known_placeholder(p: &[char]) -> (b: bool)
    ensures
        b == known_placeholder(p@),
{
    chars_eq_str(p, "rom_uri") || chars_eq_str(p, "rom_path") || chars_eq_str(p, "core")
}

fn is_known_flag(f: &[char]) -> (b: bool)
    ensures
        b == known_flag(f@),
{
    chars_eq_str(f, "FLAG_GRANT_READ_URI_PERMISSION") || chars_eq_str(f, "FLAG_ACTIVITY_NEW_TASK")
        || chars_eq_str(f, "FLAG_ACTIVITY_CLEAR_TOP") || chars_eq_str(f, "FLAG_ACTIVITY_SINGLE_TOP")
        || chars_eq_str(f, "FLAG_ACTIVITY_NO_HISTORY") || chars_eq_str(
        f,
        "FLAG_ACTIVITY_EXCLUDE_FROM_RECENTS",
    )
}

fn placeholder_check_exec(p: &[char], prefix: &[char], name: &[char], id: &[char], with_core: bool) -> (r: Vec<String>)
    ensures
        strings_view(r@) == placeholder_check(p@, prefix@, name@, id@, with_core),
{
    let mut r = none_found();
    if !is_known_placeholder(p) {
        let mut m = copy_all(prefix);
        push_str(&mut m, "extra '");
        push_all(&mut m, name);
        push_str(&mut m, "' references unknown placeholder {");
        push_all(&mut m, p);
        push_str(&mut m, "}");
        proof {
            assert(m@ =~= m_unknown_placeholder(prefix@, name@, p@));
        }
        r = one(&m);
    }
    if with_core && chars_eq_str(p, "core") && !(chars_eq_str(id, "retroarch") || chars_eq_str(
        id,
        "retroarch_aarch64",
    )) {
        let mut m: Vec<char> = Vec::new();
        push_str(&mut m, "extra '");
        push_all(&mut m, name);
        push_str(
            &mut m,
            "' references {core}, but {core} is only valid in a libretro-frontend template ([\"retroarch\", \"retroarch_aarch64\"])",
        );
        proof {
            assert(m@ =~= m_core(name@));
        }
        append_strings(&mut r, one(&m));
    } else {
        proof {
            assert(strings_view(r@) + Seq::<Seq<char>>::empty() =~= strings_view(r@));
        }
    }
    r
}

fn placeholder_checks_exec(ps: &Vec<Vec<char>>, prefix: &[char], name: &[char], id: &[char], with_core: bool) -> (r: Vec<String>)
    ensures
        strings_view(r@) == placeholder_checks(chars_view(ps@), prefix@, name@, id@, with_core),
{
    let mut out = none_found();
    let mut i: usize = 0;
    while i < ps.len()
        invariant
            i <= ps@.len(),
            strings_view(out@) == placeholder_checks(
                chars_view(ps@).take(i as int),
                prefix@,
                name@,
                id@,
                with_core,
            ),
        decreases ps.len() - i,
    {
        let part = placeholder_check_exec(ps[i].as_slice(), prefix, name, id, with_core);
        proof {
            assert(chars_view(ps@).take(i + 1).drop_last() =~= chars_view(ps@).take(i as int));
            assert(chars_view(ps@).take(i + 1).last() == ps@[i as int]@);
        }
        append_strings(&mut out, part);
        i += 1;
    }
    proof {
        assert(chars_view(ps@).take(ps@.len() as int) =~= chars_view(ps@));
    }
    out
}

fn type_check_exec(e: &Extra) -> (r: Vec<String>)
    ensures
        strings_view(r@) == type_check(*e),
{
    let name = chars_of(e.name.as_str());
    let value = chars_of(e.value.as_str());
    match e.extra_type {
        ExtraType::Bool => {
            if !chars_eq_str(&value, "true") && !chars_eq_str(&value, "false") {
                let mut m: Vec<char> = Vec::new();
                push_str(&mut m, "extra '");
                push_all(&mut m, &name);
                push_str(&mut m, "' has type = \"bool\" but value '");
                push_all(&mut m, &value);
                push_str(&mut m, "' is not \"true\"/\"false\"");
                proof {
                    assert(m@ =~= m_bool(e.name@, e.value@));
                }
                one(&m)
            } else {
                none_found()
            }
        },
        ExtraType::Int => {
            if !parses_i64_exec(&value) {
                let mut m: Vec<char> = Vec::new();
                push_str(&mut m, "extra '");
                push_all(&mut m, &name);
                push_str(&mut m, "' has type = \"int\" but value '");
                push_all(&mut m, &value);
                push_str(&mut m, "' is not a base-10 integer");
                proof {
                    assert(m@ =~= m_int(e.name@, e.value@));
                }
                one(&m)
            } else {
                none_found()
            }
        },
        ExtraType::String => none_found(),
    }
}

fn extra_check_exec(e: &Extra, id: &[char]) -> (r: Vec<String>)
    ensures
        strings_view(r@) == extra_check(*e, id@),
{
    let name = chars_of(e.name.as_str());
    let mut out = if name.len() == 0 {
        let m = chars_of("an extra has an empty name");
        one(&m)
    } else {
        none_found()
    };
    append_strings(&mut out, type_check_exec(e));
    let value = chars_of(e.value.as_str());
    let ps = find_placeholders(&value);
    let empty: Vec<char> = Vec::new();
    proof {
        assert(empty@ =~= Seq::<char>::empty());
    }
    append_strings(&mut out, placeholder_checks_exec(&ps, &empty, &name, id, true));
    out
}

fn extras_checks_exec(es: &Vec<Extra>, id: &[char]) -> (r: Vec<String>)
    ensures
        strings_view(r@) == extras_checks(es@, id@),
{
    let mut out = none_found();
    let mut i: usize = 0;
    while i < es.len()
        invariant
            i <= es@.len(),
            strings_view(out@) == extras_checks(es@.take(i as int), id@),
        decreases es.len() - i,
    {
        let part = extra_check_exec(&es[i], id);
        proof {
            assert(es@.take(i + 1).drop_last() =~= es@.take(i as int));
        }
        append_strings(&mut out, part);
        i += 1;
    }
    proof {
        assert(es@.take(es@.len() as int) =~= es@);
    }
    out
}

fn flag_check_exec(f: &[char], prefix: &[char]) -> (r: Vec<String>)
    ensures
        strings_view(r@) == flag_check(f@, prefix@),
{
    if chars_eq_str(f, "FLAG_GRANT_WRITE_URI_PERMISSION") {
        let mut m = copy_all(prefix);
        push_str(&mut m, "flag '");
        push_all(&mut m, f);
        push_str(&mut m, "' is forbidden (read-only security model)");
        proof {
            assert(m@ =~= m_forbidden(prefix@, f@));
        }
        one(&m)
    } else if !is_known_flag(f) {
        let mut m = copy_all(prefix);
        push_str(&mut m, "flag '");
        push_all(&mut m, f);
        push_str(&mut m, "' is not a known Intent.FLAG_* name");
        proof {
            assert(m@ =~= m_unknown_flag(prefix@, f@));
        }
        one(&m)
    } else {
        none_found()
    }
}

fn flags_checks_exec(fs: &Vec<String>, prefix: &[char]) -> (r: Vec<String>)
    ensures
        strings_view(r@) == flags_checks(fs@, prefix@),
{
    let mut out = none_found();
    let mut i: usize = 0;
    while i < fs.len()
        invariant
            i <= fs@.len(),
            strings_view(out@) == flags_checks(fs@.take(i as int), prefix@),
        decreases fs.len() - i,
    {
        let f = chars_of(fs[i].as_str());
        let part = flag_check_exec(&f, prefix);
        proof {
            assert(fs@.take(i + 1).drop_last() =~= fs@.take(i as int));
        }
        append_strings(&mut out, part);
        i += 1;
    }
    proof {
        assert(fs@.take(fs@.len() as int) =~= fs@);
    }
    out
}

fn override_extras_checks_exec(es: &Vec<Extra>, prefix: &[char]) -> (r: Vec<String>)
    ensures
        strings_view(r@) == override_extras_checks(es@, prefix@),
{
    let mut out = none_found();
    let mut i: usize = 0;
    let empty: Vec<char> = Vec::new();
    proof {
        assert(empty@ =~= Seq::<char>::empty());
    }
    while i < es.len()
        invariant
            i <= es@.len(),
            empty@ == Seq::<char>::empty(),
            strings_view(out@) == override_extras_checks(es@.take(i as int), prefix@),
        decreases es.len() - i,
    {
        let name = chars_of(es[i].name.as_str());
        let value = chars_of(es[i].value.as_str());
        let ps = find_placeholders(&value);
        let part = placeholder_checks_exec(&ps, prefix, &name, &empty, false);
        proof {
            assert(es@.take(i + 1).drop_last() =~= es@.take(i as int));
        }
        append_strings(&mut out, part);
        i += 1;
    }
    proof {
        assert(es@.take(es@.len() as int) =~= es@);
    }
    out
}

fn override_check_exec(slug: &String, o: &PerSystemOverride, known: &[String]) -> (r: Vec<String>)
    ensures
        strings_view(r@) == override_check(slug@, *o, strings_view(known@)),
{
    let sc = chars_of(slug.as_str());
    let mut out = if !slice_contains(known, &sc) {
        let mut m: Vec<char> = Vec::new();
        push_str(&mut m, "per_system key '");
        push_all(&mut m, &sc);
        push_str(&mut m, "' is not a known system slug");
        proof {
            assert(m@ =~= m_unknown_key(slug@));
        }
        one(&m)
    } else {
        none_found()
    };
    let mut prefix: Vec<char> = Vec::new();
    push_str(&mut prefix, "per_system.");
    push_all(&mut prefix, &sc);
    push_str(&mut prefix, " ");
    proof {
        assert(prefix@ =~= system_prefix(slug@));
    }
    append_strings(&mut out, override_extras_checks_exec(&o.extras, &prefix));
    append_strings(&mut out, flags_checks_exec(&o.flags, &prefix));
    out
}

fn overrides_checks_exec(ps: &Vec<(String, PerSystemOverride)>, known: &[String]) -> (r: Vec<String>)
    ensures
        strings_view(r@) == overrides_checks(ps@, strings_view(known@)),
{
    let mut out = none_found();
    let mut i: usize = 0;
    while i < ps.len()
        invariant
            i <= ps@.len(),
            strings_view(out@) == overrides_checks(ps@.take(i as int), strings_view(known@)),
        decreases ps.len() - i,
    {
        let part = override_check_exec(&ps[i].0, &ps[i].1, known);
        proof {
            assert(ps@.take(i + 1).drop_last() =~= ps@.take(i as int));
        }
        append_strings(&mut out, part);
        i += 1;
    }
    proof {
        assert(ps@.take(ps@.len() as int) =~= ps@);
    }
    out
}

fn none_mode_checks_exec(es: &Vec<Extra>) -> (r: Vec<String>)
    ensures
        strings_view(r@) == none_mode_checks(es@),
{
    let mut out = none_found();
    let needle = chars_of("{rom_uri}");
    let mut i: usize = 0;
    while i < es.len()
        invariant
            i <= es@.len(),
            needle@ == "{rom_uri}"@,
            strings_view(out@) == none_mode_checks(es@.take(i as int)),
        decreases es.len() - i,
    {
        let value = chars_of(es[i].value.as_str());
        let part = if contains_chars(&value, &needle) {
            let mut m: Vec<char> = Vec::new();
            push_str(&mut m, "data_mode = \"none\" but extra '");
            push_str(&mut m, es[i].name.as_str());
            push_str(&mut m, "' references {rom_uri}");
            proof {
                assert(m@ =~= m_none_rom(es@[i as int].name@));
            }
            one(&m)
        } else {
            none_found()
        };
        proof {
            assert(es@.take(i + 1).drop_last() =~= es@.take(i as int));
        }
        append_strings(&mut out, part);
        i += 1;
    }
    proof {
        assert(es@.take(es@.len() as int) =~= es@);
    }
    out
}

fn carries_rom_exec(es: &Vec<Extra>, n: &[char]) -> (b: bool)
    ensures
        b == carries_rom(es@, n@),
{
    let mut i: usize = 0;
    while i < es.len()
        invariant
            i <= es@.len(),
            forall|k: int| 0 <= k < i ==> !(es@[k].name@ == n@ && es@[k].value@ == "{rom_uri}"@),
        decreases es.len() - i,
    {
        let name = chars_of(es[i].name.as_str());
        let value = chars_of(es[i].value.as_str());
        if chars_eq(&name, n) && chars_eq_str(&value, "{rom_uri}") {
            return true;
        }
        i += 1;
    }
    false
}

fn data_mode_check_exec(t: &IntentTemplate) -> (r: Vec<String>)
    ensures
        strings_view(r@) == data_mode_check(*t),
{
    match t.data_mode {
        DataMode::Extra => match &t.data_extra_name {
            None => one(&chars_of("data_mode = \"extra\" requires a non-empty data_extra_name")),
            Some(n) => {
                let nc = chars_of(n.as_str());
                if nc.len() == 0 {
                    one(&chars_of("data_mode = \"extra\" requires a non-empty data_extra_name"))
                } else if carries_rom_exec(&t.extras, &nc) {
                    none_found()
                } else {
                    let mut m: Vec<char> = Vec::new();
                    push_str(&mut m, "data_mode = \"extra\" names data_extra_name '");
                    push_all(&mut m, &nc);
                    push_str(&mut m, "', but no [[extras]] entry has name = '");
                    push_all(&mut m, &nc);
                    push_str(&mut m, "' and value = \"{rom_uri}\"");
                    proof {
                        assert(m@ =~= m_no_rom(n@));
                    }
                    one(&m)
                }
            },
        },
        DataMode::NoData => none_mode_checks_exec(&t.extras),
        DataMode::Data => none_found(),
    }
}

fn component_check_exec(field: &str, v: &str) -> (r: Vec<String>)
    ensures
        strings_view(r@) == component_check(field@, v@),
{
    let vc = chars_of(v);
    if vc.len() == 0 || !contains_char(&vc, '.') || contains_char(&vc, ' ') {
        let mut m: Vec<char> = Vec::new();
        push_str(&mut m, field);
        push_str(&mut m, " '");
        push_all(&mut m, &vc);
        push_str(&mut m, "' must be a non-empty, dotted, space-free component name");
        proof {
            assert(m@ =~= field@ + " '"@ + v@
                + "' must be a non-empty, dotted, space-free component name"@);
        }
        one(&m)
    } else {
        none_found()
    }
}

fn systems_check_exec(t: &IntentTemplate, known: &[String]) -> (r: Vec<String>)
    ensures
        strings_view(r@) == systems_check(*t, strings_view(known@)),
{
    if t.systems.len() == 0 {
        return one(&chars_of("systems must not be empty"));
    }
    let star = chars_of("*");
    if slice_contains(t.systems.as_slice(), &star) {
        if t.systems.len() > 1 {
            return one(&chars_of("systems: '*' must be the only entry, not mixed with slugs"));
        }
        return none_found();
    }
    let mut out = none_found();
    let mut i: usize = 0;
    while i < t.systems.len()
        invariant
            i <= t.systems@.len(),
            strings_view(out@) == unknown_systems_checks(
                t.systems@.take(i as int),
                strings_view(known@),
            ),
        decreases t.systems.len() - i,
    {
        let sc = chars_of(t.systems[i].as_str());
        let part = if !slice_contains(known, &sc) {
            let mut m: Vec<char> = Vec::new();
            push_str(&mut m, "systems entry '");
            push_all(&mut m, &sc);
            push_str(&mut m, "' is not a known system slug");
            proof {
                assert(m@ =~= "systems entry '"@ + t.systems@[i as int]@
                    + "' is not a known system slug"@);
            }
            one(&m)
        } else {
            none_found()
        };
        proof {
            assert(t.systems@.take(i + 1).drop_last() =~= t.systems@.take(i as int));
        }
        append_strings(&mut out, part);
        i += 1;
    }
    proof {
        assert(t.systems@.take(t.systems@.len() as int) =~= t.systems@);
    }
    out
}

/// Checks a parsed template against the template rules; `filename_stem`
/// is the template file's stem (it must equal `id`) and `known_slugs` the
/// valid system slugs. Returns every violation found, in rule order, not
/// just the first.
pub fn validate(template: &IntentTemplate, filename_stem: &str, known_slugs: &[String]) -> (r: Vec<String>)
    ensures
        strings_view(r@) == validate_spec(*template, filename_stem@, strings_view(known_slugs@)),
{
    let idc = chars_of(template.id.as_str());
    let mut out = if !chars_eq_str(&idc, filename_stem) {
        let mut m: Vec<char> = Vec::new();
        push_str(&mut m, "id '");
        push_all(&mut m, &idc);
        push_str(&mut m, "' does not match filename stem '");
        push_str(&mut m, filename_stem);
        push_str(&mut m, "'");
        proof {
            assert(m@ =~= "id '"@ + template.id@ + "' does not match filename stem '"@
                + filename_stem@ + "'"@);
        }
        one(&m)
    } else {
        none_found()
    };
    append_strings(&mut out, component_check_exec("package", template.package.as_str()));
    append_strings(&mut out, component_check_exec("activity", template.activity.as_str()));
    let action = chars_of(template.action.as_str());
    if !starts_with_str(&action, "android.intent.action.") {
        let mut m: Vec<char> = Vec::new();
        push_str(&mut m, "action '");
        push_all(&mut m, &action);
        push_str(&mut m, "' must start with 'android.intent.action.'");
        proof {
            assert(m@ =~= "action '"@ + template.action@
                + "' must start with 'android.intent.action.'"@);
        }
        append_strings(&mut out, one(&m));
    } else {
        append_strings(&mut out, none_found());
    }
    append_strings(&mut out, data_mode_check_exec(template));
    append_strings(&mut out, extras_checks_exec(&template.extras, &idc));
    let empty: Vec<char> = Vec::new();
    proof {
        assert(empty@ =~= Seq::<char>::empty());
    }
    append_strings(&mut out, flags_checks_exec(&template.flags, &empty));
    append_strings(&mut out, overrides_checks_exec(&template.per_system, known_slugs));
    append_strings(&mut out, systems_check_exec(template, known_slugs));
    out
}

// ---------------------------------------------------------------------
// What validation reports
// ---------------------------------------------------------------------

proof fn lemma_in_left(a: Seq<Seq<char>>, b: Seq<Seq<char>>, x: Seq<char>)
    requires
        a.contains(x),
    ensures
        (a + b).contains(x),
{
    let k = choose|k: int| 0 <= k < a.len() && a[k] == x;
    assert((a + b)[k] == x);
}

proof fn lemma_in_right(a: Seq<Seq<char>>, b: Seq<Seq<char>>, x: Seq<char>)
    requires
        b.contains(x),
    ensures
        (a + b).contains(x),
{
    let k = choose|k: int| 0 <= k < b.len() && b[k] == x;
    assert((a + b)[a.len() + k] == x);
}

proof fn lemma_in_one(x: Seq<char>)
    ensures
        seq![x].contains(x),
{
    assert(seq![x][0] == x);
}

/// A finding of the rules after the id rule is a finding of the template.
proof fn lemma_in_validate(t: IntentTemplate, stem: Seq<char>, known: Seq<Seq<char>>, x: Seq<char>, part: int)
    requires
        0 <= part < 8,
        part == 0 ==> component_check("package"@, t.package@).contains(x),
        part == 1 ==> component_check("activity"@, t.activity@).contains(x),
        part == 2 ==> data_mode_check(t).contains(x),
        part == 3 ==> extras_checks(t.extras@, t.id@).contains(x),
        part == 4 ==> flags_checks(t.flags@, Seq::empty()).contains(x),
        part == 5 ==> overrides_checks(t.per_system@, known).contains(x),
        part == 6 ==> systems_check(t, known).contains(x),
        part == 7 ==> false,
    ensures
        validate_spec(t, stem, known).contains(x),
{
    let a0: Seq<Seq<char>> = if t.id@ != stem {
        seq!["id '"@ + t.id@ + "' does not match filename stem '"@ + stem + "'"@]
    } else {
        Seq::empty()
    };
    let a1 = component_check("package"@, t.package@);
    let a2 = component_check("activity"@, t.activity@);
    let a3: Seq<Seq<char>> = if !starts_with(t.action@, "android.intent.action."@) {
        seq!["action '"@ + t.action@ + "' must start with 'android.intent.action.'"@]
    } else {
        Seq::empty()
    };
    let a4 = data_mode_check(t);
    let a5 = extras_checks(t.extras@, t.id@);
    let a6 = flags_checks(t.flags@, Seq::empty());
    let a7 = overrides_checks(t.per_system@, known);
    let a8 = systems_check(t, known);
    assert(validate_spec(t, stem, known) == a0 + a1 + a2 + a3 + a4 + a5 + a6 + a7 + a8);
    if part == 0 {
        lemma_in_right(a0, a1, x);
        lemma_in_left(a0 + a1, a2, x);
        lemma_in_left(a0 + a1 + a2, a3, x);
        lemma_in_left(a0 + a1 + a2 + a3, a4, x);
        lemma_in_left(a0 + a1 + a2 + a3 + a4, a5, x);
        lemma_in_left(a0 + a1 + a2 + a3 + a4 + a5, a6, x);
        lemma_in_left(a0 + a1 + a2 + a3 + a4 + a5 + a6, a7, x);
        lemma_in_left(a0 + a1 + a2 + a3 + a4 + a5 + a6 + a7, a8, x);
    } else if part == 1 {
        lemma_in_right(a0 + a1, a2, x);
        lemma_in_left(a0 + a1 + a2, a3, x);
        lemma_in_left(a0 + a1 + a2 + a3, a4, x);
        lemma_in_left(a0 + a1 + a2 + a3 + a4, a5, x);
        lemma_in_left(a0 + a1 + a2 + a3 + a4 + a5, a6, x);
        lemma_in_left(a0 + a1 + a2 + a3 + a4 + a5 + a6, a7, x);
        lemma_in_left(a0 + a1 + a2 + a3 + a4 + a5 + a6 + a7, a8, x);
    } else if part == 2 {
        lemma_in_right(a0 + a1 + a2 + a3, a4, x);
        lemma_in_left(a0 + a1 + a2 + a3 + a4, a5, x);
        lemma_in_left(a0 + a1 + a2 + a3 + a4 + a5, a6, x);
        lemma_in_left(a0 + a1 + a2 + a3 + a4 + a5 + a6, a7, x);
        lemma_in_left(a0 + a1 + a2 + a3 + a4 + a5 + a6 + a7, a8, x);
    } else if part == 3 {
        lemma_in_right(a0 + a1 + a2 + a3 + a4, a5, x);
        lemma_in_left(a0 + a1 + a2 + a3 + a4 + a5, a6, x);
        lemma_in_left(a0 + a1 + a2 + a3 + a4 + a5 + a6, a7, x);
        lemma_in_left(a0 + a1 + a2 + a3 + a4 + a5 + a6 + a7, a8, x);
    } else if part == 4 {
        lemma_in_right(a0 + a1 + a2 + a3 + a4 + a5, a6, x);
        lemma_in_left(a0 + a1 + a2 + a3 + a4 + a5 + a6, a7, x);
        lemma_in_left(a0 + a1 + a2 + a3 + a4 + a5 + a6 + a7, a8, x);
    } else if part == 5 {
        lemma_in_right(a0 + a1 + a2 + a3 + a4 + a5 + a6, a7, x);
        lemma_in_left(a0 + a1 + a2 + a3 + a4 + a5 + a6 + a7, a8, x);
    } else {
        lemma_in_right(a0 + a1 + a2 + a3 + a4 + a5 + a6 + a7, a8, x);
    }
}

proof fn lemma_in_placeholder_checks(
    ps: Seq<Seq<char>>,
    prefix: Seq<char>,
    name: Seq<char>,
    id: Seq<char>,
    with_core: bool,
    i: int,
    x: Seq<char>,
)
    requires
        0 <= i < ps.len(),
        placeholder_check(ps[i], prefix, name, id, with_core).contains(x),
    ensures
        placeholder_checks(ps, prefix, name, id, with_core).contains(x),
    decreases ps.len(),
{
    if i == ps.len() - 1 {
        lemma_in_right(placeholder_checks(ps.drop_last(), prefix, name, id, with_core), placeholder_check(ps.last(), prefix, name, id, with_core), x);
    } else {
        lemma_in_placeholder_checks(ps.drop_last(), prefix, name, id, with_core, i, x);
        lemma_in_left(placeholder_checks(ps.drop_last(), prefix, name, id, with_core), placeholder_check(ps.last(), prefix, name, id, with_core), x);
    }
}

proof fn lemma_in_extras_checks(es: Seq<Extra>, id: Seq<char>, i: int, x: Seq<char>)
    requires
        0 <= i < es.len(),
        extra_check(es[i], id).contains(x),
    ensures
        extras_checks(es, id).contains(x),
    decreases es.len(),
{
    if i == es.len() - 1 {
        lemma_in_right(extras_checks(es.drop_last(), id), extra_check(es.last(), id), x);
    } else {
        lemma_in_extras_checks(es.drop_last(), id, i, x);
        lemma_in_left(extras_checks(es.drop_last(), id), extra_check(es.last(), id), x);
    }
}

proof fn lemma_in_flags_checks(fs: Seq<String>, prefix: Seq<char>, i: int, x: Seq<char>)
    requires
        0 <= i < fs.len(),
        flag_check(fs[i]@, prefix).contains(x),
    ensures
        flags_checks(fs, prefix).contains(x),
    decreases fs.len(),
{
    if i == fs.len() - 1 {
        lemma_in_right(flags_checks(fs.drop_last(), prefix), flag_check(fs.last()@, prefix), x);
    } else {
        lemma_in_flags_checks(fs.drop_last(), prefix, i, x);
        lemma_in_left(flags_checks(fs.drop_last(), prefix), flag_check(fs.last()@, prefix), x);
    }
}

proof fn lemma_in_override_extras_checks(es: Seq<Extra>, prefix: Seq<char>, i: int, x: Seq<char>)
    requires
        0 <= i < es.len(),
        placeholder_checks(placeholders(es[i].value@), prefix, es[i].name@, Seq::empty(), false).contains(x),
    ensures
        override_extras_checks(es, prefix).contains(x),
    decreases es.len(),
{
    let last = placeholder_checks(placeholders(es.last().value@), prefix, es.last().name@, Seq::empty(), false);
    if i == es.len() - 1 {
        lemma_in_right(override_extras_checks(es.drop_last(), prefix), last, x);
    } else {
        lemma_in_override_extras_checks(es.drop_last(), prefix, i, x);
        lemma_in_left(override_extras_checks(es.drop_last(), prefix), last, x);
    }
}

proof fn lemma_in_overrides_checks(ps: Seq<(String, PerSystemOverride)>, known: Seq<Seq<char>>, i: int, x: Seq<char>)
    requires
        0 <= i < ps.len(),
        override_check(ps[i].0@, ps[i].1, known).contains(x),
    ensures
        overrides_checks(ps, known).contains(x),
    decreases ps.len(),
{
    if i == ps.len() - 1 {
        lemma_in_right(overrides_checks(ps.drop_last(), known), override_check(ps.last().0@, ps.last().1, known), x);
    } else {
        lemma_in_overrides_checks(ps.drop_last(), known, i, x);
        lemma_in_left(overrides_checks(ps.drop_last(), known), override_check(ps.last().0@, ps.last().1, known), x);
    }
}

proof fn lemma_in_none_mode_checks(es: Seq<Extra>, i: int)
    requires
        0 <= i < es.len(),
        contains_seq(es[i].value@, "{rom_uri}"@),
    ensures
        none_mode_checks(es).contains(m_none_rom(es[i].name@)),
    decreases es.len(),
{
    let x = m_none_rom(es[i].name@);
    let last: Seq<Seq<char>> = if contains_seq(es.last().value@, "{rom_uri}"@) {
        seq![m_none_rom(es.last().name@)]
    } else {
        Seq::empty()
    };
    if i == es.len() - 1 {
        lemma_in_one(x);
        lemma_in_right(none_mode_checks(es.drop_last()), last, x);
    } else {
        lemma_in_none_mode_checks(es.drop_last(), i);
        lemma_in_left(none_mode_checks(es.drop_last()), last, x);
    }
}

proof fn lemma_in_unknown_systems(ss: Seq<String>, known: Seq<Seq<char>>, i: int)
    requires
        0 <= i < ss.len(),
        !known.contains(ss[i]@),
    ensures
        unknown_systems_checks(ss, known).contains("systems entry '"@ + ss[i]@ + "' is not a known system slug"@),
    decreases ss.len(),
{
    let x = "systems entry '"@ + ss[i]@ + "' is not a known system slug"@;
    let last: Seq<Seq<char>> = if !known.contains(ss.last()@) {
        seq!["systems entry '"@ + ss.last()@ + "' is not a known system slug"@]
    } else {
        Seq::empty()
    };
    if i == ss.len() - 1 {
        lemma_in_one(x);
        lemma_in_right(unknown_systems_checks(ss.drop_last(), known), last, x);
    } else {
        lemma_in_unknown_systems(ss.drop_last(), known, i);
        lemma_in_left(unknown_systems_checks(ss.drop_last(), known), last, x);
    }
}

/// A template whose id is not its file's stem is rejected, and that is
/// the first finding.
pub proof fn law_id_mismatch_comes_first(t: IntentTemplate, stem: Seq<char>, known: Seq<Seq<char>>)
    requires
        t.id@ != stem,
    ensures
        validate_spec(t, stem, known).len() > 0,
        validate_spec(t, stem, known)[0] == "id '"@ + t.id@ + "' does not match filename stem '"@ + stem
            + "'"@,
{
    let a0 = seq!["id '"@ + t.id@ + "' does not match filename stem '"@ + stem + "'"@];
    let rest = component_check("package"@, t.package@) + component_check("activity"@, t.activity@) + (
    if !starts_with(t.action@, "android.intent.action."@) {
        seq!["action '"@ + t.action@ + "' must start with 'android.intent.action.'"@]
    } else {
        Seq::empty()
    }) + data_mode_check(t) + extras_checks(t.extras@, t.id@) + flags_checks(t.flags@, Seq::empty())
        + overrides_checks(t.per_system@, known) + systems_check(t, known);
    assert(validate_spec(t, stem, known) =~= a0 + rest);
}

/// Every flag of a template is checked: the write-permission flag is
/// reported as forbidden, and any other flag that is not a known
/// `Intent.FLAG_*` name as unknown; a known flag gives neither finding.
pub proof fn law_flags_are_checked(t: IntentTemplate, stem: Seq<char>, known: Seq<Seq<char>>, i: int)
    requires
        0 <= i < t.flags@.len(),
    ensures
        forbidden_flag(t.flags@[i]@) ==> validate_spec(t, stem, known).contains(
            m_forbidden(Seq::empty(), t.flags@[i]@),
        ),
        !forbidden_flag(t.flags@[i]@) && !known_flag(t.flags@[i]@) ==> validate_spec(t, stem, known).contains(
            m_unknown_flag(Seq::empty(), t.flags@[i]@),
        ),
        known_flag(t.flags@[i]@) ==> flag_check(t.flags@[i]@, Seq::empty()) == Seq::<Seq<char>>::empty(),
{
    let f = t.flags@[i]@;
    reveal_strlit("FLAG_GRANT_WRITE_URI_PERMISSION");
    reveal_strlit("FLAG_GRANT_READ_URI_PERMISSION");
    reveal_strlit("FLAG_ACTIVITY_NEW_TASK");
    reveal_strlit("FLAG_ACTIVITY_CLEAR_TOP");
    reveal_strlit("FLAG_ACTIVITY_SINGLE_TOP");
    reveal_strlit("FLAG_ACTIVITY_NO_HISTORY");
    reveal_strlit("FLAG_ACTIVITY_EXCLUDE_FROM_RECENTS");
    if known_flag(f) {
        assert("FLAG_GRANT_WRITE_URI_PERMISSION"@.len() != "FLAG_GRANT_READ_URI_PERMISSION"@.len());
        assert("FLAG_GRANT_WRITE_URI_PERMISSION"@.len() != "FLAG_ACTIVITY_NEW_TASK"@.len());
        assert("FLAG_GRANT_WRITE_URI_PERMISSION"@.len() != "FLAG_ACTIVITY_CLEAR_TOP"@.len());
        assert("FLAG_GRANT_WRITE_URI_PERMISSION"@.len() != "FLAG_ACTIVITY_SINGLE_TOP"@.len());
        assert("FLAG_GRANT_WRITE_URI_PERMISSION"@.len() != "FLAG_ACTIVITY_NO_HISTORY"@.len());
        assert("FLAG_GRANT_WRITE_URI_PERMISSION"@.len() != "FLAG_ACTIVITY_EXCLUDE_FROM_RECENTS"@.len());
        assert(!forbidden_flag(f));
    }
    if forbidden_flag(f) {
        lemma_in_one(m_forbidden(Seq::empty(), f));
        lemma_in_flags_checks(t.flags@, Seq::empty(), i, m_forbidden(Seq::empty(), f));
        lemma_in_validate(t, stem, known, m_forbidden(Seq::empty(), f), 4);
    } else if !known_flag(f) {
        lemma_in_one(m_unknown_flag(Seq::empty(), f));
        lemma_in_flags_checks(t.flags@, Seq::empty(), i, m_unknown_flag(Seq::empty(), f));
        lemma_in_validate(t, stem, known, m_unknown_flag(Seq::empty(), f), 4);
    }
}

/// The systems a template targets are checked: none at all is an error,
/// `*` mixed with slugs is an error, and otherwise each slug not among
/// the known ones is reported.
pub proof fn law_systems_are_checked(t: IntentTemplate, stem: Seq<char>, known: Seq<Seq<char>>)
    ensures
        t.systems@.len() == 0 ==> validate_spec(t, stem, known).contains("systems must not be empty"@),
        strings_view(t.systems@).contains("*"@) && t.systems@.len() > 1 ==> validate_spec(t, stem, known).contains(
            "systems: '*' must be the only entry, not mixed with slugs"@,
        ),
        strings_view(t.systems@).contains("*"@) && t.systems@.len() == 1 ==> systems_check(t, known)
            == Seq::<Seq<char>>::empty(),
        forall|i: int|
            0 <= i < t.systems@.len() && !strings_view(t.systems@).contains("*"@) && !known.contains(
                (#[trigger] t.systems@[i])@,
            ) ==> validate_spec(t, stem, known).contains(
                "systems entry '"@ + t.systems@[i]@ + "' is not a known system slug"@,
            ),
{
    if t.systems@.len() == 0 {
        lemma_in_one("systems must not be empty"@);
        lemma_in_validate(t, stem, known, "systems must not be empty"@, 6);
    } else if strings_view(t.systems@).contains("*"@) {
        if t.systems@.len() > 1 {
            lemma_in_one("systems: '*' must be the only entry, not mixed with slugs"@);
            lemma_in_validate(t, stem, known, "systems: '*' must be the only entry, not mixed with slugs"@, 6);
        }
    } else {
        assert forall|i: int|
            0 <= i < t.systems@.len() && !known.contains((#[trigger] t.systems@[i])@) implies validate_spec(
            t,
            stem,
            known,
        ).contains("systems entry '"@ + t.systems@[i]@ + "' is not a known system slug"@) by {
            lemma_in_unknown_systems(t.systems@, known, i);
            lemma_in_validate(t, stem, known, "systems entry '"@ + t.systems@[i]@ + "' is not a known system slug"@, 6);
        }
    }
}

/// How the ROM reaches the activity is checked: `extra` mode needs a
/// non-empty extra name, and an extra of that name whose value is exactly
/// `{rom_uri}`; `none` mode reports every extra that references
/// `{rom_uri}`.
pub proof fn law_data_mode_is_checked(t: IntentTemplate, stem: Seq<char>, known: Seq<Seq<char>>)
    ensures
        t.data_mode == DataMode::Extra && (t.data_extra_name is None || t.data_extra_name->0@.len() == 0)
            ==> validate_spec(t, stem, known).contains(
            "data_mode = \"extra\" requires a non-empty data_extra_name"@,
        ),
        t.data_mode == DataMode::Extra ==> (t.data_extra_name matches Some(n) ==> (n@.len() > 0
            && !carries_rom(t.extras@, n@) ==> validate_spec(t, stem, known).contains(m_no_rom(n@)))),
        t.data_mode == DataMode::Extra ==> (t.data_extra_name matches Some(n) ==> (n@.len() > 0
            && carries_rom(t.extras@, n@) ==> data_mode_check(t) == Seq::<Seq<char>>::empty())),
        forall|i: int|
            0 <= i < t.extras@.len() && t.data_mode == DataMode::NoData && contains_seq(
                (#[trigger] t.extras@[i]).value@,
                "{rom_uri}"@,
            ) ==> validate_spec(t, stem, known).contains(m_none_rom(t.extras@[i].name@)),
{
    match t.data_mode {
        DataMode::Extra => {
            let x = "data_mode = \"extra\" requires a non-empty data_extra_name"@;
            match t.data_extra_name {
                None => {
                    lemma_in_one(x);
                    lemma_in_validate(t, stem, known, x, 2);
                },
                Some(n) => {
                    if n@.len() == 0 {
                        lemma_in_one(x);
                        lemma_in_validate(t, stem, known, x, 2);
                    } else if !carries_rom(t.extras@, n@) {
                        lemma_in_one(m_no_rom(n@));
                        lemma_in_validate(t, stem, known, m_no_rom(n@), 2);
                    }
                },
            }
        },
        DataMode::NoData => {
            assert forall|i: int|
                0 <= i < t.extras@.len() && contains_seq(
                    (#[trigger] t.extras@[i]).value@,
                    "{rom_uri}"@,
                ) implies validate_spec(t, stem, known).contains(m_none_rom(t.extras@[i].name@)) by {
                lemma_in_none_mode_checks(t.extras@, i);
                lemma_in_validate(t, stem, known, m_none_rom(t.extras@[i].name@), 2);
            }
        },
        DataMode::Data => {},
    }
}

/// Every top-level extra is checked: an empty name, a `bool` value other
/// than `true`/`false` and an `int` value that is not a base-10 `i64` are
/// reported; each placeholder it references must be `rom_uri`, `rom_path`
/// or `core`, and `{core}` only in a libretro-frontend template.
pub proof fn law_extras_are_checked(t: IntentTemplate, stem: Seq<char>, known: Seq<Seq<char>>, i: int, j: int)
    requires
        0 <= i < t.extras@.len(),
    ensures
        t.extras@[i].name@.len() == 0 ==> validate_spec(t, stem, known).contains("an extra has an empty name"@),
        t.extras@[i].extra_type == ExtraType::Bool && t.extras@[i].value@ != "true"@ && t.extras@[i].value@
            != "false"@ ==> validate_spec(t, stem, known).contains(
            m_bool(t.extras@[i].name@, t.extras@[i].value@),
        ),
        t.extras@[i].extra_type == ExtraType::Int && !parses_i64(t.extras@[i].value@) ==> validate_spec(
            t,
            stem,
            known,
        ).contains(m_int(t.extras@[i].name@, t.extras@[i].value@)),
        t.extras@[i].extra_type == ExtraType::String ==> type_check(t.extras@[i]) == Seq::<Seq<char>>::empty(),
        0 <= j < placeholders(t.extras@[i].value@).len() && !known_placeholder(
            placeholders(t.extras@[i].value@)[j],
        ) ==> validate_spec(t, stem, known).contains(
            m_unknown_placeholder(Seq::empty(), t.extras@[i].name@, placeholders(t.extras@[i].value@)[j]),
        ),
        0 <= j < placeholders(t.extras@[i].value@).len() && placeholders(t.extras@[i].value@)[j] == "core"@
            && !libretro_id(t.id@) ==> validate_spec(t, stem, known).contains(m_core(t.extras@[i].name@)),
{
    let e = t.extras@[i];
    let id = t.id@;
    let n0: Seq<Seq<char>> = if e.name@.len() == 0 {
        seq!["an extra has an empty name"@]
    } else {
        Seq::empty()
    };
    let ty = type_check(e);
    let ps = placeholders(e.value@);
    let pc = placeholder_checks(ps, Seq::empty(), e.name@, id, true);
    assert(extra_check(e, id) == n0 + ty + pc);
    if e.name@.len() == 0 {
        let x = "an extra has an empty name"@;
        lemma_in_one(x);
        lemma_in_left(n0, ty, x);
        lemma_in_left(n0 + ty, pc, x);
        lemma_in_extras_checks(t.extras@, id, i, x);
        lemma_in_validate(t, stem, known, x, 3);
    }
    if ty.len() > 0 {
        let x = ty[0];
        assert(ty.contains(x));
        lemma_in_right(n0, ty, x);
        lemma_in_left(n0 + ty, pc, x);
        lemma_in_extras_checks(t.extras@, id, i, x);
        lemma_in_validate(t, stem, known, x, 3);
    }
    if 0 <= j < ps.len() {
        let p = ps[j];
        let a: Seq<Seq<char>> = if !known_placeholder(p) {
            seq![m_unknown_placeholder(Seq::empty(), e.name@, p)]
        } else {
            Seq::empty()
        };
        let b: Seq<Seq<char>> = if true && p == "core"@ && !libretro_id(id) {
            seq![m_core(e.name@)]
        } else {
            Seq::empty()
        };
        assert(placeholder_check(p, Seq::empty(), e.name@, id, true) == a + b);
        if !known_placeholder(p) {
            let x = m_unknown_placeholder(Seq::empty(), e.name@, p);
            lemma_in_one(x);
            lemma_in_left(a, b, x);
            lemma_in_placeholder_checks(ps, Seq::empty(), e.name@, id, true, j, x);
            lemma_in_right(n0 + ty, pc, x);
            lemma_in_extras_checks(t.extras@, id, i, x);
            lemma_in_validate(t, stem, known, x, 3);
        }
        if p == "core"@ && !libretro_id(id) {
            let x = m_core(e.name@);
            lemma_in_one(x);
            lemma_in_right(a, b, x);
            lemma_in_placeholder_checks(ps, Seq::empty(), e.name@, id, true, j, x);
            lemma_in_right(n0 + ty, pc, x);
            lemma_in_extras_checks(t.extras@, id, i, x);
            lemma_in_validate(t, stem, known, x, 3);
        }
    }
}

/// Every per-system override is checked: its slug must be known, each
/// placeholder its extras reference must be `rom_uri`, `rom_path` or
/// `core`, and each of its flags must be known and not forbidden; these
/// findings carry the `per_system.<slug> ` prefix.
pub proof fn law_overrides_are_checked(
    t: IntentTemplate,
    stem: Seq<char>,
    known: Seq<Seq<char>>,
    i: int,
    k: int,
    j: int,
)
    requires
        0 <= i < t.per_system@.len(),
    ensures
        !known.contains(t.per_system@[i].0@) ==> validate_spec(t, stem, known).contains(
            m_unknown_key(t.per_system@[i].0@),
        ),
        0 <= k < t.per_system@[i].1.flags@.len() && forbidden_flag(t.per_system@[i].1.flags@[k]@)
            ==> validate_spec(t, stem, known).contains(
            m_forbidden(system_prefix(t.per_system@[i].0@), t.per_system@[i].1.flags@[k]@),
        ),
        0 <= k < t.per_system@[i].1.flags@.len() && !forbidden_flag(t.per_system@[i].1.flags@[k]@)
            && !known_flag(t.per_system@[i].1.flags@[k]@) ==> validate_spec(t, stem, known).contains(
            m_unknown_flag(system_prefix(t.per_system@[i].0@), t.per_system@[i].1.flags@[k]@),
        ),
        0 <= k < t.per_system@[i].1.extras@.len() && 0 <= j < placeholders(
            t.per_system@[i].1.extras@[k].value@,
        ).len() && !known_placeholder(placeholders(t.per_system@[i].1.extras@[k].value@)[j])
            ==> validate_spec(t, stem, known).contains(
            m_unknown_placeholder(
                system_prefix(t.per_system@[i].0@),
                t.per_system@[i].1.extras@[k].name@,
                placeholders(t.per_system@[i].1.extras@[k].value@)[j],
            ),
        ),
{
    let slug = t.per_system@[i].0@;
    let o = t.per_system@[i].1;
    let pre = system_prefix(slug);
    let u: Seq<Seq<char>> = if !known.contains(slug) {
        seq![m_unknown_key(slug)]
    } else {
        Seq::empty()
    };
    let ex = override_extras_checks(o.extras@, pre);
    let fl = flags_checks(o.flags@, pre);
    assert(override_check(slug, o, known) == u + ex + fl);
    if !known.contains(slug) {
        let x = m_unknown_key(slug);
        lemma_in_one(x);
        lemma_in_left(u, ex, x);
        lemma_in_left(u + ex, fl, x);
        lemma_in_overrides_checks(t.per_system@, known, i, x);
        lemma_in_validate(t, stem, known, x, 5);
    }
    if 0 <= k < o.flags@.len() {
        let f = o.flags@[k]@;
        if forbidden_flag(f) || !known_flag(f) {
            let x = if forbidden_flag(f) {
                m_forbidden(pre, f)
            } else {
                m_unknown_flag(pre, f)
            };
            lemma_in_one(x);
            lemma_in_flags_checks(o.flags@, pre, k, x);
            lemma_in_right(u + ex, fl, x);
            lemma_in_overrides_checks(t.per_system@, known, i, x);
            lemma_in_validate(t, stem, known, x, 5);
        }
    }
    if 0 <= k < o.extras@.len() {
        let e = o.extras@[k];
        let ps = placeholders(e.value@);
        if 0 <= j < ps.len() && !known_placeholder(ps[j]) {
            let p = ps[j];
            let x = m_unknown_placeholder(pre, e.name@, p);
            let a: Seq<Seq<char>> = seq![x];
            let b: Seq<Seq<char>> = Seq::empty();
            assert(placeholder_check(p, pre, e.name@, Seq::empty(), false) == a + b);
            lemma_in_one(x);
            lemma_in_left(a, b, x);
            lemma_in_placeholder_checks(ps, pre, e.name@, Seq::empty(), false, j, x);
            lemma_in_override_extras_checks(o.extras@, pre, k, x);
            lemma_in_right(u, ex, x);
            lemma_in_left(u + ex, fl, x);
            lemma_in_overrides_checks(t.per_system@, known, i, x);
            lemma_in_validate(t, stem, known, x, 5);
        }
    }
}

/// Text with no brace is copied as it is by substitution.
pub proof fn law_braceless_text_is_copied(v: Seq<char>, ctx: LaunchContext)
    requires
        !v.contains('{'),
        !v.contains('}'),
    ensures
        subst_value(v, ctx) == v,
    decreases v.len(),
{
    if v.len() > 0 {
        let r = v.skip(1);
        assert(!r.contains('{')) by {
            if r.contains('{') {
                let k = choose|k: int| 0 <= k < r.len() && r[k] == '{';
                assert(v[k + 1] == '{');
            }
        }
        assert(!r.contains('}')) by {
            if r.contains('}') {
                let k = choose|k: int| 0 <= k < r.len() && r[k] == '}';
                assert(v[k + 1] == '}');
            }
        }
        assert(v[0] != '{' && v[0] != '}') by {
            if v[0] == '{' {
                assert(v.contains('{'));
            }
            if v[0] == '}' {
                assert(v.contains('}'));
            }
        }
        assert(!starts_with(v, seq!['{', '{'])) by {
            if starts_with(v, seq!['{', '{']) {
                assert(v.take(2)[0] == v[0]);
            }
        }
        assert(!starts_with(v, seq!['}', '}'])) by {
            if starts_with(v, seq!['}', '}']) {
                assert(v.take(2)[0] == v[0]);
            }
        }
        law_braceless_text_is_copied(r, ctx);
        assert(seq![v[0]] + r =~= v);
    }
}

/// A known placeholder is replaced by its value, and the value is not
/// scanned again: substitution goes on after the placeholder, whatever
/// braces or placeholder names the value holds.
pub proof fn law_placeholder_value_is_not_rescanned(name: Seq<char>, rest: Seq<char>, ctx: LaunchContext)
    requires
        known_placeholder(name),
    ensures
        subst_value(seq!['{'] + name + seq!['}'] + rest, ctx) == placeholder_value(ctx, name)->0
            + subst_value(rest, ctx),
{
    reveal_strlit("rom_uri");
    reveal_strlit("rom_path");
    reveal_strlit("core");
    let v = seq!['{'] + name + seq!['}'] + rest;
    assert(name.len() > 0 && name[0] != '{' && name[0] != '}');
    assert(forall|k: int| 0 <= k < name.len() ==> name[k] != '}');
    assert(v[0] == '{');
    assert(v[1] == name[0]);
    assert(!starts_with(v, seq!['{', '{'])) by {
        if starts_with(v, seq!['{', '{']) {
            assert(v.take(2)[1] == v[1]);
        }
    }
    assert(!starts_with(v, seq!['}', '}'])) by {
        if starts_with(v, seq!['}', '}']) {
            assert(v.take(2)[0] == v[0]);
        }
    }
    let after = v.skip(1);
    assert forall|k: int| 0 <= k < name.len() implies after[k] != '}' by {
        assert(after[k] == name[k]);
    }
    assert(after[name.len() as int] == '}');
    crate::text::lemma_find_from_first(after, '}', 0, name.len() as int);
    assert(after.take(name.len() as int) =~= name);
    assert(after.skip(name.len() as int + 1) =~= rest);
}

/// A finding that cannot be the id finding: it does not start with `i`.
pub open spec fn not_id_finding(x: Seq<char>) -> bool {
    x.len() > 0 && x[0] != 'i'
}

pub open spec fn no_id_findings(v: Seq<Seq<char>>) -> bool {
    forall|k: int| 0 <= k < v.len() ==> not_id_finding(#[trigger] v[k])
}

/// A prefix that findings may carry: none, or one not starting with `i`.
pub open spec fn prefix_ok(prefix: Seq<char>) -> bool {
    prefix.len() == 0 || prefix[0] != 'i'
}

proof fn lemma_no_id_concat(a: Seq<Seq<char>>, b: Seq<Seq<char>>)
    requires
        no_id_findings(a),
        no_id_findings(b),
    ensures
        no_id_findings(a + b),
{
    assert forall|k: int| 0 <= k < (a + b).len() implies not_id_finding(#[trigger] (a + b)[k]) by {
        if k < a.len() {
            assert((a + b)[k] == a[k]);
        } else {
            assert((a + b)[k] == b[k - a.len()]);
        }
    }
}

proof fn lemma_no_id_one(x: Seq<char>)
    requires
        not_id_finding(x),
    ensures
        no_id_findings(seq![x]),
{
}

proof fn lemma_prefixed(prefix: Seq<char>, rest: Seq<char>)
    requires
        prefix_ok(prefix),
        not_id_finding(rest),
    ensures
        not_id_finding(prefix + rest),
{
    if prefix.len() > 0 {
        assert((prefix + rest)[0] == prefix[0]);
    } else {
        assert(prefix + rest =~= rest);
    }
}

proof fn lemma_lead(a: Seq<char>, b: Seq<char>, c: char)
    requires
        a.len() > 0,
        a[0] == c,
    ensures
        (a + b).len() > 0 && (a + b)[0] == c,
{
    assert((a + b)[0] == a[0]);
}

proof fn lemma_placeholder_no_id(ps: Seq<Seq<char>>, prefix: Seq<char>, name: Seq<char>, id: Seq<char>, with_core: bool)
    requires
        prefix_ok(prefix),
    ensures
        no_id_findings(placeholder_checks(ps, prefix, name, id, with_core)),
    decreases ps.len(),
{
    reveal_strlit("extra '");
    if ps.len() > 0 {
        lemma_placeholder_no_id(ps.drop_last(), prefix, name, id, with_core);
        let p = ps.last();
        let m1 = "extra '"@ + name + "' references unknown placeholder {"@ + p + "}"@;
        lemma_lead("extra '"@, name, 'e');
        lemma_lead("extra '"@ + name, "' references unknown placeholder {"@, 'e');
        lemma_lead("extra '"@ + name + "' references unknown placeholder {"@, p, 'e');
        lemma_lead("extra '"@ + name + "' references unknown placeholder {"@ + p, "}"@, 'e');
        lemma_prefixed(prefix, m1);
        let m2 = m_core(name);
        lemma_lead("extra '"@, name, 'e');
        lemma_lead("extra '"@ + name, "' references {core}, but {core} is only valid in a libretro-frontend template ([\"retroarch\", \"retroarch_aarch64\"])"@, 'e');
        let a: Seq<Seq<char>> = if !known_placeholder(p) {
            seq![m_unknown_placeholder(prefix, name, p)]
        } else {
            Seq::empty()
        };
        let b: Seq<Seq<char>> = if with_core && p == "core"@ && !libretro_id(id) {
            seq![m2]
        } else {
            Seq::empty()
        };
        lemma_no_id_concat(a, b);
        lemma_no_id_concat(placeholder_checks(ps.drop_last(), prefix, name, id, with_core), a + b);
    }
}

proof fn lemma_extras_no_id(es: Seq<Extra>, id: Seq<char>)
    ensures
        no_id_findings(extras_checks(es, id)),
    decreases es.len(),
{
    reveal_strlit("extra '");
    reveal_strlit("an extra has an empty name");
    if es.len() > 0 {
        lemma_extras_no_id(es.drop_last(), id);
        let e = es.last();
        let n0: Seq<Seq<char>> = if e.name@.len() == 0 {
            seq!["an extra has an empty name"@]
        } else {
            Seq::empty()
        };
        lemma_lead("extra '"@, e.name@, 'e');
        lemma_lead("extra '"@ + e.name@, "' has type = \"bool\" but value '"@, 'e');
        lemma_lead("extra '"@ + e.name@ + "' has type = \"bool\" but value '"@, e.value@, 'e');
        lemma_lead("extra '"@ + e.name@ + "' has type = \"bool\" but value '"@ + e.value@, "' is not \"true\"/\"false\""@, 'e');
        lemma_lead("extra '"@ + e.name@, "' has type = \"int\" but value '"@, 'e');
        lemma_lead("extra '"@ + e.name@ + "' has type = \"int\" but value '"@, e.value@, 'e');
        lemma_lead("extra '"@ + e.name@ + "' has type = \"int\" but value '"@ + e.value@, "' is not a base-10 integer"@, 'e');
        lemma_placeholder_no_id(placeholders(e.value@), Seq::empty(), e.name@, id, true);
        lemma_no_id_concat(n0, type_check(e));
        lemma_no_id_concat(n0 + type_check(e), placeholder_checks(placeholders(e.value@), Seq::empty(), e.name@, id, true));
        lemma_no_id_concat(extras_checks(es.drop_last(), id), extra_check(e, id));
    }
}

proof fn lemma_flags_no_id(fs: Seq<String>, prefix: Seq<char>)
    requires
        prefix_ok(prefix),
    ensures
        no_id_findings(flags_checks(fs, prefix)),
    decreases fs.len(),
{
    reveal_strlit("flag '");
    if fs.len() > 0 {
        lemma_flags_no_id(fs.drop_last(), prefix);
        let f = fs.last()@;
        lemma_lead("flag '"@, f, 'f');
        lemma_lead("flag '"@ + f, "' is forbidden (read-only security model)"@, 'f');
        lemma_lead("flag '"@ + f, "' is not a known Intent.FLAG_* name"@, 'f');
        lemma_prefixed(prefix, "flag '"@ + f + "' is forbidden (read-only security model)"@);
        lemma_prefixed(prefix, "flag '"@ + f + "' is not a known Intent.FLAG_* name"@);
        lemma_no_id_concat(flags_checks(fs.drop_last(), prefix), flag_check(f, prefix));
    }
}

proof fn lemma_override_extras_no_id(es: Seq<Extra>, prefix: Seq<char>)
    requires
        prefix_ok(prefix),
    ensures
        no_id_findings(override_extras_checks(es, prefix)),
    decreases es.len(),
{
    if es.len() > 0 {
        lemma_override_extras_no_id(es.drop_last(), prefix);
        lemma_placeholder_no_id(placeholders(es.last().value@), prefix, es.last().name@, Seq::empty(), false);
        lemma_no_id_concat(
            override_extras_checks(es.drop_last(), prefix),
            placeholder_checks(placeholders(es.last().value@), prefix, es.last().name@, Seq::empty(), false),
        );
    }
}

proof fn lemma_overrides_no_id(ps: Seq<(String, PerSystemOverride)>, known: Seq<Seq<char>>)
    ensures
        no_id_findings(overrides_checks(ps, known)),
    decreases ps.len(),
{
    reveal_strlit("per_system key '");
    reveal_strlit("per_system.");
    if ps.len() > 0 {
        lemma_overrides_no_id(ps.drop_last(), known);
        let slug = ps.last().0@;
        let o = ps.last().1;
        lemma_lead("per_system key '"@, slug, 'p');
        lemma_lead("per_system key '"@ + slug, "' is not a known system slug"@, 'p');
        lemma_lead("per_system."@, slug, 'p');
        lemma_lead("per_system."@ + slug, " "@, 'p');
        let u: Seq<Seq<char>> = if !known.contains(slug) {
            seq![m_unknown_key(slug)]
        } else {
            Seq::empty()
        };
        lemma_override_extras_no_id(o.extras@, system_prefix(slug));
        lemma_flags_no_id(o.flags@, system_prefix(slug));
        lemma_no_id_concat(u, override_extras_checks(o.extras@, system_prefix(slug)));
        lemma_no_id_concat(u + override_extras_checks(o.extras@, system_prefix(slug)), flags_checks(o.flags@, system_prefix(slug)));
        lemma_no_id_concat(overrides_checks(ps.drop_last(), known), override_check(slug, o, known));
    }
}

proof fn lemma_none_mode_no_id(es: Seq<Extra>)
    ensures
        no_id_findings(none_mode_checks(es)),
    decreases es.len(),
{
    reveal_strlit("data_mode = \"none\" but extra '");
    if es.len() > 0 {
        lemma_none_mode_no_id(es.drop_last());
        let n = es.last().name@;
        lemma_lead("data_mode = \"none\" but extra '"@, n, 'd');
        lemma_lead("data_mode = \"none\" but extra '"@ + n, "' references {rom_uri}"@, 'd');
        let last: Seq<Seq<char>> = if contains_seq(es.last().value@, "{rom_uri}"@) {
            seq![m_none_rom(n)]
        } else {
            Seq::empty()
        };
        lemma_no_id_concat(none_mode_checks(es.drop_last()), last);
    }
}

proof fn lemma_unknown_systems_no_id(ss: Seq<String>, known: Seq<Seq<char>>)
    ensures
        no_id_findings(unknown_systems_checks(ss, known)),
    decreases ss.len(),
{
    reveal_strlit("systems entry '");
    if ss.len() > 0 {
        lemma_unknown_systems_no_id(ss.drop_last(), known);
        let x = ss.last()@;
        lemma_lead("systems entry '"@, x, 's');
        lemma_lead("systems entry '"@ + x, "' is not a known system slug"@, 's');
        let last: Seq<Seq<char>> = if !known.contains(x) {
            seq!["systems entry '"@ + x + "' is not a known system slug"@]
        } else {
            Seq::empty()
        };
        lemma_no_id_concat(unknown_systems_checks(ss.drop_last(), known), last);
    }
}

/// The id finding comes first exactly when the id differs from the file
/// stem: no other rule's finding can stand first in its place.
pub proof fn law_id_finding_iff_mismatch(t: IntentTemplate, stem: Seq<char>, known: Seq<Seq<char>>)
    ensures
        (t.id@ != stem) == (validate_spec(t, stem, known).len() > 0 && validate_spec(t, stem, known)[0]
            == "id '"@ + t.id@ + "' does not match filename stem '"@ + stem + "'"@),
{
    let msg = "id '"@ + t.id@ + "' does not match filename stem '"@ + stem + "'"@;
    if t.id@ != stem {
        law_id_mismatch_comes_first(t, stem, known);
    } else {
        reveal_strlit("id '");
        reveal_strlit("package");
        reveal_strlit("activity");
        reveal_strlit("action '");
        reveal_strlit("data_mode = \"extra\" requires a non-empty data_extra_name");
        reveal_strlit("data_mode = \"extra\" names data_extra_name '");
        reveal_strlit("systems must not be empty");
        reveal_strlit("systems: '*' must be the only entry, not mixed with slugs");
        lemma_lead("id '"@, t.id@, 'i');
        lemma_lead("id '"@ + t.id@, "' does not match filename stem '"@, 'i');
        lemma_lead("id '"@ + t.id@ + "' does not match filename stem '"@, stem, 'i');
        lemma_lead("id '"@ + t.id@ + "' does not match filename stem '"@ + stem, "'"@, 'i');
        let c1 = component_check("package"@, t.package@);
        let c2 = component_check("activity"@, t.activity@);
        lemma_lead("package"@, " '"@, 'p');
        lemma_lead("package"@ + " '"@, t.package@, 'p');
        lemma_lead("package"@ + " '"@ + t.package@, "' must be a non-empty, dotted, space-free component name"@, 'p');
        lemma_lead("activity"@, " '"@, 'a');
        lemma_lead("activity"@ + " '"@, t.activity@, 'a');
        lemma_lead("activity"@ + " '"@ + t.activity@, "' must be a non-empty, dotted, space-free component name"@, 'a');
        let a3: Seq<Seq<char>> = if !starts_with(t.action@, "android.intent.action."@) {
            seq!["action '"@ + t.action@ + "' must start with 'android.intent.action.'"@]
        } else {
            Seq::empty()
        };
        lemma_lead("action '"@, t.action@, 'a');
        lemma_lead("action '"@ + t.action@, "' must start with 'android.intent.action.'"@, 'a');
        match t.data_extra_name {
            Some(n) => {
                lemma_lead("data_mode = \"extra\" names data_extra_name '"@, n@, 'd');
                lemma_lead("data_mode = \"extra\" names data_extra_name '"@ + n@, "', but no [[extras]] entry has name = '"@, 'd');
                lemma_lead("data_mode = \"extra\" names data_extra_name '"@ + n@ + "', but no [[extras]] entry has name = '"@, n@, 'd');
                lemma_lead("data_mode = \"extra\" names data_extra_name '"@ + n@ + "', but no [[extras]] entry has name = '"@ + n@, "' and value = \"{rom_uri}\""@, 'd');
            },
            None => {},
        }
        lemma_none_mode_no_id(t.extras@);
        lemma_extras_no_id(t.extras@, t.id@);
        lemma_flags_no_id(t.flags@, Seq::empty());
        lemma_overrides_no_id(t.per_system@, known);
        lemma_unknown_systems_no_id(t.systems@, known);
        let d = data_mode_check(t);
        let s8 = systems_check(t, known);
        assert(no_id_findings(d));
        assert(no_id_findings(s8));
        lemma_no_id_concat(c1, c2);
        lemma_no_id_concat(c1 + c2, a3);
        lemma_no_id_concat(c1 + c2 + a3, d);
        lemma_no_id_concat(c1 + c2 + a3 + d, extras_checks(t.extras@, t.id@));
        lemma_no_id_concat(c1 + c2 + a3 + d + extras_checks(t.extras@, t.id@), flags_checks(t.flags@, Seq::empty()));
        lemma_no_id_concat(c1 + c2 + a3 + d + extras_checks(t.extras@, t.id@) + flags_checks(t.flags@, Seq::empty()), overrides_checks(t.per_system@, known));
        let all = c1 + c2 + a3 + d + extras_checks(t.extras@, t.id@) + flags_checks(t.flags@, Seq::empty())
            + overrides_checks(t.per_system@, known);
        lemma_no_id_concat(all, s8);
        assert(validate_spec(t, stem, known) =~= all + s8);
        if validate_spec(t, stem, known).len() > 0 {
            assert(not_id_finding(validate_spec(t, stem, known)[0]));
            assert(msg[0] == 'i');
        }
    }
}

// ---------------------------------------------------------------------
// Which rule a finding comes from
// ---------------------------------------------------------------------

/// Every finding is non-empty and starts with `c1` or `c2`.
pub open spec fn leads(v: Seq<Seq<char>>, c1: char, c2: char) -> bool {
    forall|k: int| 0 <= k < v.len() ==> (#[trigger] v[k]).len() > 0 && (v[k][0] == c1 || v[k][0] == c2)
}

proof fn lemma_leads_concat(a: Seq<Seq<char>>, b: Seq<Seq<char>>, c1: char, c2: char)
    requires
        leads(a, c1, c2),
        leads(b, c1, c2),
    ensures
        leads(a + b, c1, c2),
{
    assert forall|k: int| 0 <= k < (a + b).len() implies (#[trigger] (a + b)[k]).len() > 0 && ((a + b)[k][0]
        == c1 || (a + b)[k][0] == c2) by {
        if k < a.len() {
            assert((a + b)[k] == a[k]);
        } else {
            assert((a + b)[k] == b[k - a.len()]);
        }
    }
}

proof fn lemma_leads_one(x: Seq<char>, c1: char, c2: char)
    requires
        x.len() > 0,
        x[0] == c1 || x[0] == c2,
    ensures
        leads(seq![x], c1, c2),
{
}

proof fn lemma_not_in_leads(v: Seq<Seq<char>>, x: Seq<char>, c1: char, c2: char)
    requires
        leads(v, c1, c2),
        x.len() > 0,
        x[0] != c1,
        x[0] != c2,
    ensures
        !v.contains(x),
{
    if v.contains(x) {
        let k = choose|k: int| 0 <= k < v.len() && v[k] == x;
        assert(v[k][0] == c1 || v[k][0] == c2);
    }
}

proof fn lemma_in_concat(a: Seq<Seq<char>>, b: Seq<Seq<char>>, x: Seq<char>)
    requires
        (a + b).contains(x),
    ensures
        a.contains(x) || b.contains(x),
{
    let k = choose|k: int| 0 <= k < (a + b).len() && (a + b)[k] == x;
    if k < a.len() {
        assert(a[k] == x);
    } else {
        assert(b[k - a.len()] == x);
    }
}

proof fn lemma_placeholder_leads(ps: Seq<Seq<char>>, prefix: Seq<char>, name: Seq<char>, id: Seq<char>, with_core: bool, c: char)
    requires
        (prefix.len() == 0 && c == 'e') || (prefix.len() > 0 && prefix[0] == c && !with_core),
    ensures
        leads(placeholder_checks(ps, prefix, name, id, with_core), c, c),
    decreases ps.len(),
{
    reveal_strlit("extra '");
    if ps.len() > 0 {
        lemma_placeholder_leads(ps.drop_last(), prefix, name, id, with_core, c);
        let p = ps.last();
        let m1 = "extra '"@ + name + "' references unknown placeholder {"@ + p + "}"@;
        lemma_lead("extra '"@, name, 'e');
        lemma_lead("extra '"@ + name, "' references unknown placeholder {"@, 'e');
        lemma_lead("extra '"@ + name + "' references unknown placeholder {"@, p, 'e');
        lemma_lead("extra '"@ + name + "' references unknown placeholder {"@ + p, "}"@, 'e');
        if prefix.len() > 0 {
            lemma_lead(prefix, m1, c);
        } else {
            assert(prefix + m1 =~= m1);
        }
        lemma_lead("extra '"@, name, 'e');
        lemma_lead("extra '"@ + name, "' references {core}, but {core} is only valid in a libretro-frontend template ([\"retroarch\", \"retroarch_aarch64\"])"@, 'e');
        let a: Seq<Seq<char>> = if !known_placeholder(p) {
            seq![m_unknown_placeholder(prefix, name, p)]
        } else {
            Seq::empty()
        };
        let b: Seq<Seq<char>> = if with_core && p == "core"@ && !libretro_id(id) {
            seq![m_core(name)]
        } else {
            Seq::empty()
        };
        lemma_leads_concat(a, b, c, c);
        lemma_leads_concat(placeholder_checks(ps.drop_last(), prefix, name, id, with_core), a + b, c, c);
    }
}

proof fn lemma_extras_leads(es: Seq<Extra>, id: Seq<char>)
    ensures
        leads(extras_checks(es, id), 'a', 'e'),
    decreases es.len(),
{
    reveal_strlit("extra '");
    reveal_strlit("an extra has an empty name");
    if es.len() > 0 {
        lemma_extras_leads(es.drop_last(), id);
        let e = es.last();
        let n0: Seq<Seq<char>> = if e.name@.len() == 0 {
            seq!["an extra has an empty name"@]
        } else {
            Seq::empty()
        };
        lemma_lead("extra '"@, e.name@, 'e');
        lemma_lead("extra '"@ + e.name@, "' has type = \"bool\" but value '"@, 'e');
        lemma_lead("extra '"@ + e.name@ + "' has type = \"bool\" but value '"@, e.value@, 'e');
        lemma_lead("extra '"@ + e.name@ + "' has type = \"bool\" but value '"@ + e.value@, "' is not \"true\"/\"false\""@, 'e');
        lemma_lead("extra '"@ + e.name@, "' has type = \"int\" but value '"@, 'e');
        lemma_lead("extra '"@ + e.name@ + "' has type = \"int\" but value '"@, e.value@, 'e');
        lemma_lead("extra '"@ + e.name@ + "' has type = \"int\" but value '"@ + e.value@, "' is not a base-10 integer"@, 'e');
        lemma_placeholder_leads(placeholders(e.value@), Seq::empty(), e.name@, id, true, 'e');
        let pc = placeholder_checks(placeholders(e.value@), Seq::empty(), e.name@, id, true);
        assert(leads(pc, 'a', 'e'));
        assert(leads(type_check(e), 'a', 'e'));
        lemma_leads_concat(n0, type_check(e), 'a', 'e');
        lemma_leads_concat(n0 + type_check(e), pc, 'a', 'e');
        lemma_leads_concat(extras_checks(es.drop_last(), id), extra_check(e, id), 'a', 'e');
    }
}

proof fn lemma_flags_leads(fs: Seq<String>, prefix: Seq<char>, c: char)
    requires
        (prefix.len() == 0 && c == 'f') || (prefix.len() > 0 && prefix[0] == c),
    ensures
        leads(flags_checks(fs, prefix), c, c),
    decreases fs.len(),
{
    reveal_strlit("flag '");
    if fs.len() > 0 {
        lemma_flags_leads(fs.drop_last(), prefix, c);
        let f = fs.last()@;
        let x1 = "flag '"@ + f + "' is forbidden (read-only security model)"@;
        let x2 = "flag '"@ + f + "' is not a known Intent.FLAG_* name"@;
        lemma_lead("flag '"@, f, 'f');
        lemma_lead("flag '"@ + f, "' is forbidden (read-only security model)"@, 'f');
        lemma_lead("flag '"@ + f, "' is not a known Intent.FLAG_* name"@, 'f');
        if prefix.len() > 0 {
            lemma_lead(prefix, x1, c);
            lemma_lead(prefix, x2, c);
        } else {
            assert(prefix + x1 =~= x1);
            assert(prefix + x2 =~= x2);
        }
        lemma_leads_concat(flags_checks(fs.drop_last(), prefix), flag_check(f, prefix), c, c);
    }
}

proof fn lemma_override_extras_leads(es: Seq<Extra>, prefix: Seq<char>, c: char)
    requires
        prefix.len() > 0,
        prefix[0] == c,
    ensures
        leads(override_extras_checks(es, prefix), c, c),
    decreases es.len(),
{
    if es.len() > 0 {
        lemma_override_extras_leads(es.drop_last(), prefix, c);
        lemma_placeholder_leads(placeholders(es.last().value@), prefix, es.last().name@, Seq::empty(), false, c);
        lemma_leads_concat(
            override_extras_checks(es.drop_last(), prefix),
            placeholder_checks(placeholders(es.last().value@), prefix, es.last().name@, Seq::empty(), false),
            c,
            c,
        );
    }
}

proof fn lemma_overrides_leads(ps: Seq<(String, PerSystemOverride)>, known: Seq<Seq<char>>)
    ensures
        leads(overrides_checks(ps, known), 'p', 'p'),
    decreases ps.len(),
{
    reveal_strlit("per_system key '");
    reveal_strlit("per_system.");
    if ps.len() > 0 {
        lemma_overrides_leads(ps.drop_last(), known);
        let slug = ps.last().0@;
        let o = ps.last().1;
        lemma_lead("per_system key '"@, slug, 'p');
        lemma_lead("per_system key '"@ + slug, "' is not a known system slug"@, 'p');
        lemma_lead("per_system."@, slug, 'p');
        lemma_lead("per_system."@ + slug, " "@, 'p');
        let u: Seq<Seq<char>> = if !known.contains(slug) {
            seq![m_unknown_key(slug)]
        } else {
            Seq::empty()
        };
        lemma_override_extras_leads(o.extras@, system_prefix(slug), 'p');
        lemma_flags_leads(o.flags@, system_prefix(slug), 'p');
        lemma_leads_concat(u, override_extras_checks(o.extras@, system_prefix(slug)), 'p', 'p');
        lemma_leads_concat(u + override_extras_checks(o.extras@, system_prefix(slug)), flags_checks(o.flags@, system_prefix(slug)), 'p', 'p');
        lemma_leads_concat(overrides_checks(ps.drop_last(), known), override_check(slug, o, known), 'p', 'p');
    }
}

proof fn lemma_none_mode_leads(es: Seq<Extra>)
    ensures
        leads(none_mode_checks(es), 'd', 'd'),
    decreases es.len(),
{
    reveal_strlit("data_mode = \"none\" but extra '");
    if es.len() > 0 {
        lemma_none_mode_leads(es.drop_last());
        let n = es.last().name@;
        lemma_lead("data_mode = \"none\" but extra '"@, n, 'd');
        lemma_lead("data_mode = \"none\" but extra '"@ + n, "' references {rom_uri}"@, 'd');
        let last: Seq<Seq<char>> = if contains_seq(es.last().value@, "{rom_uri}"@) {
            seq![m_none_rom(n)]
        } else {
            Seq::empty()
        };
        lemma_leads_concat(none_mode_checks(es.drop_last()), last, 'd', 'd');
    }
}

proof fn lemma_data_mode_leads(t: IntentTemplate)
    ensures
        leads(data_mode_check(t), 'd', 'd'),
{
    reveal_strlit("data_mode = \"extra\" requires a non-empty data_extra_name");
    reveal_strlit("data_mode = \"extra\" names data_extra_name '");
    lemma_none_mode_leads(t.extras@);
    if let Some(n) = t.data_extra_name {
        lemma_lead("data_mode = \"extra\" names data_extra_name '"@, n@, 'd');
        lemma_lead("data_mode = \"extra\" names data_extra_name '"@ + n@, "', but no [[extras]] entry has name = '"@, 'd');
        lemma_lead("data_mode = \"extra\" names data_extra_name '"@ + n@ + "', but no [[extras]] entry has name = '"@, n@, 'd');
        lemma_lead("data_mode = \"extra\" names data_extra_name '"@ + n@ + "', but no [[extras]] entry has name = '"@ + n@, "' and value = \"{rom_uri}\""@, 'd');
    }
}

proof fn lemma_unknown_systems_leads(ss: Seq<String>, known: Seq<Seq<char>>)
    ensures
        leads(unknown_systems_checks(ss, known), 's', 's'),
    decreases ss.len(),
{
    reveal_strlit("systems entry '");
    if ss.len() > 0 {
        lemma_unknown_systems_leads(ss.drop_last(), known);
        let x = ss.last()@;
        lemma_lead("systems entry '"@, x, 's');
        lemma_lead("systems entry '"@ + x, "' is not a known system slug"@, 's');
        let last: Seq<Seq<char>> = if !known.contains(x) {
            seq!["systems entry '"@ + x + "' is not a known system slug"@]
        } else {
            Seq::empty()
        };
        lemma_leads_concat(unknown_systems_checks(ss.drop_last(), known), last, 's', 's');
    }
}

proof fn lemma_systems_leads(t: IntentTemplate, known: Seq<Seq<char>>)
    ensures
        leads(systems_check(t, known), 's', 's'),
{
    reveal_strlit("systems must not be empty");
    reveal_strlit("systems: '*' must be the only entry, not mixed with slugs");
    lemma_unknown_systems_leads(t.systems@, known);
}

/// The head of the findings: the id, component and action rules.
pub open spec fn head_findings(t: IntentTemplate, stem: Seq<char>) -> Seq<Seq<char>> {
    (if t.id@ != stem {
        seq!["id '"@ + t.id@ + "' does not match filename stem '"@ + stem + "'"@]
    } else {
        Seq::empty()
    }) + component_check("package"@, t.package@) + component_check("activity"@, t.activity@) + (
    if !starts_with(t.action@, "android.intent.action."@) {
        seq!["action '"@ + t.action@ + "' must start with 'android.intent.action.'"@]
    } else {
        Seq::empty()
    })
}

proof fn lemma_head_leads(t: IntentTemplate, stem: Seq<char>)
    ensures
        forall|k: int| 0 <= k < head_findings(t, stem).len() ==> (#[trigger] head_findings(t, stem)[k]).len() > 0
            && (head_findings(t, stem)[k][0] == 'i' || head_findings(t, stem)[k][0] == 'p'
            || head_findings(t, stem)[k][0] == 'a'),
{
    reveal_strlit("id '");
    reveal_strlit("package");
    reveal_strlit("activity");
    reveal_strlit("action '");
    lemma_lead("id '"@, t.id@, 'i');
    lemma_lead("id '"@ + t.id@, "' does not match filename stem '"@, 'i');
    lemma_lead("id '"@ + t.id@ + "' does not match filename stem '"@, stem, 'i');
    lemma_lead("id '"@ + t.id@ + "' does not match filename stem '"@ + stem, "'"@, 'i');
    lemma_lead("package"@, " '"@, 'p');
    lemma_lead("package"@ + " '"@, t.package@, 'p');
    lemma_lead("package"@ + " '"@ + t.package@, "' must be a non-empty, dotted, space-free component name"@, 'p');
    lemma_lead("activity"@, " '"@, 'a');
    lemma_lead("activity"@ + " '"@, t.activity@, 'a');
    lemma_lead("activity"@ + " '"@ + t.activity@, "' must be a non-empty, dotted, space-free component name"@, 'a');
    lemma_lead("action '"@, t.action@, 'a');
    lemma_lead("action '"@ + t.action@, "' must start with 'android.intent.action.'"@, 'a');
    let h = head_findings(t, stem);
    assert forall|k: int| 0 <= k < h.len() implies (#[trigger] h[k]).len() > 0 && (h[k][0] == 'i' || h[k][0]
        == 'p' || h[k][0] == 'a') by {
        let a0: Seq<Seq<char>> = if t.id@ != stem {
            seq!["id '"@ + t.id@ + "' does not match filename stem '"@ + stem + "'"@]
        } else {
            Seq::empty()
        };
        let c1 = component_check("package"@, t.package@);
        let c2 = component_check("activity"@, t.activity@);
        let a3: Seq<Seq<char>> = if !starts_with(t.action@, "android.intent.action."@) {
            seq!["action '"@ + t.action@ + "' must start with 'android.intent.action.'"@]
        } else {
            Seq::empty()
        };
        assert(h == a0 + c1 + c2 + a3);
        if k < a0.len() {
            assert(h[k] == a0[k]);
        } else if k < a0.len() + c1.len() {
            assert(h[k] == c1[k - a0.len()]);
        } else if k < a0.len() + c1.len() + c2.len() {
            assert(h[k] == c2[k - a0.len() - c1.len()]);
        } else {
            assert(h[k] == a3[k - a0.len() - c1.len() - c2.len()]);
        }
    }
}

/// A finding of the whole template comes from one of the rules.
proof fn lemma_validate_parts(t: IntentTemplate, stem: Seq<char>, known: Seq<Seq<char>>, x: Seq<char>)
    requires
        validate_spec(t, stem, known).contains(x),
    ensures
        head_findings(t, stem).contains(x) || data_mode_check(t).contains(x) || extras_checks(t.extras@, t.id@).contains(x)
            || flags_checks(t.flags@, Seq::empty()).contains(x) || overrides_checks(t.per_system@, known).contains(x)
            || systems_check(t, known).contains(x),
{
    let h = head_findings(t, stem);
    let d = data_mode_check(t);
    let e = extras_checks(t.extras@, t.id@);
    let f = flags_checks(t.flags@, Seq::empty());
    let o = overrides_checks(t.per_system@, known);
    let y = systems_check(t, known);
    assert(validate_spec(t, stem, known) =~= h + d + e + f + o + y);
    lemma_in_concat(h + d + e + f + o, y, x);
    if (h + d + e + f + o).contains(x) {
        lemma_in_concat(h + d + e + f, o, x);
        if (h + d + e + f).contains(x) {
            lemma_in_concat(h + d + e, f, x);
            if (h + d + e).contains(x) {
                lemma_in_concat(h + d, e, x);
                if (h + d).contains(x) {
                    lemma_in_concat(h, d, x);
                }
            }
        }
    }
}

/// A finding that starts with `f` comes from the template's own flags.
proof fn lemma_f_findings(t: IntentTemplate, stem: Seq<char>, known: Seq<Seq<char>>, x: Seq<char>)
    requires
        validate_spec(t, stem, known).contains(x),
        x.len() > 0,
        x[0] == 'f',
    ensures
        flags_checks(t.flags@, Seq::empty()).contains(x),
{
    lemma_validate_parts(t, stem, known, x);
    lemma_head_leads(t, stem);
    if head_findings(t, stem).contains(x) {
        let k = choose|k: int| 0 <= k < head_findings(t, stem).len() && head_findings(t, stem)[k] == x;
        assert(head_findings(t, stem)[k][0] != 'f');
    }
    lemma_data_mode_leads(t);
    lemma_not_in_leads(data_mode_check(t), x, 'd', 'd');
    lemma_extras_leads(t.extras@, t.id@);
    lemma_not_in_leads(extras_checks(t.extras@, t.id@), x, 'a', 'e');
    lemma_overrides_leads(t.per_system@, known);
    lemma_not_in_leads(overrides_checks(t.per_system@, known), x, 'p', 'p');
    lemma_systems_leads(t, known);
    lemma_not_in_leads(systems_check(t, known), x, 's', 's');
}

proof fn lemma_in_flags_checks_inv(fs: Seq<String>, x: Seq<char>)
    requires
        flags_checks(fs, Seq::empty()).contains(x),
    ensures
        exists|i: int| 0 <= i < fs.len() && (#[trigger] flag_check(fs[i]@, Seq::empty())).contains(x),
    decreases fs.len(),
{
    let p = fs.drop_last();
    lemma_in_concat(flags_checks(p, Seq::empty()), flag_check(fs.last()@, Seq::empty()), x);
    if flags_checks(p, Seq::empty()).contains(x) {
        lemma_in_flags_checks_inv(p, x);
        let i = choose|i: int| 0 <= i < p.len() && (#[trigger] flag_check(p[i]@, Seq::empty())).contains(x);
        assert(p[i] == fs[i]);
    } else {
        assert(flag_check(fs[fs.len() - 1]@, Seq::empty()).contains(x));
    }
}

proof fn lemma_flag_msgs(g: Seq<char>, f: Seq<char>)
    ensures
        m_forbidden(Seq::empty(), g) == m_forbidden(Seq::empty(), f) ==> g == f,
        m_unknown_flag(Seq::empty(), g) == m_unknown_flag(Seq::empty(), f) ==> g == f,
        m_forbidden(Seq::empty(), g) != m_unknown_flag(Seq::empty(), f),
{
    reveal_strlit("flag '");
    reveal_strlit("' is forbidden (read-only security model)");
    reveal_strlit("' is not a known Intent.FLAG_* name");
    let p = "flag '"@;
    let s1 = "' is forbidden (read-only security model)"@;
    let s2 = "' is not a known Intent.FLAG_* name"@;
    assert(Seq::<char>::empty() + (p + g + s1) =~= p + g + s1);
    assert(Seq::<char>::empty() + (p + f + s1) =~= p + f + s1);
    assert(Seq::<char>::empty() + (p + g + s2) =~= p + g + s2);
    assert(Seq::<char>::empty() + (p + f + s2) =~= p + f + s2);
    if p + g + s1 == p + f + s1 {
        assert(g.len() == f.len());
        assert forall|k: int| 0 <= k < g.len() implies g[k] == f[k] by {
            assert((p + g + s1)[6 + k] == g[k]);
            assert((p + f + s1)[6 + k] == f[k]);
        }
        assert(g =~= f);
    }
    if p + g + s2 == p + f + s2 {
        assert(g.len() == f.len());
        assert forall|k: int| 0 <= k < g.len() implies g[k] == f[k] by {
            assert((p + g + s2)[6 + k] == g[k]);
            assert((p + f + s2)[6 + k] == f[k]);
        }
        assert(g =~= f);
    }
    let a = p + g + s1;
    let b = p + f + s2;
    assert(a.last() == ')');
    assert(b.last() == 'e');
}

/// A flag finding names a flag of the template that breaks the rule it
/// states: a flag is reported forbidden exactly when the template has it
/// and it is the write-permission flag, and unknown exactly when the
/// template has it and it is neither forbidden nor a known
/// `Intent.FLAG_*` name; so a known flag is never reported.
pub proof fn law_flag_findings_iff(t: IntentTemplate, stem: Seq<char>, known: Seq<Seq<char>>, f: Seq<char>)
    ensures
        validate_spec(t, stem, known).contains(m_forbidden(Seq::empty(), f)) == (strings_view(t.flags@).contains(f)
            && forbidden_flag(f)),
        validate_spec(t, stem, known).contains(m_unknown_flag(Seq::empty(), f)) == (strings_view(t.flags@).contains(f)
            && !forbidden_flag(f) && !known_flag(f)),
{
    reveal_strlit("flag '");
    let x1 = m_forbidden(Seq::empty(), f);
    let x2 = m_unknown_flag(Seq::empty(), f);
    lemma_lead("flag '"@, f, 'f');
    lemma_lead("flag '"@ + f, "' is forbidden (read-only security model)"@, 'f');
    lemma_lead("flag '"@ + f, "' is not a known Intent.FLAG_* name"@, 'f');
    assert(Seq::<char>::empty() + ("flag '"@ + f + "' is forbidden (read-only security model)"@) =~= "flag '"@ + f
        + "' is forbidden (read-only security model)"@);
    assert(Seq::<char>::empty() + ("flag '"@ + f + "' is not a known Intent.FLAG_* name"@) =~= "flag '"@ + f
        + "' is not a known Intent.FLAG_* name"@);
    let v = validate_spec(t, stem, known);
    if v.contains(x1) {
        lemma_f_findings(t, stem, known, x1);
        lemma_in_flags_checks_inv(t.flags@, x1);
        let i = choose|i: int| 0 <= i < t.flags@.len() && (#[trigger] flag_check(t.flags@[i]@, Seq::empty())).contains(x1);
        let g = t.flags@[i]@;
        lemma_flag_msgs(g, f);
        lemma_flag_msgs(f, g);
        assert(strings_view(t.flags@)[i] == g);
    }
    if strings_view(t.flags@).contains(f) && forbidden_flag(f) {
        let i = choose|i: int| 0 <= i < strings_view(t.flags@).len() && strings_view(t.flags@)[i] == f;
        law_flags_are_checked(t, stem, known, i);
    }
    if v.contains(x2) {
        lemma_f_findings(t, stem, known, x2);
        lemma_in_flags_checks_inv(t.flags@, x2);
        let i = choose|i: int| 0 <= i < t.flags@.len() && (#[trigger] flag_check(t.flags@[i]@, Seq::empty())).contains(x2);
        let g = t.flags@[i]@;
        lemma_flag_msgs(g, f);
        lemma_flag_msgs(f, g);
        assert(strings_view(t.flags@)[i] == g);
    }
    if strings_view(t.flags@).contains(f) && !forbidden_flag(f) && !known_flag(f) {
        let i = choose|i: int| 0 <= i < strings_view(t.flags@).len() && strings_view(t.flags@)[i] == f;
        law_flags_are_checked(t, stem, known, i);
    }
}

/// A finding that starts with `c`, and with none of the leads of the other
/// rules, comes from the rule of that lead.
proof fn lemma_lead_findings(t: IntentTemplate, stem: Seq<char>, known: Seq<Seq<char>>, x: Seq<char>)
    requires
        validate_spec(t, stem, known).contains(x),
        x.len() > 0,
    ensures
        x[0] == 's' ==> systems_check(t, known).contains(x),
        x[0] == 'd' ==> data_mode_check(t).contains(x),
{
    lemma_validate_parts(t, stem, known, x);
    lemma_head_leads(t, stem);
    if head_findings(t, stem).contains(x) {
        let k = choose|k: int| 0 <= k < head_findings(t, stem).len() && head_findings(t, stem)[k] == x;
        assert(head_findings(t, stem)[k][0] != 's' && head_findings(t, stem)[k][0] != 'd');
    }
    lemma_data_mode_leads(t);
    lemma_extras_leads(t.extras@, t.id@);
    lemma_flags_leads(t.flags@, Seq::empty(), 'f');
    lemma_overrides_leads(t.per_system@, known);
    lemma_systems_leads(t, known);
    if x[0] == 's' {
        lemma_not_in_leads(data_mode_check(t), x, 'd', 'd');
        lemma_not_in_leads(extras_checks(t.extras@, t.id@), x, 'a', 'e');
        lemma_not_in_leads(flags_checks(t.flags@, Seq::empty()), x, 'f', 'f');
        lemma_not_in_leads(overrides_checks(t.per_system@, known), x, 'p', 'p');
    }
    if x[0] == 'd' {
        lemma_not_in_leads(systems_check(t, known), x, 's', 's');
        lemma_not_in_leads(extras_checks(t.extras@, t.id@), x, 'a', 'e');
        lemma_not_in_leads(flags_checks(t.flags@, Seq::empty()), x, 'f', 'f');
        lemma_not_in_leads(overrides_checks(t.per_system@, known), x, 'p', 'p');
    }
}

/// The finding on a system slug that is not known.
pub open spec fn m_unknown_system(s: Seq<char>) -> Seq<char> {
    "systems entry '"@ + s + "' is not a known system slug"@
}

proof fn lemma_system_msgs(a: Seq<char>, b: Seq<char>)
    ensures
        m_unknown_system(a) == m_unknown_system(b) ==> a == b,
        m_unknown_system(a) != "systems must not be empty"@,
        m_unknown_system(a) != "systems: '*' must be the only entry, not mixed with slugs"@,
        "systems must not be empty"@ != "systems: '*' must be the only entry, not mixed with slugs"@,
        m_unknown_system(a).len() > 0 && m_unknown_system(a)[0] == 's',
{
    reveal_strlit("systems entry '");
    reveal_strlit("' is not a known system slug");
    reveal_strlit("systems must not be empty");
    reveal_strlit("systems: '*' must be the only entry, not mixed with slugs");
    let p = "systems entry '"@;
    let q = "' is not a known system slug"@;
    if p + a + q == p + b + q {
        assert((p + a + q).len() == p.len() + a.len() + q.len());
        assert((p + b + q).len() == p.len() + b.len() + q.len());
        assert(a.len() == b.len());
        assert forall|k: int| 0 <= k < a.len() implies a[k] == b[k] by {
            assert((p + a + q)[15 + k] == a[k]);
            assert((p + b + q)[15 + k] == b[k]);
        }
        assert(a =~= b);
    }
    assert((p + a + q)[8] == 'e');
    assert((p + a + q)[0] == 's');
    assert("systems must not be empty"@[8] == 'm');
    assert("systems: '*' must be the only entry, not mixed with slugs"@[7] == ':');
    assert((p + a + q)[7] == ' ');
}

proof fn lemma_in_unknown_systems_inv(ss: Seq<String>, known: Seq<Seq<char>>, x: Seq<char>)
    requires
        unknown_systems_checks(ss, known).contains(x),
    ensures
        exists|i: int| 0 <= i < ss.len() && !known.contains(ss[i]@) && x == m_unknown_system(#[trigger] ss[i]@),
    decreases ss.len(),
{
    let p = ss.drop_last();
    let last: Seq<Seq<char>> = if !known.contains(ss.last()@) {
        seq![m_unknown_system(ss.last()@)]
    } else {
        Seq::empty()
    };
    assert(unknown_systems_checks(ss, known) == unknown_systems_checks(p, known) + last);
    lemma_in_concat(unknown_systems_checks(p, known), last, x);
    if unknown_systems_checks(p, known).contains(x) {
        lemma_in_unknown_systems_inv(p, known, x);
        let i = choose|i: int| 0 <= i < p.len() && !known.contains(p[i]@) && x == m_unknown_system(#[trigger] p[i]@);
        assert(p[i] == ss[i]);
    } else {
        assert(last[0] == x);
        assert(ss.last() == ss[ss.len() - 1]);
    }
}

/// The systems findings are exactly these: "must not be empty" when there
/// are none; the `*` finding when `*` is mixed with other entries; and,
/// without `*`, one finding per entry that is not a known slug (never one
/// for a known slug, and none at all when `*` is there).
pub proof fn law_systems_findings_iff(t: IntentTemplate, stem: Seq<char>, known: Seq<Seq<char>>, s: Seq<char>)
    ensures
        validate_spec(t, stem, known).contains("systems must not be empty"@) == (t.systems@.len() == 0),
        validate_spec(t, stem, known).contains("systems: '*' must be the only entry, not mixed with slugs"@) == (
        strings_view(t.systems@).contains("*"@) && t.systems@.len() > 1),
        validate_spec(t, stem, known).contains(m_unknown_system(s)) == (!strings_view(t.systems@).contains("*"@)
            && strings_view(t.systems@).contains(s) && !known.contains(s)),
{
    let v = validate_spec(t, stem, known);
    let e = "systems must not be empty"@;
    let m = "systems: '*' must be the only entry, not mixed with slugs"@;
    let u = m_unknown_system(s);
    reveal_strlit("systems must not be empty");
    reveal_strlit("systems: '*' must be the only entry, not mixed with slugs");
    lemma_system_msgs(s, s);
    assert(e[0] == 's' && m[0] == 's');
    law_systems_are_checked(t, stem, known);
    let y = systems_check(t, known);
    if v.contains(e) {
        lemma_lead_findings(t, stem, known, e);
        if t.systems@.len() > 0 {
            if strings_view(t.systems@).contains("*"@) {
                if y.contains(e) {
                    assert(y[0] == e);
                }
            } else {
                lemma_in_unknown_systems_inv(t.systems@, known, e);
                let i = choose|i: int| 0 <= i < t.systems@.len() && !known.contains(t.systems@[i]@) && e
                    == m_unknown_system(#[trigger] t.systems@[i]@);
                lemma_system_msgs(t.systems@[i]@, s);
            }
        }
    }
    if v.contains(m) {
        lemma_lead_findings(t, stem, known, m);
        if t.systems@.len() == 0 {
            assert(y[0] == m);
        } else if !strings_view(t.systems@).contains("*"@) {
            lemma_in_unknown_systems_inv(t.systems@, known, m);
            let i = choose|i: int| 0 <= i < t.systems@.len() && !known.contains(t.systems@[i]@) && m
                == m_unknown_system(#[trigger] t.systems@[i]@);
            lemma_system_msgs(t.systems@[i]@, s);
        }
    }
    if v.contains(u) {
        lemma_lead_findings(t, stem, known, u);
        if t.systems@.len() == 0 {
            assert(y[0] == u);
        } else if strings_view(t.systems@).contains("*"@) {
            if y.contains(u) {
                assert(y[0] == u);
            }
        } else {
            lemma_in_unknown_systems_inv(t.systems@, known, u);
            let i = choose|i: int| 0 <= i < t.systems@.len() && !known.contains(t.systems@[i]@) && u
                == m_unknown_system(#[trigger] t.systems@[i]@);
            lemma_system_msgs(t.systems@[i]@, s);
            assert(strings_view(t.systems@)[i] == s);
        }
    }
    if !strings_view(t.systems@).contains("*"@) && strings_view(t.systems@).contains(s) && !known.contains(s) {
        let i = choose|i: int| 0 <= i < strings_view(t.systems@).len() && strings_view(t.systems@)[i] == s;
        assert(t.systems@[i]@ == s);
    }
}

/// With `extra` mode and a non-empty extra name, the missing-extra
/// finding comes exactly when no extra of that name carries `{rom_uri}`.
pub proof fn law_data_extra_iff(t: IntentTemplate, stem: Seq<char>, known: Seq<Seq<char>>, n: Seq<char>)
    requires
        t.data_mode == DataMode::Extra,
        t.data_extra_name matches Some(x) && x@ == n,
        n.len() > 0,
    ensures
        validate_spec(t, stem, known).contains(m_no_rom(n)) == !carries_rom(t.extras@, n),
{
    law_data_mode_is_checked(t, stem, known);
    reveal_strlit("data_mode = \"extra\" names data_extra_name '");
    lemma_lead("data_mode = \"extra\" names data_extra_name '"@, n, 'd');
    lemma_lead("data_mode = \"extra\" names data_extra_name '"@ + n, "', but no [[extras]] entry has name = '"@, 'd');
    lemma_lead("data_mode = \"extra\" names data_extra_name '"@ + n + "', but no [[extras]] entry has name = '"@, n, 'd');
    lemma_lead("data_mode = \"extra\" names data_extra_name '"@ + n + "', but no [[extras]] entry has name = '"@ + n, "' and value = \"{rom_uri}\""@, 'd');
    if carries_rom(t.extras@, n) && validate_spec(t, stem, known).contains(m_no_rom(n)) {
        lemma_lead_findings(t, stem, known, m_no_rom(n));
        assert(data_mode_check(t) =~= Seq::<Seq<char>>::empty());
    }
}

proof fn lemma_clean_placeholders(ps: Seq<Seq<char>>, prefix: Seq<char>, name: Seq<char>)
    requires
        forall|k: int| 0 <= k < ps.len() ==> known_placeholder(#[trigger] ps[k]),
    ensures
        placeholder_checks(ps, prefix, name, Seq::empty(), false) == Seq::<Seq<char>>::empty(),
    decreases ps.len(),
{
    if ps.len() > 0 {
        let p = ps.drop_last();
        assert forall|k: int| 0 <= k < p.len() implies known_placeholder(#[trigger] p[k]) by {
            assert(p[k] == ps[k]);
        }
        lemma_clean_placeholders(p, prefix, name);
        assert(known_placeholder(ps[ps.len() - 1]));
        assert(placeholder_check(ps.last(), prefix, name, Seq::empty(), false) =~= Seq::<Seq<char>>::empty());
        assert(placeholder_checks(ps, prefix, name, Seq::empty(), false) =~= Seq::<Seq<char>>::empty());
    }
}

proof fn lemma_clean_override_extras(es: Seq<Extra>, prefix: Seq<char>)
    requires
        forall|k: int, j: int|
            0 <= k < es.len() && 0 <= j < placeholders(es[k].value@).len() ==> known_placeholder(
                #[trigger] placeholders(es[k].value@)[j],
            ),
    ensures
        override_extras_checks(es, prefix) == Seq::<Seq<char>>::empty(),
    decreases es.len(),
{
    if es.len() > 0 {
        let p = es.drop_last();
        assert forall|k: int, j: int|
            0 <= k < p.len() && 0 <= j < placeholders(p[k].value@).len() implies known_placeholder(
            #[trigger] placeholders(p[k].value@)[j],
        ) by {
            assert(p[k] == es[k]);
        }
        lemma_clean_override_extras(p, prefix);
        let l = es.last();
        assert forall|j: int| 0 <= j < placeholders(l.value@).len() implies known_placeholder(
            #[trigger] placeholders(l.value@)[j],
        ) by {
            assert(l == es[es.len() - 1]);
        }
        lemma_clean_placeholders(placeholders(l.value@), prefix, l.name@);
        assert(override_extras_checks(es, prefix) =~= Seq::<Seq<char>>::empty());
    }
}

proof fn lemma_clean_flags(fs: Seq<String>, prefix: Seq<char>)
    requires
        forall|k: int| 0 <= k < fs.len() ==> known_flag((#[trigger] fs[k])@),
    ensures
        flags_checks(fs, prefix) == Seq::<Seq<char>>::empty(),
    decreases fs.len(),
{
    reveal_strlit("FLAG_GRANT_WRITE_URI_PERMISSION");
    reveal_strlit("FLAG_GRANT_READ_URI_PERMISSION");
    reveal_strlit("FLAG_ACTIVITY_NEW_TASK");
    reveal_strlit("FLAG_ACTIVITY_CLEAR_TOP");
    reveal_strlit("FLAG_ACTIVITY_SINGLE_TOP");
    reveal_strlit("FLAG_ACTIVITY_NO_HISTORY");
    reveal_strlit("FLAG_ACTIVITY_EXCLUDE_FROM_RECENTS");
    if fs.len() > 0 {
        let p = fs.drop_last();
        assert forall|k: int| 0 <= k < p.len() implies known_flag((#[trigger] p[k])@) by {
            assert(p[k] == fs[k]);
        }
        lemma_clean_flags(p, prefix);
        let f = fs.last()@;
        assert(known_flag(fs[fs.len() - 1]@));
        assert("FLAG_GRANT_WRITE_URI_PERMISSION"@.len() != "FLAG_GRANT_READ_URI_PERMISSION"@.len());
        assert("FLAG_GRANT_WRITE_URI_PERMISSION"@.len() != "FLAG_ACTIVITY_NEW_TASK"@.len());
        assert("FLAG_GRANT_WRITE_URI_PERMISSION"@.len() != "FLAG_ACTIVITY_CLEAR_TOP"@.len());
        assert("FLAG_GRANT_WRITE_URI_PERMISSION"@.len() != "FLAG_ACTIVITY_SINGLE_TOP"@.len());
        assert("FLAG_GRANT_WRITE_URI_PERMISSION"@.len() != "FLAG_ACTIVITY_NO_HISTORY"@.len());
        assert("FLAG_GRANT_WRITE_URI_PERMISSION"@.len() != "FLAG_ACTIVITY_EXCLUDE_FROM_RECENTS"@.len());
        assert(!forbidden_flag(f));
        assert(flags_checks(fs, prefix) =~= Seq::<Seq<char>>::empty());
    }
}

/// A per-system override adds no finding when its slug is known, every
/// placeholder its extras reference is known, and every flag it sets is a
/// known (so not forbidden) flag.
pub proof fn law_clean_override_adds_nothing(slug: Seq<char>, o: PerSystemOverride, known: Seq<Seq<char>>)
    requires
        known.contains(slug),
        forall|k: int, j: int|
            0 <= k < o.extras@.len() && 0 <= j < placeholders(o.extras@[k].value@).len() ==> known_placeholder(
                #[trigger] placeholders(o.extras@[k].value@)[j],
            ),
        forall|k: int| 0 <= k < o.flags@.len() ==> known_flag((#[trigger] o.flags@[k])@),
    ensures
        override_check(slug, o, known) == Seq::<Seq<char>>::empty(),
{
    lemma_clean_override_extras(o.extras@, system_prefix(slug));
    lemma_clean_flags(o.flags@, system_prefix(slug));
    assert(override_check(slug, o, known) =~= Seq::<Seq<char>>::empty());
}

/// With `*` among the systems, no finding is about a systems entry.
pub proof fn law_star_systems_have_no_entry_findings(t: IntentTemplate, stem: Seq<char>, known: Seq<Seq<char>>, x: Seq<char>)
    requires
        strings_view(t.systems@).contains("*"@),
        validate_spec(t, stem, known).contains(x),
    ensures
        !starts_with(x, "systems entry '"@),
{
    reveal_strlit("systems entry '");
    reveal_strlit("systems: '*' must be the only entry, not mixed with slugs");
    if starts_with(x, "systems entry '"@) {
        assert(x.take(15)[0] == x[0]);
        assert(x[0] == 's');
        lemma_lead_findings(t, stem, known, x);
        let y = systems_check(t, known);
        assert(t.systems@.len() > 0);
        assert(y.contains(x));
        assert(y[0] == x);
        assert(x == "systems: '*' must be the only entry, not mixed with slugs"@);
        assert(x.take(15)[7] == x[7]);
    }
}

/// A finding about how the ROM reaches the activity.
pub open spec fn rom_finding(x: Seq<char>) -> bool {
    x.len() > 0 && x[0] == 'd'
}

/// The number of extras whose value references `{rom_uri}`.
pub open spec fn rom_uri_extras(es: Seq<Extra>) -> nat
    decreases es.len(),
{
    if es.len() == 0 {
        0
    } else {
        rom_uri_extras(es.drop_last()) + if contains_seq(es.last().value@, "{rom_uri}"@) {
            1nat
        } else {
            0nat
        }
    }
}

proof fn lemma_filter_all(v: Seq<Seq<char>>)
    requires
        leads(v, 'd', 'd'),
    ensures
        v.filter(|x: Seq<char>| rom_finding(x)) == v,
    decreases v.len(),
{
    reveal_with_fuel(Seq::filter, 1);
    if v.len() > 0 {
        let p = v.drop_last();
        assert forall|k: int| 0 <= k < p.len() implies (#[trigger] p[k]).len() > 0 && (p[k][0] == 'd' || p[k][0] == 'd') by {
            assert(p[k] == v[k]);
        }
        lemma_filter_all(p);
        assert(v[v.len() - 1] == v.last());
        assert(p.push(v.last()) =~= v);
    }
}

proof fn lemma_filter_none(v: Seq<Seq<char>>, c1: char, c2: char)
    requires
        leads(v, c1, c2),
        c1 != 'd',
        c2 != 'd',
    ensures
        v.filter(|x: Seq<char>| rom_finding(x)) == Seq::<Seq<char>>::empty(),
    decreases v.len(),
{
    reveal_with_fuel(Seq::filter, 1);
    if v.len() > 0 {
        let p = v.drop_last();
        assert forall|k: int| 0 <= k < p.len() implies (#[trigger] p[k]).len() > 0 && (p[k][0] == c1 || p[k][0] == c2) by {
            assert(p[k] == v[k]);
        }
        lemma_filter_none(p, c1, c2);
        assert(v[v.len() - 1] == v.last());
    }
}

proof fn lemma_none_mode_count(es: Seq<Extra>)
    ensures
        none_mode_checks(es).len() == rom_uri_extras(es),
    decreases es.len(),
{
    if es.len() > 0 {
        lemma_none_mode_count(es.drop_last());
    }
}

/// With `none` mode, the findings on how the ROM reaches the activity are
/// exactly one per extra whose value references `{rom_uri}`, naming that
/// extra, in extra order, and nothing else.
pub proof fn law_none_mode_one_finding_per_rom_extra(t: IntentTemplate, stem: Seq<char>, known: Seq<Seq<char>>)
    requires
        t.data_mode == DataMode::NoData,
    ensures
        validate_spec(t, stem, known).filter(|x: Seq<char>| rom_finding(x)) == none_mode_checks(t.extras@),
        none_mode_checks(t.extras@).len() == rom_uri_extras(t.extras@),
{
    let h = head_findings(t, stem);
    let d = data_mode_check(t);
    let e = extras_checks(t.extras@, t.id@);
    let f = flags_checks(t.flags@, Seq::empty());
    let o = overrides_checks(t.per_system@, known);
    let y = systems_check(t, known);
    let pred = |x: Seq<char>| rom_finding(x);
    assert(validate_spec(t, stem, known) =~= h + d + e + f + o + y);
    lemma_head_leads(t, stem);
    assert(h.filter(pred) == Seq::<Seq<char>>::empty()) by {
        lemma_filter_head(h);
    }
    lemma_data_mode_leads(t);
    lemma_filter_all(d);
    lemma_extras_leads(t.extras@, t.id@);
    lemma_filter_none(e, 'a', 'e');
    lemma_flags_leads(t.flags@, Seq::empty(), 'f');
    lemma_filter_none(f, 'f', 'f');
    lemma_overrides_leads(t.per_system@, known);
    lemma_filter_none(o, 'p', 'p');
    lemma_systems_leads(t, known);
    lemma_filter_none(y, 's', 's');
    Seq::filter_distributes_over_add(h, d, pred);
    Seq::filter_distributes_over_add(h + d, e, pred);
    Seq::filter_distributes_over_add(h + d + e, f, pred);
    Seq::filter_distributes_over_add(h + d + e + f, o, pred);
    Seq::filter_distributes_over_add(h + d + e + f + o, y, pred);
    assert(Seq::<Seq<char>>::empty() + d =~= d);
    assert(d + Seq::<Seq<char>>::empty() =~= d);
    lemma_none_mode_count(t.extras@);
}

proof fn lemma_filter_head(h: Seq<Seq<char>>)
    requires
        forall|k: int| 0 <= k < h.len() ==> (#[trigger] h[k]).len() > 0 && (h[k][0] == 'i' || h[k][0] == 'p'
            || h[k][0] == 'a'),
    ensures
        h.filter(|x: Seq<char>| rom_finding(x)) == Seq::<Seq<char>>::empty(),
    decreases h.len(),
{
    reveal_with_fuel(Seq::filter, 1);
    if h.len() > 0 {
        let p = h.drop_last();
        assert forall|k: int| 0 <= k < p.len() implies (#[trigger] p[k]).len() > 0 && (p[k][0] == 'i' || p[k][0]
            == 'p' || p[k][0] == 'a') by {
            assert(p[k] == h[k]);
        }
        lemma_filter_head(p);
        assert(h[h.len() - 1] == h.last());
    }
}

/// Doubled braces are literal braces: `{{` reads as `{` and `}}` as `}`,
/// and substitution goes on after them.
pub proof fn law_doubled_braces_are_literal(rest: Seq<char>, ctx: LaunchContext)
    ensures
        subst_value(seq!['{', '{'] + rest, ctx) == seq!['{'] + subst_value(rest, ctx),
        subst_value(seq!['}', '}'] + rest, ctx) == seq!['}'] + subst_value(rest, ctx),
{
    let a = seq!['{', '{'] + rest;
    let b = seq!['}', '}'] + rest;
    assert(a.take(2) =~= seq!['{', '{']);
    assert(a.skip(2) =~= rest);
    assert(b.take(2) =~= seq!['}', '}']);
    assert(b.skip(2) =~= rest);
    assert(!starts_with(b, seq!['{', '{'])) by {
        if starts_with(b, seq!['{', '{']) {
            assert(b.take(2)[0] == b[0]);
        }
    }
}

/// A `{name}` that is not one of the known placeholders is kept as
/// written, and substitution goes on after it.
pub proof fn law_unknown_placeholder_is_kept(name: Seq<char>, rest: Seq<char>, ctx: LaunchContext)
    requires
        !known_placeholder(name),
        name.len() > 0,
        name[0] != '{',
        !name.contains('}'),
    ensures
        subst_value(seq!['{'] + name + seq!['}'] + rest, ctx) == seq!['{'] + name + seq!['}'] + subst_value(
            rest,
            ctx,
        ),
{
    reveal_strlit("rom_uri");
    reveal_strlit("rom_path");
    reveal_strlit("core");
    let v = seq!['{'] + name + seq!['}'] + rest;
    assert(v[0] == '{');
    assert(v[1] == name[0]);
    assert(!starts_with(v, seq!['{', '{'])) by {
        if starts_with(v, seq!['{', '{']) {
            assert(v.take(2)[1] == v[1]);
        }
    }
    assert(!starts_with(v, seq!['}', '}'])) by {
        if starts_with(v, seq!['}', '}']) {
            assert(v.take(2)[0] == v[0]);
        }
    }
    let after = v.skip(1);
    assert forall|k: int| 0 <= k < name.len() implies after[k] != '}' by {
        assert(after[k] == name[k]);
        if name[k] == '}' {
            assert(name.contains('}'));
        }
    }
    assert(after[name.len() as int] == '}');
    crate::text::lemma_find_from_first(after, '}', 0, name.len() as int);
    assert(after.take(name.len() as int) =~= name);
    assert(after.skip(name.len() as int + 1) =~= rest);
    assert(placeholder_value(ctx, name) is None);
}

/// A `{` with no `}` after it is kept as written.
pub proof fn law_unclosed_brace_is_kept(rest: Seq<char>, ctx: LaunchContext)
    requires
        !rest.contains('}'),
        rest.len() == 0 || rest[0] != '{',
    ensures
        subst_value(seq!['{'] + rest, ctx) == seq!['{'] + subst_value(rest, ctx),
{
    let v = seq!['{'] + rest;
    assert(v.skip(1) =~= rest);
    assert(!starts_with(v, seq!['{', '{'])) by {
        if starts_with(v, seq!['{', '{']) {
            assert(v.take(2)[1] == v[1]);
            assert(v[1] == rest[0]);
        }
    }
    assert(!starts_with(v, seq!['}', '}'])) by {
        if starts_with(v, seq!['}', '}']) {
            assert(v.take(2)[0] == v[0]);
        }
    }
    crate::text::lemma_find_from_absent(rest, '}', 0);
}

} // verus!
