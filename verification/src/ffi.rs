//! The records the mobile bindings hand across the language boundary, the
//! listener that foreign code implements to follow a scan, and the free
//! functions that need no engine: theme colors and Android intents.

use vstd::prelude::*;

use crate::api::{GameRow, SystemRow};
use crate::events::Event;
use crate::intents::{
    applies_to, applies_to_spec, resolve, resolve_spec, DataMode, ExtraType, IntentTemplate,
    LaunchContext, ResolvedExtra,
};
use crate::metadata::dat::DatMatchStats;
use crate::scraper::pipeline::Confidence;
use crate::scraper::store::StoredMatch;
use crate::stats::GameStats;
use crate::text::{chars_eq, chars_of, opt_view, string_of, strings_view};
use crate::themes::resolve::{
    default_color, default_theme, law_per_key_fallback, resolve as resolve_theme, resolved_color,
    ColorKey, Variant,
};

verus! {

/// An error of the bindings: the engine's own, or a poisoned engine lock.
#[derive(Debug)]
pub enum RelicError {
    Engine { msg: String },
    Poisoned,
}

impl RelicError {
    /// The error's text.
    pub fn message(&self) -> (r: String)
        ensures
            match self {
                RelicError::Engine { msg } => r@ == msg@,
                RelicError::Poisoned => r@ == "engine lock poisoned"@,
            },
    {
        match self {
            RelicError::Engine { msg } => string_of(&chars_of(msg.as_str())),
            RelicError::Poisoned => string_of(&chars_of("engine lock poisoned")),
        }
    }
}

/// A system with its game count.
pub struct SystemInfo {
    pub id: i64,
    pub slug: String,
    pub name: String,
    pub game_count: i64,
}

/// The record for a system row.
pub fn system_info(row: SystemRow) -> (i: SystemInfo)
    ensures
        i.id == row.id,
        i.slug@ == row.slug@,
        i.name@ == row.name@,
        i.game_count == row.game_count,
{
    SystemInfo { id: row.id, slug: row.slug, name: row.name, game_count: row.game_count }
}

/// A game as listed.
pub struct GameInfo {
    pub id: i64,
    pub system_slug: String,
    pub name: String,
    pub favorite: bool,
    pub rel_path: Option<String>,
}

/// The record for a game row.
pub fn game_info(row: GameRow) -> (i: GameInfo)
    ensures
        i.id == row.id,
        i.system_slug@ == row.system_slug@,
        i.name@ == row.name@,
        i.favorite == row.favorite,
        opt_view(i.rel_path) == opt_view(row.rel_path),
{
    GameInfo {
        id: row.id,
        system_slug: row.system_slug,
        name: row.name,
        favorite: row.favorite,
        rel_path: row.rel_path,
    }
}

/// The counts of a scan.
pub struct ScanSummary {
    pub added: u64,
    pub removed: u64,
    pub unchanged: u64,
}

/// The record for a scan's counts.
pub fn scan_summary(s: crate::scan::ScanSummary) -> (r: ScanSummary)
    ensures
        r.added == s.added,
        r.removed == s.removed,
        r.unchanged == s.unchanged,
{
    ScanSummary { added: s.added, removed: s.removed, unchanged: s.unchanged }
}

/// A collection; `kind` is `"manual"` or `"smart"`.
pub struct CollectionInfo {
    pub id: i64,
    pub name: String,
    pub kind: String,
}

/// One game's play history.
pub struct GameStatsInfo {
    pub game_id: i64,
    pub name: String,
    pub system_slug: String,
    pub play_count: i64,
    pub total_seconds: i64,
    pub last_played_at: Option<i64>,
}

/// The record for a game's play history.
pub fn game_stats_info(s: GameStats) -> (r: GameStatsInfo)
    ensures
        r.game_id == s.game_id,
        r.name@ == s.name@,
        r.system_slug@ == s.system_slug@,
        r.play_count == s.play_count,
        r.total_seconds == s.total_seconds,
        r.last_played_at == s.last_played_at,
{
    GameStatsInfo {
        game_id: s.game_id,
        name: s.name,
        system_slug: s.system_slug,
        play_count: s.play_count,
        total_seconds: s.total_seconds,
        last_played_at: s.last_played_at,
    }
}

/// Sessions played and seconds spent, over the whole library.
pub struct PlayTotals {
    pub sessions: i64,
    pub total_seconds: i64,
}

/// The counts of a DAT import.
pub struct DatImportStats {
    pub matched: u64,
    pub unmatched: u64,
}

/// The record for a DAT import's counts.
pub fn dat_import_stats(s: DatMatchStats) -> (r: DatImportStats)
    ensures
        r.matched == s.matched,
        r.unmatched == s.unmatched,
{
    DatImportStats { matched: s.matched, unmatched: s.unmatched }
}

/// A scraper match waiting for the user; `confidence` as its text.
pub struct PendingMatchInfo {
    pub game_id: i64,
    pub provider_id: String,
    pub external_id: String,
    pub confidence: String,
}

/// The record for a stored match.
pub fn pending_match_info(m: StoredMatch) -> (r: PendingMatchInfo)
    ensures
        r.game_id == m.game_id,
        r.provider_id@ == m.provider_id@,
        r.external_id@ == m.external_id@,
        r.confidence@ == m.confidence.name(),
{
    let c = m.confidence.as_str();
    PendingMatchInfo {
        game_id: m.game_id,
        provider_id: m.provider_id,
        external_id: m.external_id,
        confidence: string_of(&chars_of(c)),
    }
}

/// Implemented by foreign code to follow the engine's work.
pub trait EventListener {
    fn on_scan_progress(&self, done: u64, total: u64);

    fn on_warning(&self, code: String, context: String);
}

/// Which listener method an event reaches, with its arguments.
#[derive(Debug, Clone, PartialEq, Eq)]
pub enum ListenerCall {
    ScanProgress { done: u64, total: u64 },
    Warning { code: String, context: String },
}

/// The listener call for `event`: scan progress and warnings reach the
/// listener; every other event is not forwarded.
pub fn listener_call(event: Event) -> (r: Option<ListenerCall>)
    ensures
        match event {
            Event::ScanProgress { done, total, .. } => r == Some(
                ListenerCall::ScanProgress { done, total },
            ),
            Event::Warning { code, context } => r matches Some(ListenerCall::Warning { code: c, context: x })
                && c@ == code@ && x@ == context@,
            _ => r is None,
        },
{
    match event {
        Event::ScanProgress { done, total, .. } => Some(ListenerCall::ScanProgress { done, total }),
        Event::Warning { code, context } => Some(ListenerCall::Warning { code, context }),
        _ => None,
    }
}

/// Hands `event` to `listener` when it is one the listener follows.
pub fn forward_event(listener: &dyn EventListener, event: Event) -> (r: Option<ListenerCall>)
    ensures
        match event {
            Event::ScanProgress { done, total, .. } => r == Some(
                ListenerCall::ScanProgress { done, total },
            ),
            Event::Warning { code, context } => r matches Some(ListenerCall::Warning { code: c, context: x })
                && c@ == code@ && x@ == context@,
            _ => r is None,
        },
{
    let call = listener_call(event);
    match &call {
        Some(ListenerCall::ScanProgress { done, total }) => listener.on_scan_progress(*done, *total),
        Some(ListenerCall::Warning { code, context }) => listener.on_warning(
            string_of(&chars_of(code.as_str())),
            string_of(&chars_of(context.as_str())),
        ),
        None => {},
    }
    call
}

/// The default theme's design tokens a mobile shell paints with.
pub struct ThemeColors {
    pub bg: String,
    pub surface: String,
    pub text: String,
    pub text_dim: String,
    pub accent: String,
    pub favorite: String,
    pub font_family: String,
    pub radius: i64,
}

/// The variant `dark` selects.
pub open spec fn variant_of(dark: bool) -> Variant {
    if dark {
        Variant::Dark
    } else {
        Variant::Light
    }
}

/// The bundled default theme resolved for the dark or the light variant.
pub fn theme_colors(dark: bool) -> (r: ThemeColors)
    ensures
        r.bg@ == default_color(variant_of(dark), ColorKey::Bg),
        r.surface@ == default_color(variant_of(dark), ColorKey::Surface),
        r.text@ == default_color(variant_of(dark), ColorKey::Text),
        r.text_dim@ == default_color(variant_of(dark), ColorKey::TextDim),
        r.accent@ == default_color(variant_of(dark), ColorKey::Accent),
        r.favorite@ == default_color(variant_of(dark), ColorKey::Favorite),
        r.font_family@ == "Inter"@,
        r.radius == 8,
{
    let variant = if dark {
        Variant::Dark
    } else {
        Variant::Light
    };
    let t = default_theme();
    let tokens = resolve_theme(Some(&t), variant);
    proof {
        let v = variant_of(dark);
        assert forall|k: ColorKey| resolved_color(Some(t), v, k) == #[trigger] default_color(v, k) by {
            law_per_key_fallback(t, v, k);
            crate::themes::resolve::lemma_default_color_normal(v, k);
        }
        assert(resolved_color(Some(t), v, ColorKey::Bg) == default_color(v, ColorKey::Bg));
        assert(resolved_color(Some(t), v, ColorKey::Surface) == default_color(v, ColorKey::Surface));
        assert(resolved_color(Some(t), v, ColorKey::Text) == default_color(v, ColorKey::Text));
        assert(resolved_color(Some(t), v, ColorKey::TextDim) == default_color(v, ColorKey::TextDim));
        assert(resolved_color(Some(t), v, ColorKey::Accent) == default_color(v, ColorKey::Accent));
        assert(resolved_color(Some(t), v, ColorKey::Favorite) == default_color(v, ColorKey::Favorite));
    }
    ThemeColors {
        bg: tokens.colors.bg,
        surface: tokens.colors.surface,
        text: tokens.colors.text,
        text_dim: tokens.colors.text_dim,
        accent: tokens.colors.accent,
        favorite: tokens.colors.favorite,
        font_family: tokens.font_family,
        radius: tokens.radius,
    }
}

/// An intent template a shell can offer for a system.
pub struct IntentTemplateInfo {
    pub id: String,
    pub display_name: String,
    pub package: String,
}

/// One resolved extra; `extra_type` as its text.
pub struct ResolvedExtraInfo {
    pub name: String,
    pub extra_type: String,
    pub value: String,
}

/// A resolved intent; `data_mode` as its text.
pub struct ResolvedIntentInfo {
    pub package: String,
    pub activity: String,
    pub action: String,
    pub data_mode: String,
    pub data_extra_name: Option<String>,
    pub data_mime_type: Option<String>,
    pub extras: Vec<ResolvedExtraInfo>,
    pub flags: Vec<String>,
}

/// How a data mode is written: `"data"`, `"extra"` or `"none"`.
pub open spec fn data_mode_text(m: DataMode) -> Seq<char> {
    match m {
        DataMode::Data => "data"@,
        DataMode::Extra => "extra"@,
        DataMode::NoData => "none"@,
    }
}

/// How an extra type is written: `"string"`, `"bool"` or `"int"`.
pub open spec fn extra_type_text(t: ExtraType) -> Seq<char> {
    match t {
        ExtraType::String => "string"@,
        ExtraType::Bool => "bool"@,
        ExtraType::Int => "int"@,
    }
}

pub fn data_mode_str(m: DataMode) -> (r: String)
    ensures
        r@ == data_mode_text(m),
{
    match m {
        DataMode::Data => string_of(&chars_of("data")),
        DataMode::Extra => string_of(&chars_of("extra")),
        DataMode::NoData => string_of(&chars_of("none")),
    }
}

pub fn extra_type_str(t: ExtraType) -> (r: String)
    ensures
        r@ == extra_type_text(t),
{
    match t {
        ExtraType::String => string_of(&chars_of("string")),
        ExtraType::Bool => string_of(&chars_of("bool")),
        ExtraType::Int => string_of(&chars_of("int")),
    }
}

/// The view of an offered template: id, display name, package.
pub open spec fn template_info_view(i: IntentTemplateInfo) -> (Seq<char>, Seq<char>, Seq<char>) {
    (i.id@, i.display_name@, i.package@)
}

/// The templates of `templates` (each with its id) that apply to
/// `system_slug`, in order.
pub open spec fn templates_for(
    templates: Seq<(String, IntentTemplate)>,
    slug: Seq<char>,
) -> Seq<(Seq<char>, Seq<char>, Seq<char>)>
    decreases templates.len(),
{
    if templates.len() == 0 {
        Seq::empty()
    } else {
        let (id, t) = templates.last();
        templates_for(templates.drop_last(), slug) + if applies_to_spec(t, slug) {
            seq![(id@, t.display_name@, t.package@)]
        } else {
            Seq::empty()
        }
    }
}

/// The templates that apply to `system_slug`, from the given
/// `(id, template)` list.
pub fn intent_templates_for_system(
    templates: &[(String, IntentTemplate)],
    system_slug: &str,
) -> (r: Vec<IntentTemplateInfo>)
    ensures
        r@.map_values(|i: IntentTemplateInfo| template_info_view(i)) == templates_for(
            templates@,
            system_slug@,
        ),
{
    let mut out: Vec<IntentTemplateInfo> = Vec::new();
    let mut i: usize = 0;
    proof {
        assert(out@.map_values(|i: IntentTemplateInfo| template_info_view(i)) =~= templates_for(
            templates@.take(0),
            system_slug@,
        ));
    }
    while i < templates.len()
        invariant
            i <= templates@.len(),
            out@.map_values(|i: IntentTemplateInfo| template_info_view(i)) == templates_for(
                templates@.take(i as int),
                system_slug@,
            ),
        decreases templates.len() - i,
    {
        let ghost prev = out@.map_values(|i: IntentTemplateInfo| template_info_view(i));
        proof {
            let t = templates@.take(i + 1);
            assert(t.drop_last() =~= templates@.take(i as int));
            assert(t.last() == templates@[i as int]);
        }
        let t = &templates[i].1;
        if applies_to(t, system_slug) {
            out.push(
                IntentTemplateInfo {
                    id: string_of(&chars_of(templates[i].0.as_str())),
                    display_name: string_of(&chars_of(t.display_name.as_str())),
                    package: string_of(&chars_of(t.package.as_str())),
                },
            );
            proof {
                assert(out@.map_values(|i: IntentTemplateInfo| template_info_view(i)) =~= prev.push(
                    template_info_view(out@.last()),
                ));
            }
        } else {
            proof {
                assert(prev + Seq::<(Seq<char>, Seq<char>, Seq<char>)>::empty() =~= prev);
            }
        }
        i += 1;
    }
    proof {
        assert(templates@.take(templates@.len() as int) =~= templates@);
    }
    out
}

/// The view of a resolved intent record.
pub struct ResolvedIntentInfoView {
    pub package: Seq<char>,
    pub activity: Seq<char>,
    pub action: Seq<char>,
    pub data_mode: Seq<char>,
    pub data_extra_name: Option<Seq<char>>,
    pub data_mime_type: Option<Seq<char>>,
    pub extras: Seq<(Seq<char>, Seq<char>, Seq<char>)>,
    pub flags: Seq<Seq<char>>,
}

pub open spec fn resolved_info_view(r: ResolvedIntentInfo) -> ResolvedIntentInfoView {
    ResolvedIntentInfoView {
        package: r.package@,
        activity: r.activity@,
        action: r.action@,
        data_mode: r.data_mode@,
        data_extra_name: opt_view(r.data_extra_name),
        data_mime_type: opt_view(r.data_mime_type),
        extras: r.extras@.map_values(|e: ResolvedExtraInfo| (e.name@, e.extra_type@, e.value@)),
        flags: strings_view(r.flags@),
    }
}

/// The first template whose id is `id`.
pub open spec fn template_with_id(templates: Seq<(String, IntentTemplate)>, id: Seq<char>) -> Option<
    IntentTemplate,
>
    decreases templates.len(),
{
    if templates.len() == 0 {
        None
    } else if templates[0].0@ == id {
        Some(templates[0].1)
    } else {
        template_with_id(templates.drop_first(), id)
    }
}

/// What `resolve_intent` gives: the template with that id resolved for
/// the system and launch values, its mode and extra types as text.
pub open spec fn resolved_intent_spec(
    templates: Seq<(String, IntentTemplate)>,
    id: Seq<char>,
    slug: Seq<char>,
    ctx: LaunchContext,
) -> Option<ResolvedIntentInfoView> {
    match template_with_id(templates, id) {
        None => None,
        Some(t) => {
            let r = resolve_spec(t, slug, ctx);
            Some(
                ResolvedIntentInfoView {
                    package: r.package,
                    activity: r.activity,
                    action: r.action,
                    data_mode: data_mode_text(r.data_mode),
                    data_extra_name: r.data_extra_name,
                    data_mime_type: r.data_mime_type,
                    extras: r.extras.map_values(
                        |e: (Seq<char>, ExtraType, Seq<char>)| (e.0, extra_type_text(e.1), e.2),
                    ),
                    flags: r.flags,
                },
            )
        },
    }
}

fn find_template(templates: &[(String, IntentTemplate)], id: &str) -> (r: Option<usize>)
    ensures
        match r {
            Some(k) => k < templates@.len() && template_with_id(templates@, id@) == Some(
                templates@[k as int].1,
            ),
            None => template_with_id(templates@, id@) is None,
        },
{
    let idc = chars_of(id);
    let mut i: usize = 0;
    proof {
        assert(templates@.skip(0) =~= templates@);
    }
    while i < templates.len()
        invariant
            i <= templates@.len(),
            idc@ == id@,
            template_with_id(templates@, id@) == template_with_id(templates@.skip(i as int), id@),
        decreases templates.len() - i,
    {
        proof {
            let rest = templates@.skip(i as int);
            assert(rest[0] == templates@[i as int]);
            assert(rest.drop_first() =~= templates@.skip(i + 1));
        }
        let c = chars_of(templates[i].0.as_str());
        if chars_eq(c.as_slice(), idc.as_slice()) {
            return Some(i);
        }
        i += 1;
    }
    None
}

/// Resolves the template `template_id` of `templates` for a system and a
/// ROM: `None` when no template has that id.
pub fn resolve_intent(
    templates: &[(String, IntentTemplate)],
    template_id: &str,
    system_slug: &str,
    rom_uri: &str,
    rom_path: &str,
    core: Option<&str>,
) -> (r: Option<ResolvedIntentInfo>)
    ensures
        match r {
            Some(i) => resolved_intent_spec(
                templates@,
                template_id@,
                system_slug@,
                LaunchContext { rom_uri, rom_path, core },
            ) == Some(resolved_info_view(i)),
            None => resolved_intent_spec(
                templates@,
                template_id@,
                system_slug@,
                LaunchContext { rom_uri, rom_path, core },
            ) is None,
        },
{
    let k = match find_template(templates, template_id) {
        None => return None,
        Some(k) => k,
    };
    let ctx = LaunchContext { rom_uri, rom_path, core };
    let resolved = resolve(&templates[k].1, system_slug, &ctx);
    let ghost rv = resolved@;
    let mut extras: Vec<ResolvedExtraInfo> = Vec::new();
    let mut i: usize = 0;
    while i < resolved.extras.len()
        invariant
            i <= resolved.extras@.len(),
            rv == resolved@,
            extras@.map_values(|e: ResolvedExtraInfo| (e.name@, e.extra_type@, e.value@))
                == rv.extras.take(i as int).map_values(
                |e: (Seq<char>, ExtraType, Seq<char>)| (e.0, extra_type_text(e.1), e.2),
            ),
        decreases resolved.extras.len() - i,
    {
        let e: &ResolvedExtra = &resolved.extras[i];
        let ghost prev = extras@;
        extras.push(
            ResolvedExtraInfo {
                name: string_of(&chars_of(e.name.as_str())),
                extra_type: extra_type_str(e.extra_type),
                value: string_of(&chars_of(e.value.as_str())),
            },
        );
        proof {
            let f = |e: (Seq<char>, ExtraType, Seq<char>)| (e.0, extra_type_text(e.1), e.2);
            assert(rv.extras.take(i + 1) =~= rv.extras.take(i as int).push(rv.extras[i as int]));
            assert(rv.extras.take(i + 1).map_values(f) =~= rv.extras.take(i as int).map_values(
                f,
            ).push(f(rv.extras[i as int])));
            assert(extras@.map_values(
                |e: ResolvedExtraInfo| (e.name@, e.extra_type@, e.value@),
            ) =~= prev.map_values(|e: ResolvedExtraInfo| (e.name@, e.extra_type@, e.value@)).push(
                f(rv.extras[i as int]),
            ));
        }
        i += 1;
    }
    proof {
        assert(rv.extras.take(rv.extras.len() as int) =~= rv.extras);
    }
    let info = ResolvedIntentInfo {
        package: resolved.package,
        activity: resolved.activity,
        action: resolved.action,
        data_mode: data_mode_str(resolved.data_mode),
        data_extra_name: resolved.data_extra_name,
        data_mime_type: resolved.data_mime_type,
        extras,
        flags: resolved.flags,
    };
    Some(info)
}

} // verus!
