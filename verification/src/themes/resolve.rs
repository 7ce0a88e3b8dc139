//! Resolving a theme into concrete tokens: every key falls back on its own
//! to the bundled default theme, and colors are normalized to `#rrggbb`.

use vstd::prelude::*;

use crate::text::{all_hex_digits, chars_of, copy_range, is_hex_digit, opt_view, push_all, string_of};
use crate::themes::model::{ColorSet, Colors, Shape, Sounds, Theme, ThemeMeta, Typography};

verus! {

/// Which color variant to resolve.
#[derive(Debug, Clone, Copy, PartialEq, Eq, Structural)]
pub enum Variant {
    Dark,
    Light,
}

/// The six colors of a variant.
#[derive(Debug, Clone, Copy, PartialEq, Eq, Structural)]
pub enum ColorKey {
    Bg,
    Surface,
    Text,
    TextDim,
    Accent,
    Favorite,
}

/// Concrete colors, `#rrggbb` where the source was a valid hex color.
#[derive(Debug, Clone)]
pub struct ResolvedColors {
    pub bg: String,
    pub surface: String,
    pub text: String,
    pub text_dim: String,
    pub accent: String,
    pub favorite: String,
}

/// Concrete sound files (`""` for none).
#[derive(Debug, Clone)]
pub struct ResolvedSounds {
    pub move_sound: String,
    pub select_sound: String,
    pub back_sound: String,
}

/// Every token of a resolved theme; `scale_bits` are the bits of the
/// `f64` scale.
#[derive(Debug, Clone)]
pub struct ResolvedTokens {
    pub colors: ResolvedColors,
    pub font_family: String,
    pub scale_bits: u64,
    pub radius: i64,
    pub sounds: ResolvedSounds,
}

/// The bits of `1.0_f64`.
pub const SCALE_ONE_BITS: u64 = 0x3FF0_0000_0000_0000;

/// The bundled default theme's colors.
pub open spec fn default_color(v: Variant, k: ColorKey) -> Seq<char> {
    match v {
        Variant::Dark => match k {
            ColorKey::Bg => "#121212"@,
            ColorKey::Surface => "#1e1e1e"@,
            ColorKey::Text => "#f2f2f2"@,
            ColorKey::TextDim => "#a0a0a0"@,
            ColorKey::Accent => "#7c9eff"@,
            ColorKey::Favorite => "#ffcf5c"@,
        },
        Variant::Light => match k {
            ColorKey::Bg => "#f7f7f7"@,
            ColorKey::Surface => "#ffffff"@,
            ColorKey::Text => "#1a1a1a"@,
            ColorKey::TextDim => "#5f5f5f"@,
            ColorKey::Accent => "#3a5fd9"@,
            ColorKey::Favorite => "#d99a00"@,
        },
    }
}

fn default_color_exec(v: Variant, k: ColorKey) -> (r: &'static str)
    ensures
        r@ == default_color(v, k),
{
    match v {
        Variant::Dark => match k {
            ColorKey::Bg => "#121212",
            ColorKey::Surface => "#1e1e1e",
            ColorKey::Text => "#f2f2f2",
            ColorKey::TextDim => "#a0a0a0",
            ColorKey::Accent => "#7c9eff",
            ColorKey::Favorite => "#ffcf5c",
        },
        Variant::Light => match k {
            ColorKey::Bg => "#f7f7f7",
            ColorKey::Surface => "#ffffff",
            ColorKey::Text => "#1a1a1a",
            ColorKey::TextDim => "#5f5f5f",
            ColorKey::Accent => "#3a5fd9",
            ColorKey::Favorite => "#d99a00",
        },
    }
}

fn own(s: &str) -> (r: String)
    ensures
        r@ == s@,
{
    string_of(&chars_of(s))
}

fn own_opt(s: &str) -> (r: Option<String>)
    ensures
        opt_view(r) == Some(s@),
{
    Some(own(s))
}

/// The bundled default theme: "Default", format 1, both color variants,
/// the "Inter" font at scale 1.0, a corner radius of 8, no sounds.
pub fn default_theme() -> (t: Theme)
    ensures
        opt_view(t.theme.name) == Some("Default"@),
        t.theme.format_version == Some(1i64),
        forall|v: Variant, k: ColorKey| #[trigger] color_in(Some(t), v, k) == Some(default_color(v, k)),
        t.typography matches Some(ty) && opt_view(ty.font_family) == Some("Inter"@) && ty.scale_bits
            == Some(SCALE_ONE_BITS),
        t.shape matches Some(s) && s.radius == Some(8i64),
        t.sounds is None,
{
    let dark = ColorSet {
        bg: own_opt(default_color_exec(Variant::Dark, ColorKey::Bg)),
        surface: own_opt(default_color_exec(Variant::Dark, ColorKey::Surface)),
        text: own_opt(default_color_exec(Variant::Dark, ColorKey::Text)),
        text_dim: own_opt(default_color_exec(Variant::Dark, ColorKey::TextDim)),
        accent: own_opt(default_color_exec(Variant::Dark, ColorKey::Accent)),
        favorite: own_opt(default_color_exec(Variant::Dark, ColorKey::Favorite)),
    };
    let light = ColorSet {
        bg: own_opt(default_color_exec(Variant::Light, ColorKey::Bg)),
        surface: own_opt(default_color_exec(Variant::Light, ColorKey::Surface)),
        text: own_opt(default_color_exec(Variant::Light, ColorKey::Text)),
        text_dim: own_opt(default_color_exec(Variant::Light, ColorKey::TextDim)),
        accent: own_opt(default_color_exec(Variant::Light, ColorKey::Accent)),
        favorite: own_opt(default_color_exec(Variant::Light, ColorKey::Favorite)),
    };
    let t = Theme {
        theme: ThemeMeta {
            name: own_opt("Default"),
            author: None,
            version: None,
            format_version: Some(1),
            description: None,
        },
        colors: Some(Colors { dark: Some(dark), light: Some(light) }),
        typography: Some(Typography { font_family: own_opt("Inter"), scale_bits: Some(SCALE_ONE_BITS) }),
        shape: Some(Shape { radius: Some(8) }),
        sounds: None,
    };
    proof {
        assert forall|v: Variant, k: ColorKey| #[trigger] color_in(Some(t), v, k) == Some(
            default_color(v, k),
        ) by {
            match v {
                Variant::Dark => match k {
                    ColorKey::Bg => {},
                    ColorKey::Surface => {},
                    ColorKey::Text => {},
                    ColorKey::TextDim => {},
                    ColorKey::Accent => {},
                    ColorKey::Favorite => {},
                },
                Variant::Light => match k {
                    ColorKey::Bg => {},
                    ColorKey::Surface => {},
                    ColorKey::Text => {},
                    ColorKey::TextDim => {},
                    ColorKey::Accent => {},
                    ColorKey::Favorite => {},
                },
            }
        }
    }
    t
}

/// A theme's color `k` of variant `v`, when it sets one.
pub open spec fn color_in(t: Option<Theme>, v: Variant, k: ColorKey) -> Option<Seq<char>> {
    match t {
        Some(t) => match t.colors {
            Some(c) => match (match v {
                Variant::Dark => c.dark,
                Variant::Light => c.light,
            }) {
                Some(s) => opt_view(
                    match k {
                        ColorKey::Bg => s.bg,
                        ColorKey::Surface => s.surface,
                        ColorKey::Text => s.text,
                        ColorKey::TextDim => s.text_dim,
                        ColorKey::Accent => s.accent,
                        ColorKey::Favorite => s.favorite,
                    },
                ),
                None => None,
            },
            None => None,
        },
        None => None,
    }
}

/// Every character of `r` twice (`"abc"` gives `"aabbcc"`).
pub open spec fn doubled(r: Seq<char>) -> Seq<char> {
    Seq::new(2 * r.len(), |i: int| r[i / 2])
}

/// A hex color in six-digit form: `#rgb` and `#rgba` spread to `#rrggbb`
/// (alpha dropped), `#rrggbbaa` loses its alpha; anything else is kept.
pub open spec fn hex_color_normal(s: Seq<char>) -> Seq<char> {
    if s.len() > 0 && s[0] == '#' && (forall|i: int| 1 <= i < s.len() ==> is_hex_digit(#[trigger] s[i])) {
        let rest = s.skip(1);
        if rest.len() == 3 {
            seq!['#'] + doubled(rest)
        } else if rest.len() == 4 {
            seq!['#'] + doubled(rest.take(3))
        } else if rest.len() == 8 {
            seq!['#'] + rest.take(6)
        } else {
            s
        }
    } else {
        s
    }
}

fn push_doubled(out: &mut Vec<char>, r: &[char], n: usize)
    requires
        n <= r@.len(),
    ensures
        final(out)@ == old(out)@ + doubled(r@.take(n as int)),
{
    let mut i: usize = 0;
    while i < n
        invariant
            i <= n <= r@.len(),
            out@ == old(out)@ + doubled(r@.take(i as int)),
        decreases n - i,
    {
        out.push(r[i]);
        out.push(r[i]);
        i += 1;
        proof {
            assert(out@ =~= old(out)@ + doubled(r@.take(i as int)));
        }
    }
}

pub fn normalize_hex_color(s: &str) -> (r: String)
    ensures
        r@ == hex_color_normal(s@),
{
    let c = chars_of(s);
    let n = c.len();
    if n == 0 || c[0] != '#' {
        return own(s);
    }
    let rest = copy_range(c.as_slice(), 1, n);
    proof {
        assert(rest@ =~= s@.skip(1));
    }
    if !all_hex_digits(rest.as_slice()) {
        proof {
            let k = choose|k: int| 0 <= k < rest@.len() && !is_hex_digit(#[trigger] rest@[k]);
            assert(s@[k + 1] == rest@[k]);
        }
        return own(s);
    }
    proof {
        assert forall|i: int| 1 <= i < s@.len() implies is_hex_digit(#[trigger] s@[i]) by {
            assert(s@[i] == rest@[i - 1]);
        }
    }
    let rl = rest.len();
    let mut out: Vec<char> = Vec::new();
    out.push('#');
    if rl == 3 {
        push_doubled(&mut out, rest.as_slice(), 3);
        proof {
            assert(rest@.take(3) =~= rest@);
        }
        string_of(&out)
    } else if rl == 4 {
        push_doubled(&mut out, rest.as_slice(), 3);
        string_of(&out)
    } else if rl == 8 {
        let six = copy_range(rest.as_slice(), 0, 6);
        push_all(&mut out, six.as_slice());
        proof {
            assert(six@ =~= rest@.take(6));
        }
        string_of(&out)
    } else {
        own(s)
    }
}

/// Normalizing is idempotent: a normalized color normalizes to itself.
pub proof fn law_normalize_idempotent(s: Seq<char>)
    ensures
        hex_color_normal(hex_color_normal(s)) == hex_color_normal(s),
{
    let n = hex_color_normal(s);
    if n != s {
        assert(n.len() == 7);
        assert(n[0] == '#');
        assert forall|i: int| 1 <= i < n.len() implies is_hex_digit(#[trigger] n[i]) by {
            let rest = s.skip(1);
            if rest.len() == 3 || rest.len() == 4 {
                assert(n[i] == s[(i - 1) / 2 + 1]);
            } else {
                assert(n[i] == s[i]);
            }
        }
        assert(n.skip(1).len() == 6);
    }
}

/// The resolved value of color `k`: the theme's, else the default's, in
/// normalized form.
pub open spec fn resolved_color(t: Option<Theme>, v: Variant, k: ColorKey) -> Seq<char> {
    hex_color_normal(
        match color_in(t, v, k) {
            Some(c) => c,
            None => default_color(v, k),
        },
    )
}

/// The theme's font family, when it sets one.
pub open spec fn font_in(t: Option<Theme>) -> Option<Seq<char>> {
    match t {
        Some(t) => match t.typography {
            Some(ty) => opt_view(ty.font_family),
            None => None,
        },
        None => None,
    }
}

pub open spec fn scale_in(t: Option<Theme>) -> Option<u64> {
    match t {
        Some(t) => match t.typography {
            Some(ty) => ty.scale_bits,
            None => None,
        },
        None => None,
    }
}

pub open spec fn radius_in(t: Option<Theme>) -> Option<i64> {
    match t {
        Some(t) => match t.shape {
            Some(s) => s.radius,
            None => None,
        },
        None => None,
    }
}

/// The three sounds.
#[derive(Debug, Clone, Copy, PartialEq, Eq, Structural)]
pub enum SoundKey {
    Move,
    Select,
    Back,
}

pub open spec fn sound_in(t: Option<Theme>, k: SoundKey) -> Option<Seq<char>> {
    match t {
        Some(t) => match t.sounds {
            Some(s) => opt_view(
                match k {
                    SoundKey::Move => s.move_sound,
                    SoundKey::Select => s.select,
                    SoundKey::Back => s.back,
                },
            ),
            None => None,
        },
        None => None,
    }
}

pub open spec fn or_default(o: Option<Seq<char>>, d: Seq<char>) -> Seq<char> {
    match o {
        Some(s) => s,
        None => d,
    }
}

/// What resolution gives for `theme` and `variant`, key by key.
pub open spec fn tokens_ok(r: ResolvedTokens, t: Option<Theme>, v: Variant) -> bool {
    &&& r.colors.bg@ == resolved_color(t, v, ColorKey::Bg)
    &&& r.colors.surface@ == resolved_color(t, v, ColorKey::Surface)
    &&& r.colors.text@ == resolved_color(t, v, ColorKey::Text)
    &&& r.colors.text_dim@ == resolved_color(t, v, ColorKey::TextDim)
    &&& r.colors.accent@ == resolved_color(t, v, ColorKey::Accent)
    &&& r.colors.favorite@ == resolved_color(t, v, ColorKey::Favorite)
    &&& r.font_family@ == or_default(font_in(t), "Inter"@)
    &&& r.scale_bits == match scale_in(t) {
        Some(b) => b,
        None => SCALE_ONE_BITS,
    }
    &&& r.radius == match radius_in(t) {
        Some(x) => x,
        None => 8,
    }
    &&& r.sounds.move_sound@ == or_default(sound_in(t, SoundKey::Move), Seq::empty())
    &&& r.sounds.select_sound@ == or_default(sound_in(t, SoundKey::Select), Seq::empty())
    &&& r.sounds.back_sound@ == or_default(sound_in(t, SoundKey::Back), Seq::empty())
}

fn pick_color(theme: Option<&Theme>, v: Variant, k: ColorKey) -> (r: String)
    ensures
        r@ == resolved_color(
            match theme {
                Some(t) => Some(*t),
                None => None,
            },
            v,
            k,
        ),
{
    let set: Option<&ColorSet> = match theme {
        Some(t) => match &t.colors {
            Some(c) => match v {
                Variant::Dark => c.dark.as_ref(),
                Variant::Light => c.light.as_ref(),
            },
            None => None,
        },
        None => None,
    };
    let val: Option<&String> = match set {
        Some(s) => match k {
            ColorKey::Bg => s.bg.as_ref(),
            ColorKey::Surface => s.surface.as_ref(),
            ColorKey::Text => s.text.as_ref(),
            ColorKey::TextDim => s.text_dim.as_ref(),
            ColorKey::Accent => s.accent.as_ref(),
            ColorKey::Favorite => s.favorite.as_ref(),
        },
        None => None,
    };
    match val {
        Some(x) => normalize_hex_color(x.as_str()),
        None => normalize_hex_color(default_color_exec(v, k)),
    }
}

fn pick_sound(theme: Option<&Theme>, k: SoundKey) -> (r: String)
    ensures
        r@ == or_default(
            sound_in(
                match theme {
                    Some(t) => Some(*t),
                    None => None,
                },
                k,
            ),
            Seq::empty(),
        ),
{
    let val: Option<&String> = match theme {
        Some(t) => match &t.sounds {
            Some(s) => match k {
                SoundKey::Move => s.move_sound.as_ref(),
                SoundKey::Select => s.select.as_ref(),
                SoundKey::Back => s.back.as_ref(),
            },
            None => None,
        },
        None => None,
    };
    match val {
        Some(x) => own(x.as_str()),
        None => {
            let e: Vec<char> = Vec::new();
            proof {
                assert(e@ =~= Seq::<char>::empty());
            }
            string_of(&e)
        },
    }
}

/// Resolves concrete tokens for `variant`, each key from the theme when it
/// sets it, else from the default theme; `None` resolves entirely to the
/// default. A theme without the requested variant gets the default's
/// variant, never its other one.
pub fn resolve(theme: Option<&Theme>, variant: Variant) -> (r: ResolvedTokens)
    ensures
        tokens_ok(
            r,
            match theme {
                Some(t) => Some(*t),
                None => None,
            },
            variant,
        ),
{
    let colors = ResolvedColors {
        bg: pick_color(theme, variant, ColorKey::Bg),
        surface: pick_color(theme, variant, ColorKey::Surface),
        text: pick_color(theme, variant, ColorKey::Text),
        text_dim: pick_color(theme, variant, ColorKey::TextDim),
        accent: pick_color(theme, variant, ColorKey::Accent),
        favorite: pick_color(theme, variant, ColorKey::Favorite),
    };
    let typo: Option<&Typography> = match theme {
        Some(t) => t.typography.as_ref(),
        None => None,
    };
    let font_family = match typo {
        Some(ty) => match &ty.font_family {
            Some(f) => own(f.as_str()),
            None => own("Inter"),
        },
        None => own("Inter"),
    };
    let scale_bits = match typo {
        Some(ty) => match ty.scale_bits {
            Some(b) => b,
            None => SCALE_ONE_BITS,
        },
        None => SCALE_ONE_BITS,
    };
    let radius = match theme {
        Some(t) => match &t.shape {
            Some(s) => match s.radius {
                Some(x) => x,
                None => 8,
            },
            None => 8,
        },
        None => 8,
    };
    let sounds = ResolvedSounds {
        move_sound: pick_sound(theme, SoundKey::Move),
        select_sound: pick_sound(theme, SoundKey::Select),
        back_sound: pick_sound(theme, SoundKey::Back),
    };
    ResolvedTokens { colors, font_family, scale_bits, radius, sounds }
}

/// With no theme, every token is the default theme's.
pub proof fn law_no_theme_is_default(v: Variant, k: ColorKey, r: ResolvedTokens)
    requires
        tokens_ok(r, None, v),
    ensures
        resolved_color(None, v, k) == default_color(v, k),
        r.font_family@ == "Inter"@,
        r.scale_bits == SCALE_ONE_BITS,
        r.radius == 8,
        r.sounds.move_sound@.len() == 0,
{
    lemma_default_color_normal(v, k);
}

/// The default colors are in normalized six-digit form already.
pub proof fn lemma_default_color_normal(v: Variant, k: ColorKey)
    ensures
        hex_color_normal(default_color(v, k)) == default_color(v, k),
{
    let d = default_color(v, k);
    reveal_strlit("#121212");
    reveal_strlit("#1e1e1e");
    reveal_strlit("#f2f2f2");
    reveal_strlit("#a0a0a0");
    reveal_strlit("#7c9eff");
    reveal_strlit("#ffcf5c");
    reveal_strlit("#f7f7f7");
    reveal_strlit("#ffffff");
    reveal_strlit("#1a1a1a");
    reveal_strlit("#5f5f5f");
    reveal_strlit("#3a5fd9");
    reveal_strlit("#d99a00");
    assert(d.len() == 7);
    assert(d.skip(1).len() == 6);
}

/// A key the theme sets wins over the default; a key it leaves out takes
/// the default's value for the requested variant.
pub proof fn law_per_key_fallback(t: Theme, v: Variant, k: ColorKey)
    ensures
        color_in(Some(t), v, k) matches Some(c) ==> resolved_color(Some(t), v, k)
            == hex_color_normal(c),
        color_in(Some(t), v, k) is None ==> resolved_color(Some(t), v, k) == resolved_color(
            None,
            v,
            k,
        ),
{
}

/// Font, scale, corner radius and sounds fall back key by key too: what a
/// theme sets is used, and what it leaves out is what no theme at all
/// gives, for either variant.
pub proof fn law_other_tokens_fall_back(t: Theme, v: Variant, r: ResolvedTokens, d: ResolvedTokens, k: SoundKey)
    requires
        tokens_ok(r, Some(t), v),
        tokens_ok(d, None, v),
    ensures
        font_in(Some(t)) matches Some(f) ==> r.font_family@ == f,
        font_in(Some(t)) is None ==> r.font_family@ == d.font_family@,
        scale_in(Some(t)) matches Some(b) ==> r.scale_bits == b,
        scale_in(Some(t)) is None ==> r.scale_bits == d.scale_bits,
        radius_in(Some(t)) matches Some(x) ==> r.radius == x,
        radius_in(Some(t)) is None ==> r.radius == d.radius,
        sound_in(Some(t), k) matches Some(p) ==> or_default(sound_in(Some(t), k), Seq::empty()) == p,
        sound_in(Some(t), k) is None ==> or_default(sound_in(Some(t), k), Seq::empty()) == or_default(
            sound_in(None, k),
            Seq::empty(),
        ),
{
}

/// Resolving the default theme gives what resolving no theme gives, token
/// for token, for either variant: the default theme is the fallback base.
pub proof fn law_default_theme_resolves_as_none(t: Theme, v: Variant, r: ResolvedTokens)
    requires
        forall|v: Variant, k: ColorKey| #[trigger] color_in(Some(t), v, k) == Some(default_color(v, k)),
        t.typography matches Some(ty) && opt_view(ty.font_family) == Some("Inter"@) && ty.scale_bits
            == Some(SCALE_ONE_BITS),
        t.shape matches Some(s) && s.radius == Some(8i64),
        t.sounds is None,
    ensures
        tokens_ok(r, Some(t), v) == tokens_ok(r, None, v),
{
    assert(color_in(Some(t), v, ColorKey::Bg) == Some(default_color(v, ColorKey::Bg)));
    assert(color_in(Some(t), v, ColorKey::Surface) == Some(default_color(v, ColorKey::Surface)));
    assert(color_in(Some(t), v, ColorKey::Text) == Some(default_color(v, ColorKey::Text)));
    assert(color_in(Some(t), v, ColorKey::TextDim) == Some(default_color(v, ColorKey::TextDim)));
    assert(color_in(Some(t), v, ColorKey::Accent) == Some(default_color(v, ColorKey::Accent)));
    assert(color_in(Some(t), v, ColorKey::Favorite) == Some(default_color(v, ColorKey::Favorite)));
}

} // verus!
