//! The shape of a theme manifest. Every field is optional; `scale` is
//! held as the IEEE-754 bits of the number written.

use vstd::prelude::*;

verus! {

/// `[theme]`: who made the theme and which format it targets.
#[derive(Debug, Clone, Default)]
pub struct ThemeMeta {
    pub name: Option<String>,
    pub author: Option<String>,
    pub version: Option<String>,
    pub format_version: Option<i64>,
    pub description: Option<String>,
}

/// `[colors]`: a dark and a light variant.
#[derive(Debug, Clone, Default)]
pub struct Colors {
    pub dark: Option<ColorSet>,
    pub light: Option<ColorSet>,
}

/// One color variant, as hex strings.
#[derive(Debug, Clone, Default)]
pub struct ColorSet {
    pub bg: Option<String>,
    pub surface: Option<String>,
    pub text: Option<String>,
    pub text_dim: Option<String>,
    pub accent: Option<String>,
    pub favorite: Option<String>,
}

/// `[typography]`; `scale_bits` are the bits of the `f64` scale (an
/// integer scale is written as its `f64`).
#[derive(Debug, Clone, Default)]
pub struct Typography {
    pub font_family: Option<String>,
    pub scale_bits: Option<u64>,
}

/// `[shape]`.
#[derive(Debug, Clone, Default)]
pub struct Shape {
    pub radius: Option<i64>,
}

/// `[sounds]`: files relative to the theme folder.
#[derive(Debug, Clone, Default)]
pub struct Sounds {
    /// The `move` key.
    pub move_sound: Option<String>,
    pub select: Option<String>,
    pub back: Option<String>,
}

/// A parsed theme manifest.
#[derive(Debug, Clone, Default)]
pub struct Theme {
    pub theme: ThemeMeta,
    pub colors: Option<Colors>,
    pub typography: Option<Typography>,
    pub shape: Option<Shape>,
    pub sounds: Option<Sounds>,
}

} // verus!
