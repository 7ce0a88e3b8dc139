use relic::themes::model::{ColorSet, Colors, Theme, ThemeMeta};
use relic::themes::resolve::{default_theme, resolve, Variant};
use relic::themes::toml_doc::{TomlDoc, TomlItem, TomlTop};
use relic::themes::validate::{
    has_error, sound_paths, validate_dir, validate_document, validate_manifest, Issue, Severity,
};

fn assert_has_error(issues: &[Issue], code: &str) {
    assert!(
        issues
            .iter()
            .any(|i| i.severity == Severity::Error && i.code == code),
        "expected an Error with code `{code}`, got: {issues:?}"
    );
}

fn assert_has_warning(issues: &[Issue], code: &str) {
    assert!(
        issues
            .iter()
            .any(|i| i.severity == Severity::Warning && i.code == code),
        "expected a Warning with code `{code}`, got: {issues:?}"
    );
}

#[test]
fn none_theme_resolves_fully_to_defaults() {
    let dark = resolve(None, Variant::Dark);
    assert_eq!(dark.colors.bg, "#121212");
    assert_eq!(dark.colors.accent, "#7c9eff");
    assert_eq!(dark.font_family, "Inter");
    assert_eq!(f64::from_bits(dark.scale_bits), 1.0);
    assert_eq!(dark.radius, 8);

    let light = resolve(None, Variant::Light);
    assert_eq!(light.colors.bg, "#f7f7f7");
    assert_eq!(light.colors.accent, "#3a5fd9");
}

#[test]
fn missing_format_version_is_error() {
    let src = r##"
[theme]
name = "X"
"##;
    assert_has_error(&validate_manifest(src), "missing-format-version");
}

#[test]
fn missing_name_is_error() {
    let src = r##"
[theme]
format_version = 1
"##;
    assert_has_error(&validate_manifest(src), "missing-name");
}

#[test]
fn format_version_0_and_2_are_rejected() {
    for fv in [0i64, 2] {
        let src = format!("[theme]\nname = \"X\"\nformat_version = {fv}\n");
        let issues = validate_manifest(&src);
        assert_has_error(&issues, "unsupported-format-version");
        assert!(has_error(&issues), "fv={fv} must not parse");
    }
}

#[test]
fn bad_color_is_error() {
    let src = r##"
[theme]
name = "X"
format_version = 1

[colors.dark]
accent = "not-a-color"
"##;
    assert_has_error(&validate_manifest(src), "bad-color");
}

#[test]
fn bad_color_short_hex_rejected() {
    let src = r##"
[theme]
name = "X"
format_version = 1

[colors.dark]
bg = "#12345"
"##;
    assert_has_error(&validate_manifest(src), "bad-color");
}

#[test]
fn valid_hex_forms_accepted() {
    let src = r##"
[theme]
name = "X"
format_version = 1

[colors.dark]
bg = "#abc"
surface = "#abcd"
text = "#aabbcc"
text_dim = "#aabbccdd"
accent = "#FFFFFF"
favorite = "#FFAaBB"
"##;
    let issues = validate_manifest(src);
    assert!(
        !issues.iter().any(|i| i.code == "bad-color"),
        "all valid hex forms should be accepted, got: {issues:?}"
    );
}

#[test]
fn scale_le_zero_is_error() {
    let src = r##"
[theme]
name = "X"
format_version = 1

[typography]
scale = 0.0
"##;
    assert_has_error(&validate_manifest(src), "scale-out-of-range");
}

#[test]
fn scale_outside_range_is_warning_only() {
    let src = r##"
[theme]
name = "X"
format_version = 1

[typography]
scale = 4.0
"##;
    let issues = validate_manifest(src);
    assert_has_warning(&issues, "scale-out-of-range");
    assert!(
        !issues.iter().any(|i| i.severity == Severity::Error),
        "out-of-range scale must not be an error, got: {issues:?}"
    );
    assert!(!has_error(&issues), "warnings do not block parsing");
}

#[test]
fn radius_negative_is_error() {
    let src = r##"
[theme]
name = "X"
format_version = 1

[shape]
radius = -1
"##;
    assert_has_error(&validate_manifest(src), "radius-negative");
}

#[test]
fn unknown_key_is_warning_only() {
    let src = r##"
[theme]
name = "X"
format_version = 1
bogus = 5

[colors.dark]
bogus = "#000000"

[shape]
bogus = 1

[sounds]
bogus = "x.wav"
"##;
    let issues = validate_manifest(src);
    assert_has_warning(&issues, "unknown-key");
    assert!(
        !issues.iter().any(|i| i.severity == Severity::Error),
        "unknown keys must not be errors, got: {issues:?}"
    );
}

#[test]
fn parse_theme_returns_err_when_error_present() {
    let src = "[theme]\nname = \"X\"\n";
    assert!(has_error(&validate_manifest(src)));
}

#[test]
fn unparseable_toml_is_error() {
    let src = "this is not = = valid toml";
    let issues = validate_manifest(src);
    assert_has_error(&issues, "unparseable-toml");
}

fn recolor(dark: ColorSet) -> Theme {
    Theme {
        theme: ThemeMeta {
            name: Some("Recolor".to_string()),
            author: None,
            version: None,
            format_version: Some(1),
            description: None,
        },
        colors: Some(Colors {
            dark: Some(dark),
            light: None,
        }),
        typography: None,
        shape: None,
        sounds: None,
    }
}

#[test]
fn recolor_only_theme_resolves_with_defaults_filling_gaps() {
    let theme = recolor(ColorSet {
        accent: Some("#ff0000".to_string()),
        ..ColorSet::default()
    });
    let tokens = resolve(Some(&theme), Variant::Dark);
    assert_eq!(tokens.colors.accent, "#ff0000");
    assert_eq!(tokens.colors.bg, "#121212");
    assert_eq!(tokens.colors.surface, "#1e1e1e");
    assert_eq!(tokens.colors.text, "#f2f2f2");
    assert_eq!(tokens.colors.text_dim, "#a0a0a0");
    assert_eq!(tokens.colors.favorite, "#ffcf5c");
    assert_eq!(tokens.font_family, "Inter");
    assert_eq!(f64::from_bits(tokens.scale_bits), 1.0);
    assert_eq!(tokens.radius, 8);
    assert_eq!(tokens.sounds.move_sound, "");
    assert_eq!(tokens.sounds.select_sound, "");
    assert_eq!(tokens.sounds.back_sound, "");
}

#[test]
fn missing_variant_falls_back_to_default_requested_variant() {
    let theme = recolor(ColorSet {
        accent: Some("#ff0000".to_string()),
        bg: Some("#000000".to_string()),
        ..ColorSet::default()
    });
    let tokens = resolve(Some(&theme), Variant::Light);
    assert_eq!(tokens.colors.accent, "#3a5fd9");
    assert_eq!(tokens.colors.bg, "#f7f7f7");
}

#[test]
fn short_hex_colors_are_spread_and_alpha_dropped() {
    let theme = recolor(ColorSet {
        bg: Some("#abc".to_string()),
        surface: Some("#abcd".to_string()),
        text: Some("#11223344".to_string()),
        accent: Some("not-a-color".to_string()),
        ..ColorSet::default()
    });
    let tokens = resolve(Some(&theme), Variant::Dark);
    assert_eq!(tokens.colors.bg, "#aabbcc");
    assert_eq!(tokens.colors.surface, "#aabbcc");
    assert_eq!(tokens.colors.text, "#112233");
    assert_eq!(tokens.colors.accent, "not-a-color");
}

#[test]
fn default_theme_is_named_default_format_one() {
    let t = default_theme();
    assert_eq!(t.theme.name.as_deref(), Some("Default"));
    assert_eq!(t.theme.format_version, Some(1));
    let tokens = resolve(Some(&t), Variant::Dark);
    let none = resolve(None, Variant::Dark);
    assert_eq!(tokens.colors.bg, none.colors.bg);
    assert_eq!(tokens.colors.favorite, none.colors.favorite);
}

const DIR_SRC: &str = r##"
[theme]
name = "Dir"
format_version = 1

[sounds]
move = "/etc/passwd"
select = "../escape.wav"
back = "missing.wav"
"##;

#[test]
fn sound_paths_lists_move_select_back_in_order() {
    let ps = sound_paths(DIR_SRC).unwrap();
    assert_eq!(
        ps,
        vec![
            ("move".to_string(), "/etc/passwd".to_string()),
            ("select".to_string(), "../escape.wav".to_string()),
            ("back".to_string(), "missing.wav".to_string()),
        ]
    );
    assert!(sound_paths("[theme]\nname = \"X\"\n").is_none());
}

#[test]
fn validate_dir_catches_escape_paths_and_missing_files() {
    let issues = validate_dir(
        &Ok(DIR_SRC.to_string()),
        &Ok("/themes/dir".to_string()),
        &[None, None, None],
    );
    let escapes: Vec<&Issue> = issues
        .iter()
        .filter(|i| i.code == "path-escape" && i.severity == Severity::Error)
        .collect();
    assert!(
        escapes.len() >= 2,
        "expected at least two path-escape errors (absolute + `..`), got: {issues:?}"
    );
    assert_has_error(&issues, "missing-asset");
}

#[test]
fn validate_dir_catches_bad_sound_extension() {
    let src = r##"
[theme]
name = "Dir"
format_version = 1

[sounds]
move = "beep.txt"
"##;
    let issues = validate_dir(
        &Ok(src.to_string()),
        &Ok("/themes/dir".to_string()),
        &[Some("/themes/dir/beep.txt".to_string())],
    );
    assert_has_error(&issues, "bad-asset-format");
}

#[test]
fn validate_dir_accepts_valid_sound() {
    let src = r##"
[theme]
name = "Dir"
format_version = 1

[sounds]
move = "sounds/move.wav"
"##;
    let issues = validate_dir(
        &Ok(src.to_string()),
        &Ok("/themes/dir".to_string()),
        &[Some("/themes/dir/sounds/move.wav".to_string())],
    );
    assert!(
        issues.is_empty(),
        "valid sound reference should produce no issues, got: {issues:?}"
    );
}

#[test]
fn validate_dir_missing_manifest_is_error() {
    let issues = validate_dir(&Err("No such file or directory (os error 2)".to_string()), &Ok("/t".to_string()), &[]);
    assert_has_error(&issues, "missing-manifest");
    assert_eq!(
        issues[0].message,
        "cannot read `theme.toml`: No such file or directory (os error 2)"
    );
}

#[test]
fn symlinked_sound_outside_the_folder_is_an_escape() {
    let src = "[theme]\nname = \"Dir\"\nformat_version = 1\n[sounds]\nmove = \"link.wav\"\n";
    let issues = validate_dir(
        &Ok(src.to_string()),
        &Ok("/themes/dir".to_string()),
        &[Some("/themes/dir2/link.wav".to_string())],
    );
    assert_eq!(issues.len(), 1);
    assert_eq!(issues[0].code, "path-escape");
    assert_eq!(
        issues[0].message,
        "`sounds.move` resolves outside the theme folder: `link.wav`"
    );
}

#[test]
fn uncanonical_folder_is_reported_once() {
    let issues = validate_dir(&Ok(DIR_SRC.to_string()), &Err("denied".to_string()), &[]);
    assert_eq!(issues.len(), 1);
    assert_eq!(issues[0].code, "missing-asset");
    assert_eq!(issues[0].message, "cannot canonicalize theme dir: denied");
}

#[test]
fn parsed_document_is_validated_like_its_text() {
    let doc = TomlDoc {
        root: Some(vec![
            (
                "theme".to_string(),
                TomlTop::Table(vec![
                    ("name".to_string(), TomlItem::Str("T".to_string())),
                    ("format_version".to_string(), TomlItem::Int(1)),
                ]),
            ),
            ("shape".to_string(), TomlTop::Table(vec![("radius".to_string(), TomlItem::Int(-1))])),
            ("extra".to_string(), TomlTop::Other),
        ]),
    };
    let from_doc = validate_document(&doc);
    assert_has_error(&from_doc, "radius-negative");
    assert_has_warning(&from_doc, "unknown-key");
    let from_text = validate_manifest(
        "extra = 1\n[theme]\nname = \"T\"\nformat_version = 1\n[shape]\nradius = -1\n",
    );
    let codes = |v: &[Issue]| v.iter().map(|i| i.code.clone()).collect::<Vec<_>>();
    assert_eq!(codes(&from_doc).len(), codes(&from_text).len());
    assert!(validate_document(&TomlDoc { root: None })
        .iter()
        .any(|i| i.code == "unparseable-toml"));
}
