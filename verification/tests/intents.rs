use relic::ffi::{intent_templates_for_system, resolve_intent};
use relic::intents::{
    applies_to, find_placeholders, resolve, validate, DataMode, Extra, ExtraType, IntentTemplate,
    LaunchContext, PerSystemOverride,
};

fn template(id: &str, action: &str, data_mode: DataMode, systems: &[&str]) -> IntentTemplate {
    IntentTemplate {
        id: id.to_string(),
        display_name: "Foo".to_string(),
        package: "com.example.foo".to_string(),
        activity: "com.example.foo.MainActivity".to_string(),
        action: action.to_string(),
        data_mode,
        data_extra_name: if data_mode == DataMode::Extra {
            Some("ROM".to_string())
        } else {
            None
        },
        data_mime_type: None,
        flags: vec![],
        min_version_code: None,
        extras: vec![],
        per_system: vec![],
        systems: systems.iter().map(|s| s.to_string()).collect(),
    }
}

fn extra(name: &str, extra_type: ExtraType, value: &str) -> Extra {
    Extra {
        name: name.to_string(),
        extra_type,
        value: value.to_string(),
    }
}

const VIEW: &str = "android.intent.action.VIEW";
const MAIN: &str = "android.intent.action.MAIN";

#[test]
fn mismatched_id_is_rejected() {
    let t = template("foo", VIEW, DataMode::Data, &["snes"]);
    let errors = validate(&t, "bar", &[]);
    assert!(errors.iter().any(|e| e.contains("does not match")));
}

#[test]
fn core_placeholder_outside_retroarch_is_rejected() {
    let mut t = template("foo", MAIN, DataMode::Extra, &["snes"]);
    t.extras.push(extra("ROM", ExtraType::String, "{core}"));
    let errors = validate(&t, "foo", &[]);
    assert!(errors.iter().any(|e| e.contains("{core}")));
}

#[test]
fn write_permission_flag_is_forbidden() {
    let mut t = template("foo", VIEW, DataMode::Data, &["snes"]);
    t.flags.push("FLAG_GRANT_WRITE_URI_PERMISSION".to_string());
    let errors = validate(&t, "foo", &[]);
    assert!(errors.iter().any(|e| e.contains("forbidden")));
}

#[test]
fn unknown_placeholder_is_rejected() {
    let mut t = template("foo", MAIN, DataMode::Extra, &["snes"]);
    t.extras.push(extra("ROM", ExtraType::String, "{bogus}"));
    let errors = validate(&t, "foo", &[]);
    assert!(errors.iter().any(|e| e.contains("unknown placeholder")));
}

#[test]
fn bool_extra_requires_true_or_false() {
    let mut t = template("foo", MAIN, DataMode::Extra, &["snes"]);
    t.extras.push(extra("FLAG", ExtraType::Bool, "yes"));
    let errors = validate(&t, "foo", &[]);
    assert!(errors.iter().any(|e| e.contains("\"true\"/\"false\"")));
}

#[test]
fn extra_mode_without_rom_carrying_extra_is_rejected() {
    let mut t = template("foo", MAIN, DataMode::Extra, &["snes"]);
    t.extras.push(extra("SOMETHING_ELSE", ExtraType::String, "fixed"));
    let errors = validate(&t, "foo", &[]);
    assert!(errors.iter().any(|e| e.contains("no [[extras]] entry")));
}

#[test]
fn unknown_per_system_slug_is_rejected() {
    let mut t = template("foo", VIEW, DataMode::Data, &["snes"]);
    t.per_system.push((
        "not_a_real_slug".to_string(),
        PerSystemOverride {
            action: Some(MAIN.to_string()),
            ..PerSystemOverride::default()
        },
    ));
    let errors = validate(&t, "foo", &["snes".to_string()]);
    assert!(errors.iter().any(|e| e.contains("not a known system slug")));
}

#[test]
fn literal_braces_are_not_placeholders() {
    let none: Vec<Vec<char>> = Vec::new();
    assert_eq!(find_placeholders(&"{{literal}}".chars().collect::<Vec<_>>()), none);
    assert_eq!(
        find_placeholders(&"{rom_uri}".chars().collect::<Vec<_>>()),
        vec!["rom_uri".chars().collect::<Vec<_>>()]
    );
}

#[test]
fn empty_systems_is_rejected() {
    let t = template("foo", VIEW, DataMode::Data, &[]);
    let errors = validate(&t, "foo", &["snes".to_string()]);
    assert!(errors.iter().any(|e| e.contains("systems must not be empty")));
}

#[test]
fn unknown_systems_entry_is_rejected() {
    let t = template("foo", VIEW, DataMode::Data, &["not_a_real_slug"]);
    let errors = validate(&t, "foo", &["snes".to_string()]);
    assert!(errors
        .iter()
        .any(|e| e.contains("systems entry 'not_a_real_slug'")));
}

#[test]
fn wildcard_systems_cannot_mix_with_slugs() {
    let t = template("foo", VIEW, DataMode::Data, &["*", "snes"]);
    let errors = validate(&t, "foo", &["snes".to_string()]);
    assert!(errors.iter().any(|e| e.contains("must be the only entry")));
}

#[test]
fn valid_template_has_no_findings() {
    let mut t = template("foo", MAIN, DataMode::Extra, &["snes"]);
    t.extras.push(extra("ROM", ExtraType::String, "{rom_uri}"));
    t.extras.push(extra("FULLSCREEN", ExtraType::Bool, "true"));
    t.extras.push(extra("LEVEL", ExtraType::Int, "-3"));
    let errors = validate(&t, "foo", &["snes".to_string()]);
    assert!(errors.is_empty(), "{errors:?}");
}

#[test]
fn applies_to_wildcard_matches_any_system() {
    let t = template("foo", VIEW, DataMode::Data, &["*"]);
    assert!(applies_to(&t, "snes"));
    assert!(applies_to(&t, "n64"));
}

#[test]
fn applies_to_concrete_list_matches_only_listed_systems() {
    let t = template("foo", VIEW, DataMode::Data, &["psx"]);
    assert!(applies_to(&t, "psx"));
    assert!(!applies_to(&t, "snes"));
}

fn retroarch() -> IntentTemplate {
    let mut t = template("retroarch", MAIN, DataMode::Extra, &["*"]);
    t.display_name = "RetroArch".to_string();
    t.package = "com.retroarch".to_string();
    t.activity = "com.retroarch.browser.retroactivity.RetroActivityFuture".to_string();
    t.flags.push("FLAG_ACTIVITY_CLEAR_TOP".to_string());
    t.extras.push(extra("ROM", ExtraType::String, "{rom_uri}"));
    t.extras.push(extra("LIBRETRO", ExtraType::String, "{core}"));
    t.extras.push(extra("PATH_ECHO", ExtraType::String, "literal {{brace}} {rom_path}"));
    t
}

#[test]
fn resolve_substitutes_placeholders() {
    let t = retroarch();
    let ctx = LaunchContext {
        rom_uri: "content://com.relic/rom.zip",
        rom_path: "snes/game.zip",
        core: Some("/data/data/com.retroarch/cores/snes9x_libretro_android.so"),
    };
    let resolved = resolve(&t, "snes", &ctx);

    assert_eq!(resolved.package, "com.retroarch");
    assert_eq!(resolved.extras[0].value, "content://com.relic/rom.zip");
    assert_eq!(
        resolved.extras[1].value,
        "/data/data/com.retroarch/cores/snes9x_libretro_android.so"
    );
    assert_eq!(resolved.extras[2].value, "literal {brace} snes/game.zip");
    assert!(resolved.flags.iter().any(|f| f == "FLAG_ACTIVITY_CLEAR_TOP"));
    assert!(resolved
        .flags
        .iter()
        .any(|f| f == "FLAG_GRANT_READ_URI_PERMISSION"));
    assert!(resolved.flags.iter().any(|f| f == "FLAG_ACTIVITY_NEW_TASK"));
}

#[test]
fn resolve_applies_per_system_override() {
    let mut t = template("foo", VIEW, DataMode::Data, &["gamecube", "wii"]);
    t.extras.push(extra("DEFAULT", ExtraType::String, "base"));
    t.per_system.push((
        "wii".to_string(),
        PerSystemOverride {
            activity: Some("com.example.foo.WiiActivity".to_string()),
            extras: vec![extra("WII_ONLY", ExtraType::String, "{rom_uri}")],
            ..PerSystemOverride::default()
        },
    ));
    let ctx = LaunchContext {
        rom_uri: "content://x",
        rom_path: "wii/game.iso",
        core: None,
    };

    let base = resolve(&t, "gamecube", &ctx);
    assert_eq!(base.activity, "com.example.foo.MainActivity");
    assert_eq!(base.extras.len(), 1);
    assert_eq!(base.extras[0].name, "DEFAULT");

    let overridden = resolve(&t, "wii", &ctx);
    assert_eq!(overridden.activity, "com.example.foo.WiiActivity");
    assert_eq!(overridden.extras.len(), 1);
    assert_eq!(overridden.extras[0].name, "WII_ONLY");
    assert_eq!(overridden.extras[0].value, "content://x");
}

#[test]
fn missing_core_substitutes_empty_text() {
    let t = retroarch();
    let ctx = LaunchContext {
        rom_uri: "u",
        rom_path: "p",
        core: None,
    };
    let resolved = resolve(&t, "snes", &ctx);
    assert_eq!(resolved.extras[1].value, "");
}

fn templates() -> Vec<(String, IntentTemplate)> {
    vec![
        ("retroarch".to_string(), retroarch()),
        ("psxonly".to_string(), template("psxonly", VIEW, DataMode::Data, &["psx"])),
    ]
}

#[test]
fn intent_templates_for_system_filters_and_orders_by_builtin() {
    let snes = intent_templates_for_system(&templates(), "snes");
    assert_eq!(snes.len(), 1);
    assert_eq!(snes[0].id, "retroarch");
    assert_eq!(snes[0].display_name, "RetroArch");
    assert_eq!(snes[0].package, "com.retroarch");
    let psx = intent_templates_for_system(&templates(), "psx");
    let ids: Vec<&str> = psx.iter().map(|t| t.id.as_str()).collect();
    assert_eq!(ids, vec!["retroarch", "psxonly"]);
}

#[test]
fn resolve_intent_substitutes_and_reports_unknown_template() {
    let r = resolve_intent(&templates(), "retroarch", "snes", "content://rom", "snes/rom.sfc", Some("core.so")).unwrap();
    assert_eq!(r.package, "com.retroarch");
    assert_eq!(r.data_mode, "extra");
    assert_eq!(r.data_extra_name.as_deref(), Some("ROM"));
    assert_eq!(r.extras[0].extra_type, "string");
    assert_eq!(r.extras[0].value, "content://rom");
    assert_eq!(r.extras[1].value, "core.so");
    assert!(resolve_intent(&templates(), "nope", "snes", "u", "p", None).is_none());
    let d = resolve_intent(&templates(), "psxonly", "psx", "u", "p", None).unwrap();
    assert_eq!(d.data_mode, "data");
}

#[test]
fn substituted_values_are_not_rescanned() {
    let t = retroarch();
    let ctx = LaunchContext {
        rom_uri: "content://x/{rom_path}",
        rom_path: "{{odd}}",
        core: None,
    };
    let resolved = resolve(&t, "snes", &ctx);
    assert_eq!(resolved.extras[0].value, "content://x/{rom_path}");
    assert_eq!(resolved.extras[1].value, "");
    assert_eq!(resolved.extras[2].value, "literal {brace} {{odd}}");
}
