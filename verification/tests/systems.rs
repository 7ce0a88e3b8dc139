use relic::systems::{builtin_systems, check_system, sort_defs, SystemDef};

#[test]
fn builtins_parse_and_are_unique() {
    let defs = builtin_systems().unwrap();
    assert!(defs.len() >= 8);
    let mut slugs: Vec<_> = defs.iter().map(|d| d.slug.as_str()).collect();
    slugs.sort();
    slugs.dedup();
    assert_eq!(slugs.len(), defs.len(), "duplicate system slug");
    for def in &defs {
        assert!(
            def.extensions
                .iter()
                .all(|e| e.to_lowercase() == *e && !e.starts_with('.')),
            "{}: extensions must be lowercase without dots",
            def.slug
        );
    }
}

fn def(slug: &str, order: i64, exts: &[&str]) -> SystemDef {
    SystemDef {
        slug: slug.to_string(),
        name: slug.to_uppercase(),
        sort_order: order,
        extensions: exts.iter().map(|e| e.to_string()).collect(),
        ra_console_id: None,
        default_core: None,
        theme_key: None,
    }
}

#[test]
fn builtins_are_sorted_by_order_then_name() {
    let defs = builtin_systems().unwrap();
    for w in defs.windows(2) {
        assert!(
            (w[0].sort_order, w[0].name.as_str()) <= (w[1].sort_order, w[1].name.as_str()),
            "{} before {}",
            w[0].slug,
            w[1].slug
        );
    }
}

#[test]
fn definition_without_extensions_is_rejected() {
    let err = check_system(def("snes", 1, &[])).unwrap_err();
    assert_eq!(
        err.message(),
        "invalid system definition snes: at least one extension is required"
    );
    assert!(check_system(def("snes", 1, &["sfc", "zip"])).is_ok());
}

#[test]
fn sort_defs_orders_ties_by_name() {
    let sorted = sort_defs(vec![def("nes", 2, &["nes"]), def("gb", 2, &["gb"]), def("snes", 1, &["sfc"])]);
    let slugs: Vec<&str> = sorted.iter().map(|d| d.slug.as_str()).collect();
    assert_eq!(slugs, vec!["snes", "gb", "nes"]);
}
