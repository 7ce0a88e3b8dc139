use relic::scan::archive::{rom_extensions, select_rom_entries, should_enumerate, ZipEntry};

#[test]
fn should_enumerate_true_for_mixed_extension_systems() {
    let snes = vec!["sfc".to_string(), "smc".to_string(), "zip".to_string()];
    assert!(should_enumerate(&snes));
}

#[test]
fn should_enumerate_false_for_archive_only_systems() {
    let arcade = vec!["zip".to_string(), "7z".to_string(), "chd".to_string()];
    assert!(!should_enumerate(&arcade));
}

#[test]
fn should_enumerate_false_without_zip() {
    let no_zip = vec!["sfc".to_string(), "smc".to_string()];
    assert!(!should_enumerate(&no_zip));
}

#[test]
fn rom_extensions_strips_archive_exts() {
    let exts = vec![
        "sfc".to_string(),
        "smc".to_string(),
        "zip".to_string(),
        "7z".to_string(),
    ];
    assert_eq!(
        rom_extensions(&exts),
        vec!["sfc".to_string(), "smc".to_string()]
    );
}

fn entry(name: &str, is_dir: bool) -> ZipEntry {
    ZipEntry {
        name: name.to_string(),
        is_dir,
    }
}

#[test]
fn list_rom_entries_finds_matching_extensions_only() {
    let entries = vec![
        entry("Game.sfc", false),
        entry("readme.txt", false),
        entry("sub/Other.sfc", false),
    ];
    let mut found = select_rom_entries(&entries, &["sfc".to_string()]);
    found.sort();
    assert_eq!(
        found,
        vec!["Game.sfc".to_string(), "sub/Other.sfc".to_string()]
    );
}

#[test]
fn list_rom_entries_skips_directories() {
    let entries = vec![entry("sub/", true), entry("sub/Game.sfc", false)];
    assert_eq!(
        select_rom_entries(&entries, &["sfc".to_string()]),
        vec!["sub/Game.sfc".to_string()]
    );
}

#[test]
fn list_rom_entries_empty_when_nothing_matches() {
    let entries = vec![entry("readme.txt", false)];
    assert!(select_rom_entries(&entries, &["sfc".to_string()]).is_empty());
}

#[test]
fn entry_extension_is_matched_case_insensitively() {
    let entries = vec![entry("GAME.SFC", false), entry("noext", false)];
    assert_eq!(
        select_rom_entries(&entries, &["sfc".to_string()]),
        vec!["GAME.SFC".to_string()]
    );
}
