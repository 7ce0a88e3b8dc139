use relic::emulators::{detect_emulators, emulator_search_paths, split_path_var};

#[test]
fn finds_nothing_on_empty_path() {
    assert!(detect_emulators("", &[]).is_empty());
}

#[test]
fn path_is_split_at_colons() {
    assert_eq!(split_path_var("/a:/b"), vec!["/a".to_string(), "/b".to_string()]);
    assert_eq!(split_path_var(""), vec!["".to_string()]);
    assert_eq!(split_path_var("/a::/b"), vec!["/a".to_string(), "".to_string(), "/b".to_string()]);
}

#[test]
fn finds_an_executable_present_on_path() {
    let files = vec!["/opt/bin/retroarch".to_string()];
    let found = detect_emulators("/opt/bin", &files);
    assert_eq!(found.len(), 1);
    assert_eq!(found[0].name, "RetroArch");
    assert_eq!(found[0].exec_path, "/opt/bin/retroarch");
}

#[test]
fn later_path_entries_are_found_too() {
    let files = vec!["/b/mgba".to_string()];
    let found = detect_emulators("/a:/b", &files);
    assert_eq!(found.len(), 1);
    assert_eq!(found[0].name, "mGBA");
}

#[test]
fn first_directory_and_stem_win() {
    let files = vec!["/b/mgba-qt".to_string(), "/a/mgba".to_string(), "/b/snes9x".to_string()];
    let found = detect_emulators("/a/:/b", &files);
    let names: Vec<(&str, &str)> = found.iter().map(|d| (d.name.as_str(), d.exec_path.as_str())).collect();
    assert_eq!(names, vec![("mGBA", "/a/mgba"), ("Snes9x", "/b/snes9x")]);
}

#[test]
fn search_paths_list_every_candidate_in_order() {
    let paths = emulator_search_paths("/x");
    assert_eq!(paths[0], "/x/retroarch");
    assert_eq!(paths.len(), 9);
    assert!(paths.contains(&"/x/PPSSPPQt".to_string()));
}
