use relic::scan::hash::{bytes_to_hex, content_md5, hash_bytes, hex8, tally, Crc32Hasher};
use relic::scan::{
    display_name, file_kind, find_system_dir, game_name, m3u_disc_refs, no_system_dirs_message,
    progress_due, quick_key, sort_key, zip_items, FileKind, IndexedFile, ItemAction, ScanPass,
};

fn row(rel: &str, inner: Option<&str>, key: &str) -> IndexedFile {
    IndexedFile {
        rel_path: rel.to_string(),
        in_archive: inner.map(|s| s.to_string()),
        quick_key: key.to_string(),
    }
}

#[test]
fn quick_key_is_size_colon_mtime() {
    assert_eq!(quick_key(524288, 1_700_000_000), "524288:1700000000");
    assert_eq!(quick_key(0, -5), "0:-5");
}

#[test]
fn names_come_from_the_file_stem() {
    assert_eq!(display_name("snes/Super Mario World (USA).sfc"), "Super Mario World (USA)");
    assert_eq!(display_name("noext"), "noext");
    assert_eq!(game_name("snes/pack.zip", &Some("Game.sfc".into()), true), "Game");
    assert_eq!(game_name("snes/Single.zip", &Some("inner.sfc".into()), false), "Single");
}

#[test]
fn sort_key_drops_one_leading_article() {
    assert_eq!(sort_key("The Legend of Zelda"), "legend of zelda");
    assert_eq!(sort_key("A Boy and His Blob"), "boy and his blob");
    assert_eq!(sort_key("An American Tail"), "american tail");
    assert_eq!(sort_key("Theme Park"), "theme park");
}

#[test]
fn system_folder_matches_case_insensitively() {
    let names = vec!["NES".to_string(), "Snes".to_string()];
    assert_eq!(find_system_dir(&names, "snes"), Some(1));
    assert_eq!(find_system_dir(&names, "gb"), None);
}

#[test]
fn no_matching_system_dirs_emits_warning() {
    let msg = no_system_dirs_message("/roms", &["nes".to_string(), "snes".to_string()]);
    assert!(msg.contains("/roms"), "{msg}");
    assert!(msg.contains("nes, snes"), "{msg}");
}

#[test]
fn file_kinds_follow_the_system_extensions() {
    let exts = vec!["sfc".to_string(), "zip".to_string()];
    assert_eq!(file_kind("a/Game.SFC", &exts, true), FileKind::Plain);
    assert_eq!(file_kind("a/pack.zip", &exts, true), FileKind::Zip);
    assert_eq!(file_kind("a/pack.zip", &exts, false), FileKind::Plain);
    assert_eq!(file_kind("a/readme.txt", &exts, true), FileKind::Skip);
}

#[test]
fn zip_items_split_multi_entry_archives() {
    let many = zip_items(0, "snes/pack.zip", Some(vec!["A.sfc".into(), "B.sfc".into()]));
    assert_eq!(many.len(), 2);
    assert!(many.iter().all(|i| i.multi_entry));
    assert_eq!(many[1].in_archive.as_deref(), Some("B.sfc"));
    let one = zip_items(0, "snes/one.zip", Some(vec!["A.sfc".into()]));
    assert_eq!(one.len(), 1);
    assert!(!one[0].multi_entry);
    let opaque = zip_items(0, "snes/bad.zip", None);
    assert_eq!(opaque.len(), 1);
    assert_eq!(opaque[0].in_archive, None);
    let empty = zip_items(0, "snes/none.zip", Some(vec![]));
    assert_eq!(empty[0].in_archive, None);
}

#[test]
fn m3u_playlist_lists_its_discs() {
    let refs = m3u_disc_refs("# comment\r\nDisc 1.cue\n\n  sub\\Disc 2.cue  \n");
    assert_eq!(refs, vec!["Disc 1.cue".to_string(), "sub/Disc 2.cue".to_string()]);
}

#[test]
fn progress_is_reported_every_so_often() {
    assert!(progress_due(0, 1000));
    assert!(!progress_due(1, 1000));
    assert!(progress_due(200, 1000));
    assert!(progress_due(999, 1000));
}

#[test]
fn rescan_is_incremental_and_detects_removal() {
    let mut pass = ScanPass::new(vec![
        row("snes/A.sfc", None, "1:1"),
        row("snes/B.sfc", None, "2:2"),
        row("snes/C.sfc", None, "3:3"),
    ]);
    assert_eq!(pass.observe(row("snes/A.sfc", None, "1:1")), ItemAction::Unchanged);
    assert_eq!(pass.observe(row("snes/B.sfc", None, "9:9")), ItemAction::Refresh);
    assert_eq!(pass.observe(row("snes/D.sfc", None, "4:4")), ItemAction::Insert);
    assert_eq!(pass.stale_rows(), vec![2]);
    let s = pass.summary();
    assert_eq!((s.added, s.removed, s.unchanged), (1, 1, 1));
    assert_eq!(pass.rows()[1].quick_key, "9:9");
}

#[test]
fn rescan_multi_entry_zip_plus_plain_file_is_unchanged_when_untouched() {
    let rows = vec![
        row("snes/pack.zip", Some("A.sfc"), "5:5"),
        row("snes/pack.zip", Some("B.sfc"), "5:5"),
        row("snes/Plain.sfc", None, "6:6"),
    ];
    let mut pass = ScanPass::new(rows);
    assert_eq!(pass.observe(row("snes/pack.zip", Some("A.sfc"), "5:5")), ItemAction::Unchanged);
    assert_eq!(pass.observe(row("snes/pack.zip", Some("B.sfc"), "5:5")), ItemAction::Unchanged);
    assert_eq!(pass.observe(row("snes/Plain.sfc", None, "6:6")), ItemAction::Unchanged);
    assert!(pass.stale_rows().is_empty());
    let s = pass.summary();
    assert_eq!((s.added, s.removed, s.unchanged), (0, 0, 3));
}

#[test]
fn deleting_multi_entry_zip_removes_all_inner_games() {
    let rows = vec![
        row("snes/pack.zip", Some("A.sfc"), "5:5"),
        row("snes/pack.zip", Some("B.sfc"), "5:5"),
        row("snes/Plain.sfc", None, "6:6"),
    ];
    let mut pass = ScanPass::new(rows);
    pass.observe(row("snes/Plain.sfc", None, "6:6"));
    assert_eq!(pass.stale_rows(), vec![0, 1]);
}

#[test]
fn hash_file_matches_known_vectors() {
    let mut h = Crc32Hasher::new();
    h.update(b"relic ");
    h.update(b"test fixture");
    assert_eq!(h.finish(), "1200b7b5");
    let empty = Crc32Hasher::new();
    assert_eq!(empty.finish(), "00000000");
}

#[test]
fn hex_formatting() {
    assert_eq!(hex8(0xcafe), "0000cafe");
    assert_eq!(hex8(u32::MAX), "ffffffff");
    assert_eq!(bytes_to_hex(&[0x00, 0xab, 0x10]), "00ab10");
}

#[test]
fn tally_counts_hashed_and_failed() {
    let s = tally(&[true, false, true]);
    assert_eq!((s.hashed, s.skipped, s.failed), (2, 0, 1));
}

#[test]
fn md5_and_crc32_of_known_bytes() {
    assert_eq!(content_md5(b"abc"), "900150983cd24fb0d6963f7d28e17f72");
    assert_eq!(content_md5(b""), "d41d8cd98f00b204e9800998ecf8427e");
    let (crc, md5) = hash_bytes(b"abc");
    assert_eq!(crc, "352441c2");
    assert_eq!(md5, "900150983cd24fb0d6963f7d28e17f72");
}
