use relic::metadata::dat::{dat_tally, entry_crc, entry_title, parse_dat, DatError};
use relic::metadata::gamelist::{
    export_gamelist_xml, export_path, normalize_rel_path, parse_gamelist, ExportRow,
};

const SAMPLE_DAT: &str = r#"<?xml version="1.0"?>
<!DOCTYPE datafile PUBLIC "-//Logiqx//DTD ROM Management Datafile//EN" "http://www.logiqx.com/Dats/datafile.dtd">
<datafile>
    <header>
        <name>Nintendo - Super Nintendo Entertainment System</name>
    </header>
    <game name="Super Mario World (USA)">
        <description>Super Mario World (USA)</description>
        <rom name="Super Mario World (USA).sfc" size="524288" crc="B19ED489" md5="cdd3c8c8"/>
    </game>
    <game name="No Hash Game (USA)">
        <rom name="No Hash Game (USA).sfc" size="1024"/>
    </game>
</datafile>"#;

#[test]
fn parses_sample_dat_with_crc_and_description() {
    let entries = parse_dat(SAMPLE_DAT).unwrap();
    assert_eq!(entries.len(), 2);
    assert_eq!(entries[0].name, "Super Mario World (USA)");
    assert_eq!(
        entries[0].description.as_deref(),
        Some("Super Mario World (USA)")
    );
    assert_eq!(entries[0].roms.len(), 1);
    assert_eq!(entries[0].roms[0].crc.as_deref(), Some("b19ed489"));
    assert_eq!(entries[0].roms[0].size, Some(524288));
    assert_eq!(entries[1].roms[0].crc, None);
}

#[test]
fn machine_tag_is_accepted_like_game() {
    let xml = r#"<datafile><machine name="pacman"><rom name="pacman.bin" crc="12345678"/></machine></datafile>"#;
    let entries = parse_dat(xml).unwrap();
    assert_eq!(entries.len(), 1);
    assert_eq!(entries[0].name, "pacman");
}

#[test]
fn unknown_elements_and_missing_name_are_tolerated() {
    let xml = r#"<datafile>
            <header><name>Some DAT</name><future><nested>x</nested></future></header>
            <game><rom name="no name attr" crc="deadbeef"/></game>
            <game name="Valid"><rom name="v.rom" crc="cafe"/></game>
        </datafile>"#;
    let entries = parse_dat(xml).unwrap();
    assert_eq!(entries.len(), 1);
    assert_eq!(entries[0].name, "Valid");
    assert_eq!(entries[0].roms[0].crc.as_deref(), Some("0000cafe"));
}

#[test]
fn dat_malformed_xml_is_an_error() {
    assert!(parse_dat("<datafile><game name=\"x\"").is_err());
}

#[test]
fn dat_error_message_names_the_file_kind() {
    let e = DatError::Xml("boom".to_string());
    assert_eq!(e.message(), "malformed DAT file: boom");
}

#[test]
fn entry_crc_and_title_prefer_first_hash_and_description() {
    let entries = parse_dat(SAMPLE_DAT).unwrap();
    assert_eq!(entry_crc(&entries[0]).as_deref(), Some("b19ed489"));
    assert_eq!(entry_crc(&entries[1]), None);
    assert_eq!(entry_title(&entries[0]), "Super Mario World (USA)");
    assert_eq!(entry_title(&entries[1]), "No Hash Game (USA)");
}

#[test]
fn invalid_crc_and_size_are_dropped() {
    let xml = r#"<datafile><game name="g"><rom name="a" size="big" crc="xyz"/></game></datafile>"#;
    let entries = parse_dat(xml).unwrap();
    assert_eq!(entries[0].roms[0].size, None);
    assert_eq!(entries[0].roms[0].crc, None);
}

#[test]
fn skips_unknown_elements_and_decodes_entities() {
    let xml = r#"<?xml version="1.0"?>
            <gameList>
                <game>
                    <path>./Foo &amp; Bar.zip</path>
                    <name>Foo &amp; Bar</name>
                    <futureField><nested>ignored</nested></futureField>
                    <rating>0.8</rating>
                    <favorite>true</favorite>
                </game>
            </gameList>"#;
    let entries = parse_gamelist(xml).unwrap();
    assert_eq!(entries.len(), 1);
    let e = &entries[0];
    assert_eq!(e.path, "./Foo & Bar.zip");
    assert_eq!(e.name.as_deref(), Some("Foo & Bar"));
    assert_eq!(e.rating.as_deref().map(|r| r.parse::<f64>().unwrap()), Some(0.8));
    assert!(e.favorite);
}

#[test]
fn skips_entries_missing_path() {
    let xml = r#"<gameList>
                <game>
                    <name>No Path Here</name>
                </game>
                <game>
                    <path>./ok.sfc</path>
                    <name>OK</name>
                </game>
            </gameList>"#;
    let entries = parse_gamelist(xml).unwrap();
    assert_eq!(entries.len(), 1);
    assert_eq!(entries[0].path, "./ok.sfc");
}

#[test]
fn ignores_games_outside_gamelist_element() {
    let xml = r#"<root>
                <game><path>./stray.sfc</path></game>
                <gameList>
                    <game><path>./real.sfc</path></game>
                </gameList>
            </root>"#;
    let entries = parse_gamelist(xml).unwrap();
    assert_eq!(entries.len(), 1);
    assert_eq!(entries[0].path, "./real.sfc");
}

#[test]
fn gamelist_malformed_xml_is_an_error() {
    for xml in [
        "<gameList><game><path>./a.sfc</path></game></gamelistX>",
        "<gameList><game><path>./a.sfc</pathX></game></gameList>",
        "<gameList><game attr=\"unterminated><path>./a.sfc</path></game></gameList>",
    ] {
        assert!(parse_gamelist(xml).is_err(), "expected error for {xml}");
    }
}

#[test]
fn unparseable_rating_is_dropped() {
    let xml = "<gameList><game><path>./a.sfc</path><rating>high</rating></game></gameList>";
    let entries = parse_gamelist(xml).unwrap();
    assert_eq!(entries[0].rating, None);
}

#[test]
fn rel_paths_are_joined_to_the_gamelist_directory() {
    assert_eq!(normalize_rel_path("snes", "./Game.sfc"), "snes/Game.sfc");
    assert_eq!(normalize_rel_path("", " ./sub\\Game.sfc "), "sub/Game.sfc");
    assert_eq!(normalize_rel_path("/snes/", "Game.sfc"), "snes/Game.sfc");
}

#[test]
fn export_path_inverts_normalize() {
    assert_eq!(export_path("snes", "snes/Game.sfc"), "./Game.sfc");
    assert_eq!(export_path("snes", "nes/Game.nes"), "./nes/Game.nes");
    let rel = normalize_rel_path("snes", "./sub/Game.sfc");
    assert_eq!(export_path("snes", &rel), "./sub/Game.sfc");
}

fn row(rel: &str, name: &str) -> ExportRow {
    ExportRow {
        rel_path: rel.to_string(),
        canonical_name: name.to_string(),
        title: None,
        desc: None,
        genre: None,
        developer: None,
        publisher: None,
        release_date: None,
        players: None,
        rating: None,
        favorite: false,
        hidden: false,
    }
}

#[test]
fn export_round_trips_an_imported_entry() {
    let mut r = row("snes/Super Mario World (USA).sfc", "Super Mario World (USA)");
    r.title = Some("Super Mario World".to_string());
    r.genre = Some("Platform".to_string());
    r.release_date = Some("19910821T000000".to_string());
    r.desc = Some("Mario & Luigi vs <Bowser>".to_string());
    r.rating = Some("0.8".to_string());
    r.favorite = true;
    let xml = export_gamelist_xml(&[r], "snes");
    let entries = parse_gamelist(&xml).unwrap();
    assert_eq!(entries.len(), 1);
    let e = &entries[0];
    assert_eq!(e.path, "./Super Mario World (USA).sfc");
    assert_eq!(e.name.as_deref(), Some("Super Mario World"));
    assert_eq!(e.genre.as_deref(), Some("Platform"));
    assert_eq!(e.releasedate.as_deref(), Some("19910821T000000"));
    assert_eq!(e.desc.as_deref(), Some("Mario & Luigi vs <Bowser>"));
    assert_eq!(e.rating.as_deref(), Some("0.8"));
    assert!(e.favorite);
    assert!(!e.hidden);
}

#[test]
fn export_falls_back_to_canonical_name_without_metadata() {
    let xml = export_gamelist_xml(&[row("snes/Plain.sfc", "Plain Game")], "snes");
    let entries = parse_gamelist(&xml).unwrap();
    assert_eq!(entries[0].name.as_deref(), Some("Plain Game"));
    assert_eq!(entries[0].genre, None);
}

#[test]
fn exported_fields_read_back_trimmed_with_flags() {
    let mut r = row("snes/Game.sfc", "Game");
    r.title = Some("  Spaced <Title> & Co  ".to_string());
    r.desc = Some("   ".to_string());
    r.rating = Some("not a number".to_string());
    r.players = Some("1-2".to_string());
    r.favorite = true;
    let xml = export_gamelist_xml(&[r], "snes");
    let entries = parse_gamelist(&xml).unwrap();
    assert_eq!(entries.len(), 1);
    let e = &entries[0];
    assert_eq!(e.path, "./Game.sfc");
    assert_eq!(e.name.as_deref(), Some("Spaced <Title> & Co"));
    assert_eq!(e.desc, None);
    assert_eq!(e.rating, None);
    assert_eq!(e.players.as_deref(), Some("1-2"));
    assert!(e.favorite);
    assert!(!e.hidden);
}

#[test]
fn exported_text_keeps_inner_line_breaks_and_quotes() {
    let mut r = row("Game.sfc", "Game");
    r.desc = Some("\tline one\r\nline \"two\" 'x'\t".to_string());
    let xml = export_gamelist_xml(&[r], "");
    let entries = parse_gamelist(&xml).unwrap();
    assert_eq!(entries[0].desc.as_deref(), Some("line one\r\nline \"two\" 'x'"));
}

#[test]
fn dat_tally_counts_matched_and_unmatched() {
    let s = dat_tally(&[true, false, true, false, false]);
    assert_eq!((s.matched, s.unmatched), (2, 3));
}
