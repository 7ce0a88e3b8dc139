use relic::media::{
    content_hash, discover_for_rom, keep_existing, make_thumbnail, needs_downscale, rom_stem_lower,
    system_of_rel_path, thumb_rel_path, Discovered, KindListings, MediaKind, MediaSource, RefCheck,
};

fn listings(native_boxart: &[&str], es_de_boxart: &[&str]) -> Vec<KindListings> {
    let mut v = Vec::new();
    v.push(KindListings {
        native: native_boxart.iter().map(|s| s.to_string()).collect(),
        es_de: es_de_boxart.iter().map(|s| s.to_string()).collect(),
    });
    for _ in 0..3 {
        v.push(KindListings { native: vec![], es_de: vec![] });
    }
    v
}

fn discover(native: &[&str], es_de: &[&str], refs: &[RefCheck], same: &[&str]) -> Vec<Discovered> {
    let same: Vec<String> = same.iter().map(|s| s.to_string()).collect();
    discover_for_rom("game a", &listings(native, es_de), refs, &same)
}

#[test]
fn tier_priority_and_tiebreak() {
    let same = ["Game A.sfc", "Game A.png"];
    let d = discover(&[], &[], &[], &same);
    assert_eq!(d.len(), 1);
    assert_eq!(d[0].source.as_str(), "same_folder");

    let d = discover(&[], &["game a.png"], &[], &same);
    assert_eq!(d[0].source.as_str(), "es_de", "case-insensitive es_de beats same_folder");

    let d = discover(&["GAME A.webp"], &["game a.png"], &[], &same);
    assert_eq!(d[0].source.as_str(), "relic_native");

    let d = discover(&["GAME A.webp", "Game A.png"], &["game a.png"], &[], &same);
    assert!(d[0].name.ends_with("Game A.png"));
}

#[test]
fn gamelist_reference_sits_between_native_and_es_de() {
    let refs = vec![RefCheck {
        kind: MediaKind::Boxart,
        path: "images/a.png".to_string(),
        is_file: true,
    }];
    let d = discover(&[], &["game a.png"], &refs, &[]);
    assert_eq!(d[0].source, MediaSource::Gamelist);
    assert_eq!(d[0].name, "images/a.png");
    let missing = vec![RefCheck {
        kind: MediaKind::Boxart,
        path: "images/a.png".to_string(),
        is_file: false,
    }];
    let d = discover(&[], &["game a.png"], &missing, &[]);
    assert_eq!(d[0].source, MediaSource::EsDe);
}

#[test]
fn media_kind_names() {
    assert_eq!(MediaKind::Boxart.as_str(), "boxart");
    assert!(MediaKind::Boxart.is_image());
    assert!(!MediaKind::Video.is_image());
}

#[test]
fn thumbnail_cache_is_content_addressed_and_downscaled() {
    assert_eq!(
        content_hash(b"abc"),
        "ba7816bf8f01cfea414140de5dae2223b00361a396177a9cb410ff61f20015ad"
    );
    assert_eq!(thumb_rel_path("ba7816bf"), "ba/ba7816bf.png");
    assert!(needs_downscale(1024, 10));
    assert!(!needs_downscale(512, 512));

    let img = image::RgbaImage::from_pixel(1024, 512, image::Rgba([10, 20, 30, 255]));
    let mut png = std::io::Cursor::new(Vec::new());
    img.write_to(&mut png, image::ImageFormat::Png).unwrap();
    let thumb = make_thumbnail(png.get_ref()).unwrap();
    assert_eq!(&thumb[..8], &[137u8, 80, 78, 71, 13, 10, 26, 10]);
    assert_eq!(&thumb[16..24], &[0u8, 0, 2, 0, 0, 0, 1, 0]);
    let back = image::load_from_memory(&thumb).unwrap();
    assert_eq!((back.width(), back.height()), (512, 256));
    assert!(make_thumbnail(b"not an image").is_err());
}

#[test]
fn cached_media_is_kept_only_with_its_thumbnail() {
    assert!(keep_existing(true, true, true));
    assert!(!keep_existing(true, true, false));
    assert!(keep_existing(true, false, false));
    assert!(!keep_existing(false, false, true));
}

#[test]
fn rom_paths() {
    assert_eq!(rom_stem_lower("snes/Game A.sfc").as_deref(), Some("game a"));
    assert_eq!(system_of_rel_path("snes/sub/Game.sfc"), "snes");
}

#[test]
fn thumbnail_of_undecodable_bytes_is_the_decoder_message() {
    let expected = image::load_from_memory(b"not an image").unwrap_err().to_string();
    assert_eq!(make_thumbnail(b"not an image").unwrap_err(), expected);
}

#[test]
fn small_thumbnail_keeps_its_size() {
    let img = image::RgbImage::from_pixel(40, 30, image::Rgb([1, 2, 3]));
    let mut png = std::io::Cursor::new(Vec::new());
    img.write_to(&mut png, image::ImageFormat::Png).unwrap();
    let thumb = make_thumbnail(png.get_ref()).unwrap();
    assert_eq!(&thumb[16..24], &[0u8, 0, 0, 40, 0, 0, 0, 30]);
    let back = image::load_from_memory(&thumb).unwrap();
    assert_eq!((back.width(), back.height()), (40, 30));
}

#[test]
fn tall_thumbnail_fits_its_height() {
    let img = image::RgbaImage::from_pixel(100, 2048, image::Rgba([9, 9, 9, 255]));
    let mut png = std::io::Cursor::new(Vec::new());
    img.write_to(&mut png, image::ImageFormat::Png).unwrap();
    let thumb = make_thumbnail(png.get_ref()).unwrap();
    let back = image::load_from_memory(&thumb).unwrap();
    assert_eq!((back.width(), back.height()), (25, 512));
}
