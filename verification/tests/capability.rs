#[test]
fn capability_id_is_retroachievements() {
    assert_eq!(relic::retroachievements::capability_id(), "retroachievements");
}

#[test]
fn capability_id_is_scraper() {
    assert_eq!(relic::scraper::capability_id(), "scraper");
}

#[test]
fn capability_id_is_sync() {
    assert_eq!(relic::sync::capability_id(), "sync");
}

#[test]
fn capability_id_is_themes() {
    assert_eq!(relic::themes::capability_id(), "themes");
}

#[test]
fn version_is_the_engine_version() {
    assert_eq!(relic::version(), "0.1.0");
}
