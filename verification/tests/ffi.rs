use relic::api::{GameRow, SystemRow};
use relic::events::Event;
use relic::ffi::{
    forward_event, game_info, listener_call, pending_match_info, system_info, theme_colors,
    EventListener, ListenerCall, RelicError,
};
use relic::scraper::pipeline::Confidence;
use relic::scraper::store::StoredMatch;
use std::cell::RefCell;

#[test]
fn theme_colors_resolves_dark_and_light_variants_distinctly() {
    let dark = theme_colors(true);
    let light = theme_colors(false);
    assert!(dark.bg.starts_with('#'));
    assert!(light.bg.starts_with('#'));
    assert_ne!(dark.bg, light.bg);
    assert_eq!(dark.bg, "#121212");
    assert_eq!(light.accent, "#3a5fd9");
    assert_eq!(dark.font_family, "Inter");
    assert_eq!(dark.radius, 8);
}

#[derive(Default)]
struct Recorder {
    calls: RefCell<Vec<String>>,
}

impl EventListener for Recorder {
    fn on_scan_progress(&self, done: u64, total: u64) {
        self.calls.borrow_mut().push(format!("progress {done}/{total}"));
    }

    fn on_warning(&self, code: String, context: String) {
        self.calls.borrow_mut().push(format!("warning {code} {context}"));
    }
}

#[test]
fn only_progress_and_warnings_reach_the_listener() {
    let r = Recorder::default();
    forward_event(&r, Event::ScanStarted { library_id: 1 });
    forward_event(&r, Event::ScanProgress { library_id: 1, done: 2, total: 5 });
    forward_event(&r, Event::Warning { code: "scan.archive".into(), context: "x.zip".into() });
    forward_event(&r, Event::GamesChanged { system_id: 3 });
    assert_eq!(
        *r.calls.borrow(),
        vec!["progress 2/5".to_string(), "warning scan.archive x.zip".to_string()]
    );
    assert_eq!(
        listener_call(Event::ScanProgress { library_id: 9, done: 1, total: 1 }),
        Some(ListenerCall::ScanProgress { done: 1, total: 1 })
    );
}

#[test]
fn records_carry_the_row_fields() {
    let s = system_info(SystemRow { id: 1, slug: "snes".into(), name: "SNES".into(), game_count: 4 });
    assert_eq!((s.id, s.slug.as_str(), s.name.as_str(), s.game_count), (1, "snes", "SNES", 4));
    let g = game_info(GameRow {
        id: 7,
        system_slug: "nes".into(),
        name: "Zelda".into(),
        favorite: true,
        rel_path: Some("nes/zelda.nes".into()),
    });
    assert_eq!(g.rel_path.as_deref(), Some("nes/zelda.nes"));
    let p = pending_match_info(StoredMatch {
        game_id: 7,
        provider_id: "screenscraper".into(),
        external_id: "42".into(),
        confidence: Confidence::Medium,
        confirmed: false,
    });
    assert_eq!(p.confidence, "medium");
}

#[test]
fn error_texts() {
    assert_eq!(RelicError::Engine { msg: "boom".into() }.message(), "boom");
    assert_eq!(RelicError::Poisoned.message(), "engine lock poisoned");
}
