use relic::collections::SmartQuery;

#[test]
fn round_trips_all_fields() {
    let q = SmartQuery {
        system: Some("snes".into()),
        search: Some("mario".into()),
        favorite: Some(true),
    };
    assert_eq!(SmartQuery::parse(&q.encode()), q);
}

#[test]
fn empty_query_round_trips() {
    let q = SmartQuery::default();
    assert!(SmartQuery::parse(&q.encode()).is_empty());
}

#[test]
fn unknown_keys_are_ignored() {
    let q = SmartQuery::parse("bogus=1\nsystem=nes");
    assert_eq!(q.system.as_deref(), Some("nes"));
    assert_eq!(q.search, None);
}

#[test]
fn malformed_favorite_value_is_dropped() {
    let q = SmartQuery::parse("favorite=maybe");
    assert_eq!(q.favorite, None);
}

#[test]
fn malformed_favorite_line_keeps_earlier_value() {
    let q = SmartQuery::parse("favorite=true\nfavorite=maybe");
    assert_eq!(q.favorite, Some(true));
}

#[test]
fn value_containing_equals_sign_keeps_only_first_split() {
    let q = SmartQuery::parse("search=mario=luigi");
    assert_eq!(q.search.as_deref(), Some("mario=luigi"));
}

#[test]
fn encode_writes_one_line_per_set_field_in_order() {
    let q = SmartQuery {
        system: Some("nes".into()),
        search: None,
        favorite: Some(false),
    };
    assert_eq!(q.encode(), "system=nes\nfavorite=false");
}

#[test]
fn favorite_round_trips_false() {
    let q = SmartQuery {
        system: None,
        search: None,
        favorite: Some(false),
    };
    assert_eq!(SmartQuery::parse(&q.encode()), q);
}

#[test]
fn lines_without_equals_are_ignored() {
    let q = SmartQuery::parse("system\nsearch=zelda");
    assert_eq!(q.system, None);
    assert_eq!(q.search.as_deref(), Some("zelda"));
}

#[test]
fn later_line_for_a_key_wins() {
    let q = SmartQuery::parse("system=nes\nbogus\nsystem=snes\nfavorite=false\nfavorite=true");
    assert_eq!(q.system.as_deref(), Some("snes"));
    assert_eq!(q.favorite, Some(true));
}
