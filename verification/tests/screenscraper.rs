use relic::scraper::provider::{ProviderError, SearchQuery};
use relic::scraper::screenscraper::{
    hash_params, hash_results, name_params, name_results, parse_body, status_error,
    ScreenScraperProvider,
};

fn query<'a>(filename: &'a str, crc32: Option<u32>, md5: Option<&'a str>) -> SearchQuery<'a> {
    SearchQuery {
        system_slug: "snes",
        filename,
        crc32,
        md5,
    }
}

#[test]
fn not_configured_when_dev_creds_empty() {
    let provider = ScreenScraperProvider::new(String::new(), String::new());
    assert!(!provider.is_configured());
    assert!(ScreenScraperProvider::new("dev".into(), "secret".into()).is_configured());
}

#[test]
fn hash_hit_parses_to_single_candidate() {
    let body = r#"{
        "response": {
            "jeu": {
                "id": "123",
                "noms": [
                    {"region": "us", "text": "Super Metroid"},
                    {"region": "jp", "text": "Super Metroid (Japan)"}
                ]
            }
        }
    }"#;
    let json = parse_body(body).unwrap();
    let results = hash_results(&json, "snes");
    assert_eq!(results.len(), 1);
    assert_eq!(results[0].external_id, "123");
    assert_eq!(results[0].name, "Super Metroid");
    assert_eq!(results[0].system_slug, "snes");
}

#[test]
fn hash_miss_returns_empty_vec_not_error() {
    let json = parse_body(r#"{"response":{"jeu":null}}"#).unwrap();
    assert!(hash_results(&json, "snes").is_empty());
    let absent = parse_body(r#"{"response":{}}"#).unwrap();
    assert!(hash_results(&absent, "snes").is_empty());
}

#[test]
fn http_429_maps_to_rate_limited() {
    assert_eq!(status_error(429, "429 Too Many Requests"), Some(ProviderError::RateLimited));
    assert_eq!(status_error(200, "200 OK"), None);
    assert_eq!(
        status_error(500, "500 Internal Server Error"),
        Some(ProviderError::Network("HTTP 500 Internal Server Error".into()))
    );
}

#[test]
fn name_search_returns_every_candidate() {
    let body = r#"{
        "response": {
            "jeux": [
                {"id":"11","noms":[{"region":"us","text":"Super Metroid"}]},
                {"id":"12","noms":[{"region":"us","text":"Metroid"}]},
                {"id":"13","noms":[{"region":"us","text":"Metroid Prime"}]}
            ]
        }
    }"#;
    let results = name_results(&parse_body(body).unwrap(), "snes");
    assert_eq!(results.len(), 3);
    assert_eq!(results[0].name, "Super Metroid");
    assert_eq!(results[1].name, "Metroid");
    assert_eq!(results[2].name, "Metroid Prime");
    assert!(results.iter().all(|c| c.system_slug == "snes"));
}

#[test]
fn malformed_entries_are_skipped() {
    let body = r#"{"response":{"jeux":[{"noms":[{"text":"No id"}]},{"id":"2","noms":[]},{"id":"3","noms":[{"region":"eu"},{"text":"Third"}]}]}}"#;
    let results = name_results(&parse_body(body).unwrap(), "snes");
    assert_eq!(results.len(), 1);
    assert_eq!(results[0].external_id, "3");
    assert_eq!(results[0].name, "Third");
}

#[test]
fn invalid_json_is_a_network_error() {
    match parse_body("{not json") {
        Err(ProviderError::Network(m)) => assert!(m.starts_with("invalid JSON: "), "{m}"),
        other => panic!("expected a network error, got {other:?}"),
    }
}

#[test]
fn with_user_attaches_user_credentials() {
    let provider = ScreenScraperProvider::new("dev".into(), "secret".into())
        .with_user("alice".into(), "hunter2".into());
    let params = provider.auth_params();
    let has = |k: &str| params.iter().any(|(pk, _)| *pk == k);
    assert!(has("devid"));
    assert!(has("devpassword"));
    assert!(has("softname"));
    assert!(has("ssid"));
    assert!(has("sspassword"));
    let anon = ScreenScraperProvider::new("dev".into(), "secret".into()).auth_params();
    assert_eq!(anon.len(), 3);
    assert_eq!(anon[2], ("softname", "relic".to_string()));
}

#[test]
fn hash_lookup_prefers_md5_then_crc() {
    let p = hash_params(&query("a.sfc", Some(0xcafe), Some("abc"))).unwrap();
    assert_eq!(p[0], ("md5", "abc".to_string()));
    let p = hash_params(&query("a.sfc", Some(0xcafe), None)).unwrap();
    assert_eq!(p[0], ("crc", "0000cafe".to_string()));
    assert_eq!(p[1], ("systemname", "snes".to_string()));
    assert!(hash_params(&query("a.sfc", None, None)).is_none());
}

#[test]
fn name_search_uses_the_file_stem() {
    let p = name_params(&query("roms/Super Metroid (USA).sfc", None, None));
    assert_eq!(p[0], ("recherche", "Super Metroid (USA)".to_string()));
    let url = ScreenScraperProvider::new("d".into(), "p".into())
        .with_base_url("http://127.0.0.1:9".into())
        .endpoint_url("jeuRecherche.php");
    assert_eq!(url, "http://127.0.0.1:9/jeuRecherche.php");
}
