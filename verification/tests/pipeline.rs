use relic::scraper::pipeline::{
    match_game, match_outcome, score_filename, Confidence, AUTO_APPLY_THRESHOLD,
};
use relic::scraper::provider::{Candidate, Provider, ProviderError, SearchQuery};
use relic::scraper::store::auto_confirmed;

struct MockProvider {
    id: &'static str,
    hash_hits: Vec<Candidate>,
    name_hits: Vec<Candidate>,
}

impl Provider for MockProvider {
    fn id(&self) -> &'static str {
        self.id
    }

    fn search_by_hash(&self, _query: &SearchQuery) -> Result<Vec<Candidate>, ProviderError> {
        Ok(self.hash_hits.clone())
    }

    fn search_by_name(&self, _query: &SearchQuery) -> Result<Vec<Candidate>, ProviderError> {
        Ok(self.name_hits.clone())
    }
}

struct FailingProvider;

impl Provider for FailingProvider {
    fn id(&self) -> &'static str {
        "failing"
    }

    fn search_by_hash(&self, _query: &SearchQuery) -> Result<Vec<Candidate>, ProviderError> {
        Err(ProviderError::RateLimited)
    }

    fn search_by_name(&self, _query: &SearchQuery) -> Result<Vec<Candidate>, ProviderError> {
        Err(ProviderError::RateLimited)
    }
}

fn candidate(name: &str) -> Candidate {
    Candidate {
        external_id: "1".into(),
        name: name.into(),
        system_slug: "snes".into(),
    }
}

#[test]
fn hash_hit_short_circuits_filename_search() {
    let provider = MockProvider {
        id: "mock",
        hash_hits: vec![candidate("Super Metroid")],
        name_hits: vec![candidate("Wrong Game")],
    };
    let query = SearchQuery {
        system_slug: "snes",
        filename: "Super Metroid (USA).sfc",
        crc32: Some(0xDEADBEEF),
        md5: None,
    };
    let results = match_game(&[&provider], &query).unwrap();
    assert_eq!(results.len(), 1);
    assert_eq!(results[0].confidence, Confidence::Exact);
    assert_eq!(results[0].candidate.name, "Super Metroid");
}

#[test]
fn exact_filename_match_scores_high_not_exact() {
    let provider = MockProvider {
        id: "mock",
        hash_hits: vec![],
        name_hits: vec![candidate("super metroid")],
    };
    let query = SearchQuery {
        system_slug: "snes",
        filename: "Super Metroid.sfc",
        crc32: None,
        md5: None,
    };
    let results = match_game(&[&provider], &query).unwrap();
    assert_eq!(results[0].confidence, Confidence::High);
}

#[test]
fn unrelated_filename_scores_low() {
    let provider = MockProvider {
        id: "mock",
        hash_hits: vec![],
        name_hits: vec![candidate("Completely Different Title")],
    };
    let query = SearchQuery {
        system_slug: "snes",
        filename: "Super Metroid.sfc",
        crc32: None,
        md5: None,
    };
    let results = match_game(&[&provider], &query).unwrap();
    assert_eq!(results[0].confidence, Confidence::Low);
    assert!(Confidence::Low < AUTO_APPLY_THRESHOLD);
}

#[test]
fn results_sorted_highest_confidence_first() {
    let provider = MockProvider {
        id: "mock",
        hash_hits: vec![],
        name_hits: vec![candidate("Totally Unrelated"), candidate("Super Metroid")],
    };
    let query = SearchQuery {
        system_slug: "snes",
        filename: "Super Metroid.sfc",
        crc32: None,
        md5: None,
    };
    let results = match_game(&[&provider], &query).unwrap();
    assert_eq!(results[0].candidate.name, "Super Metroid");
    assert_eq!(results[0].confidence, Confidence::High);
}

#[test]
fn contained_name_scores_medium() {
    assert_eq!(score_filename("Metroid.sfc", "Super Metroid"), Confidence::Medium);
    assert_eq!(score_filename("Super Metroid (USA).sfc", "Super Metroid"), Confidence::Medium);
}

#[test]
fn empty_normalized_name_scores_low() {
    assert_eq!(score_filename("!!!.sfc", "!!!"), Confidence::Low);
}

#[test]
fn provider_error_is_returned() {
    let query = SearchQuery {
        system_slug: "snes",
        filename: "Super Metroid.sfc",
        crc32: Some(1),
        md5: None,
    };
    let err = match_game(&[&FailingProvider], &query).unwrap_err();
    assert_eq!(err, ProviderError::RateLimited);
}

#[test]
fn no_providers_give_no_results() {
    let query = SearchQuery {
        system_slug: "snes",
        filename: "Super Metroid.sfc",
        crc32: None,
        md5: None,
    };
    assert!(match_game(&[], &query).unwrap().is_empty());
}

#[test]
fn confidence_text_round_trips() {
    for c in [Confidence::Low, Confidence::Medium, Confidence::High, Confidence::Exact] {
        assert_eq!(Confidence::parse(c.as_str()), Some(c));
    }
    assert_eq!(Confidence::parse("certain"), None);
}

#[test]
fn only_high_and_exact_are_auto_confirmed() {
    assert!(auto_confirmed(Confidence::Exact));
    assert!(auto_confirmed(Confidence::High));
    assert!(!auto_confirmed(Confidence::Medium));
    assert!(!auto_confirmed(Confidence::Low));
}

#[test]
fn outcome_takes_the_first_hash_error() {
    let hash = vec![
        ("a", Ok(vec![candidate("X")])),
        ("b", Err(ProviderError::NotConfigured)),
    ];
    assert_eq!(match_outcome("x.sfc", hash, None), Err(ProviderError::NotConfigured));
}

#[test]
fn outcome_of_hash_hits_is_exact_in_provider_order() {
    let hash = vec![("a", Ok(vec![])), ("b", Ok(vec![candidate("Y"), candidate("Z")]))];
    let r = match_outcome("x.sfc", hash, None).unwrap();
    let names: Vec<(&str, &str, Confidence)> =
        r.iter().map(|m| (m.provider_id, m.candidate.name.as_str(), m.confidence)).collect();
    assert_eq!(names, vec![("b", "Y", Confidence::Exact), ("b", "Z", Confidence::Exact)]);
}

#[test]
fn outcome_of_name_hits_is_ranked_and_name_errors_surface() {
    let hash = vec![("a", Ok(vec![])), ("b", Ok(vec![]))];
    let names = vec![
        ("a", Ok(vec![candidate("Totally Unrelated")])),
        ("b", Ok(vec![candidate("Super Metroid")])),
    ];
    let r = match_outcome("Super Metroid.sfc", hash.clone(), Some(names)).unwrap();
    assert_eq!(r[0].candidate.name, "Super Metroid");
    assert_eq!(r[0].confidence, Confidence::High);
    assert_eq!(r[1].confidence, Confidence::Low);
    let failing = vec![("a", Err(ProviderError::RateLimited))];
    assert_eq!(match_outcome("x.sfc", hash.clone(), Some(failing)), Err(ProviderError::RateLimited));
    assert!(match_outcome("x.sfc", hash, None).unwrap().is_empty());
}
