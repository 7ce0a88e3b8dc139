//! What a metadata provider offers the pipeline.

use vstd::prelude::*;

use crate::text::{chars_of, push_str, string_of};

verus! {

/// A game a provider proposes.
#[derive(Debug, Clone, PartialEq, Eq)]
pub struct Candidate {
    pub external_id: String,
    pub name: String,
    pub system_slug: String,
}

/// What is known of the game being matched.
#[derive(Debug, Clone, Copy)]
pub struct SearchQuery<'a> {
    pub system_slug: &'a str,
    pub filename: &'a str,
    pub crc32: Option<u32>,
    pub md5: Option<&'a str>,
}

/// A provider's failure.
#[derive(Debug, Clone, PartialEq, Eq)]
pub enum ProviderError {
    Network(String),
    RateLimited,
    NotConfigured,
}

impl ProviderError {
    pub open spec fn text(self) -> Seq<char> {
        match self {
            ProviderError::Network(m) => "network error: "@ + m@,
            ProviderError::RateLimited => "rate limited"@,
            ProviderError::NotConfigured => "provider not configured"@,
        }
    }

    /// The error as text.
    pub fn message(&self) -> (r: String)
        ensures
            r@ == self.text(),
    {
        match self {
            ProviderError::Network(m) => {
                let mut out = chars_of("network error: ");
                push_str(&mut out, m.as_str());
                string_of(&out)
            },
            ProviderError::RateLimited => string_of(&chars_of("rate limited")),
            ProviderError::NotConfigured => string_of(&chars_of("provider not configured")),
        }
    }
}

/// A source of metadata matches. Implementations do their own I/O; what
/// they answer is theirs. Each says, through the relations below, which
/// answers its searches give: a search's result is one of the answers its
/// relation admits for the query, and its id is its stated id.
pub trait Provider {
    /// The provider's id; left unknown unless an implementation states it.
    open spec fn provider_id(&self) -> &'static str {
        vstd::pervasive::arbitrary()
    }

    /// Whether `r` is an answer of this provider's hash search for `query`;
    /// left unknown unless an implementation states it.
    open spec fn hash_answer(&self, query: SearchQuery, r: Result<Vec<Candidate>, ProviderError>) -> bool {
        vstd::pervasive::arbitrary()
    }

    /// Whether `r` is an answer of this provider's name search for `query`;
    /// left unknown unless an implementation states it.
    open spec fn name_answer(&self, query: SearchQuery, r: Result<Vec<Candidate>, ProviderError>) -> bool {
        vstd::pervasive::arbitrary()
    }

    /// A stable identifier, stored with each match.
    fn id(&self) -> (r: &'static str)
        ensures
            r == self.provider_id(),
    ;

    /// Games whose ROM hash equals the query's.
    fn search_by_hash(&self, query: &SearchQuery) -> (r: Result<Vec<Candidate>, ProviderError>)
        ensures
            self.hash_answer(*query, r),
    ;

    /// Games whose name resembles the query's file name.
    fn search_by_name(&self, query: &SearchQuery) -> (r: Result<Vec<Candidate>, ProviderError>)
        ensures
            self.name_answer(*query, r),
    ;
}

} // verus!
