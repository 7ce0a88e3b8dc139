//! Matching a game against providers.
//!
//! A content-hash hit from any provider is an exact match and ends the
//! search; otherwise every provider is searched by name and each candidate
//! is scored by how its name compares to the ROM's file stem, ignoring
//! case and everything but letters and digits. Results come out highest
//! confidence first, in provider order within one confidence.

use vstd::prelude::*;

use crate::paths::{file_stem, file_stem_exec};
use crate::scraper::provider::{Candidate, Provider, ProviderError, SearchQuery};
use crate::text::{
    all_ascii, ascii_lower, ascii_lower_seq, chars_eq, chars_eq_str, chars_of, contains_chars,
    contains_seq, is_alphanumeric, occurs_at, to_lowercase, unicode_alphanumeric,
    unicode_lowercase,
};

verus! {

/// How sure a match is, lowest first.
#[derive(Debug, Clone, Copy, PartialEq, Eq, PartialOrd, Ord, Structural)]
pub enum Confidence {
    Low,
    Medium,
    High,
    /// A content-hash hit.
    Exact,
}

/// The order of confidences.
pub open spec fn conf_rank(c: Confidence) -> int {
    match c {
        Confidence::Low => 0,
        Confidence::Medium => 1,
        Confidence::High => 2,
        Confidence::Exact => 3,
    }
}

impl Confidence {
    pub open spec fn name(self) -> Seq<char> {
        match self {
            Confidence::Low => "low"@,
            Confidence::Medium => "medium"@,
            Confidence::High => "high"@,
            Confidence::Exact => "exact"@,
        }
    }

    /// The stored form.
    pub fn as_str(self) -> (r: &'static str)
        ensures
            r@ == self.name(),
    {
        match self {
            Confidence::Low => "low",
            Confidence::Medium => "medium",
            Confidence::High => "high",
            Confidence::Exact => "exact",
        }
    }

    /// Reads the stored form back.
    pub fn parse(s: &str) -> (r: Option<Confidence>)
        ensures
            r == parse_confidence(s@),
    {
        let c = chars_of(s);
        if chars_eq_str(c.as_slice(), "low") {
            Some(Confidence::Low)
        } else if chars_eq_str(c.as_slice(), "medium") {
            Some(Confidence::Medium)
        } else if chars_eq_str(c.as_slice(), "high") {
            Some(Confidence::High)
        } else if chars_eq_str(c.as_slice(), "exact") {
            Some(Confidence::Exact)
        } else {
            None
        }
    }
}

/// The confidence a stored form names.
pub open spec fn parse_confidence(s: Seq<char>) -> Option<Confidence> {
    if s == "low"@ {
        Some(Confidence::Low)
    } else if s == "medium"@ {
        Some(Confidence::Medium)
    } else if s == "high"@ {
        Some(Confidence::High)
    } else if s == "exact"@ {
        Some(Confidence::Exact)
    } else {
        None
    }
}

/// Reading back a stored confidence gives the same confidence.
pub proof fn law_confidence_parse_as_str(c: Confidence)
    ensures
        parse_confidence(c.name()) == Some(c),
{
    reveal_strlit("low");
    reveal_strlit("medium");
    reveal_strlit("high");
    reveal_strlit("exact");
    assert("low"@[0] != "high"@[0]);
    assert("medium"@[0] != "exact"@[0]);
}

/// Matches at or above this confidence are applied without asking.
pub const AUTO_APPLY_THRESHOLD: Confidence = Confidence::High;

/// A provider's candidate with the provider and the confidence.
#[derive(Debug, Clone, PartialEq, Eq)]
pub struct MatchResult {
    pub provider_id: &'static str,
    pub candidate: Candidate,
    pub confidence: Confidence,
}

/// A name reduced for comparison: lowercase, letters and digits only.
pub open spec fn normalize(s: Seq<char>) -> Seq<char> {
    unicode_lowercase(s).filter(|c: char| unicode_alphanumeric(c))
}

/// An ASCII letter or digit.
pub open spec fn ascii_alnum(c: char) -> bool {
    ||| '0' <= c <= '9'
    ||| 'a' <= c <= 'z'
    ||| 'A' <= c <= 'Z'
}

/// The reduced form of an ASCII name: lowercased, with every letter and
/// every digit kept and everything else dropped.
pub open spec fn ascii_normalize(s: Seq<char>) -> Seq<char> {
    ascii_lower_seq(s).filter(|c: char| ascii_alnum(c))
}

proof fn lemma_ascii_lower_is_ascii(c: char)
    requires
        (c as u32) < 128,
    ensures
        (ascii_lower(c) as u32) < 128,
{
    if 'A' <= c <= 'Z' {
        assert((ascii_lower(c) as u32) == (c as u32) + 32);
    }
}

fn normalize_exec(s: &str) -> (r: Vec<char>)
    ensures
        r@ == normalize(s@),
        all_ascii(s@) ==> r@ == ascii_normalize(s@),
{
    let l = chars_of(to_lowercase(s).as_str());
    let mut r: Vec<char> = Vec::new();
    let mut i: usize = 0;
    while i < l.len()
        invariant
            i <= l@.len(),
            l@ == unicode_lowercase(s@),
            all_ascii(s@) ==> l@ == ascii_lower_seq(s@),
            r@ == l@.take(i as int).filter(|c: char| unicode_alphanumeric(c)),
            all_ascii(s@) ==> r@ == l@.take(i as int).filter(|c: char| ascii_alnum(c)),
        decreases l.len() - i,
    {
        proof {
            assert(l@.take(i + 1).drop_last() =~= l@.take(i as int));
            reveal_with_fuel(Seq::filter, 1);
            if all_ascii(s@) {
                assert((s@[i as int] as u32) < 128);
                assert(l@[i as int] == ascii_lower(s@[i as int]));
                lemma_ascii_lower_is_ascii(s@[i as int]);
            }
        }
        if is_alphanumeric(l[i]) {
            r.push(l[i]);
        }
        i += 1;
    }
    proof {
        assert(l@.take(l@.len() as int) =~= l@);
    }
    r
}

/// The part of a file name that is compared: its stem, else the whole name.
pub open spec fn compared_stem(filename: Seq<char>) -> Seq<char> {
    match file_stem(filename) {
        Some(s) => s,
        None => filename,
    }
}

/// How two reduced names compare: equal is high, one containing the other
/// is medium, anything else (or an empty one) is low.
pub open spec fn score_reduced(a: Seq<char>, b: Seq<char>) -> Confidence {
    if a.len() == 0 || b.len() == 0 {
        Confidence::Low
    } else if a == b {
        Confidence::High
    } else if contains_seq(a, b) || contains_seq(b, a) {
        Confidence::Medium
    } else {
        Confidence::Low
    }
}

/// How well a candidate's name fits a ROM file name: the reduced stem and
/// the reduced name, compared.
pub open spec fn score_spec(filename: Seq<char>, name: Seq<char>) -> Confidence {
    score_reduced(normalize(compared_stem(filename)), normalize(name))
}

proof fn lemma_ascii_normalize_push(x: Seq<char>, c: char)
    ensures
        ascii_normalize(x.push(c)) == if ascii_alnum(ascii_lower(c)) {
            ascii_normalize(x).push(ascii_lower(c))
        } else {
            ascii_normalize(x)
        },
{
    let l = ascii_lower_seq(x.push(c));
    assert(l.drop_last() =~= ascii_lower_seq(x));
    assert(l.last() == ascii_lower(c));
    reveal_with_fuel(Seq::filter, 1);
}

/// Digits count when names are compared: an ASCII name keeps each digit
/// when reduced, so two names that differ only in a final digit (`Mega Man
/// 2` and `Mega Man 3`) reduce to different names, neither containing the
/// other, and score low rather than high.
pub proof fn law_final_digit_distinguishes(x: Seq<char>, d1: char, d2: char)
    requires
        '0' <= d1 <= '9',
        '0' <= d2 <= '9',
        d1 != d2,
    ensures
        ascii_normalize(x.push(d1)) == ascii_normalize(x).push(d1),
        ascii_normalize(x.push(d2)) == ascii_normalize(x).push(d2),
        score_reduced(ascii_normalize(x.push(d1)), ascii_normalize(x.push(d2))) == Confidence::Low,
{
    lemma_ascii_normalize_push(x, d1);
    lemma_ascii_normalize_push(x, d2);
    let a = ascii_normalize(x).push(d1);
    let b = ascii_normalize(x).push(d2);
    assert(a.last() != b.last());
    assert(a != b);
    assert forall|i: int| !#[trigger] occurs_at(a, b, i) by {
        if occurs_at(a, b, i) {
            assert(i == 0);
            assert(a.subrange(0, a.len() as int) =~= a);
        }
    }
    assert forall|i: int| !#[trigger] occurs_at(b, a, i) by {
        if occurs_at(b, a, i) {
            assert(i == 0);
            assert(b.subrange(0, b.len() as int) =~= b);
        }
    }
}

pub fn score_filename(filename: &str, candidate_name: &str) -> (c: Confidence)
    ensures
        c == score_spec(filename@, candidate_name@),
        all_ascii(compared_stem(filename@)) && all_ascii(candidate_name@) ==> c == score_reduced(
            ascii_normalize(compared_stem(filename@)),
            ascii_normalize(candidate_name@),
        ),
{
    let fc = chars_of(filename);
    let stem: Vec<char> = match file_stem_exec(fc.as_slice()) {
        Some(s) => s,
        None => fc,
    };
    let a = normalize_exec(crate::text::string_of(&stem).as_str());
    let b = normalize_exec(candidate_name);
    if a.len() == 0 || b.len() == 0 {
        Confidence::Low
    } else if chars_eq(a.as_slice(), b.as_slice()) {
        Confidence::High
    } else if contains_chars(a.as_slice(), b.as_slice()) || contains_chars(b.as_slice(), a.as_slice()) {
        Confidence::Medium
    } else {
        Confidence::Low
    }
}

/// The results of one confidence, in order.
pub open spec fn with_conf(v: Seq<MatchResult>, c: Confidence) -> Seq<MatchResult> {
    v.filter(|r: MatchResult| r.confidence == c)
}

/// `v` stably ordered from the highest confidence to the lowest.
pub open spec fn ranked(v: Seq<MatchResult>) -> Seq<MatchResult> {
    with_conf(v, Confidence::Exact) + with_conf(v, Confidence::High) + with_conf(
        v,
        Confidence::Medium,
    ) + with_conf(v, Confidence::Low)
}

/// The name-search results in provider order, each scored against the
/// file name.
pub open spec fn scored(filename: Seq<char>, hits: Seq<(&'static str, Vec<Candidate>)>) -> Seq<MatchResult>
    decreases hits.len(),
{
    if hits.len() == 0 {
        Seq::empty()
    } else {
        scored(filename, hits.drop_last()) + hits.last().1@.map_values(
            |c: Candidate|
                MatchResult {
                    provider_id: hits.last().0,
                    candidate: c,
                    confidence: score_spec(filename, c.name@),
                },
        )
    }
}

/// The hash-search results in provider order, all exact.
pub open spec fn exact_hits(hits: Seq<(&'static str, Vec<Candidate>)>) -> Seq<MatchResult>
    decreases hits.len(),
{
    if hits.len() == 0 {
        Seq::empty()
    } else {
        exact_hits(hits.drop_last()) + hits.last().1@.map_values(
            |c: Candidate|
                MatchResult { provider_id: hits.last().0, candidate: c, confidence: Confidence::Exact },
        )
    }
}

/// Buckets of results by confidence.
struct Buckets {
    exact: Vec<MatchResult>,
    high: Vec<MatchResult>,
    medium: Vec<MatchResult>,
    low: Vec<MatchResult>,
}

impl Buckets {
    spec fn holds(&self, v: Seq<MatchResult>) -> bool {
        &&& self.exact@ == with_conf(v, Confidence::Exact)
        &&& self.high@ == with_conf(v, Confidence::High)
        &&& self.medium@ == with_conf(v, Confidence::Medium)
        &&& self.low@ == with_conf(v, Confidence::Low)
    }

    fn put(&mut self, r: MatchResult, Ghost(v): Ghost<Seq<MatchResult>>)
        requires
            old(self).holds(v),
        ensures
            final(self).holds(v.push(r)),
    {
        proof {
            assert(v.push(r).drop_last() =~= v);
            reveal_with_fuel(Seq::filter, 1);
        }
        match r.confidence {
            Confidence::Exact => self.exact.push(r),
            Confidence::High => self.high.push(r),
            Confidence::Medium => self.medium.push(r),
            Confidence::Low => self.low.push(r),
        }
    }
}

proof fn lemma_scored_step(filename: Seq<char>, all: Seq<(&'static str, Vec<Candidate>)>, k: int)
    requires
        0 <= k < all.len(),
    ensures
        scored(filename, all.take(k + 1)) == scored(filename, all.take(k)) + all[k].1@.map_values(
            |c: Candidate|
                MatchResult {
                    provider_id: all[k].0,
                    candidate: c,
                    confidence: score_spec(filename, c.name@),
                },
        ),
        exact_hits(all.take(k + 1)) == exact_hits(all.take(k)) + all[k].1@.map_values(
            |c: Candidate|
                MatchResult { provider_id: all[k].0, candidate: c, confidence: Confidence::Exact },
        ),
{
    assert(all.take(k + 1).drop_last() =~= all.take(k));
    assert(all.take(k + 1).last() == all[k]);
}

/// The name-search results of every provider (`(provider id, its
/// candidates)`, in provider order), scored against `filename` and ranked.
pub fn rank_name_hits(filename: &str, hits: Vec<(&'static str, Vec<Candidate>)>) -> (r: Vec<MatchResult>)
    ensures
        r@ == ranked(scored(filename@, hits@)),
{
    let ghost all = hits@;
    let mut b = Buckets { exact: Vec::new(), high: Vec::new(), medium: Vec::new(), low: Vec::new() };
    let ghost mut done: Seq<MatchResult> = Seq::empty();
    proof {
        reveal_with_fuel(Seq::filter, 1);
        assert(all.take(0) =~= Seq::<(&'static str, Vec<Candidate>)>::empty());
        assert(b.holds(done));
    }
    let mut hits = hits;
    let mut k: usize = 0;
    let total = hits.len();
    proof {
        assert(all.skip(0) =~= all);
    }
    while hits.len() > 0
        invariant
            k + hits@.len() == total == all.len(),
            hits@ == all.skip(k as int),
            done == scored(filename@, all.take(k as int)),
            b.holds(done),
        decreases hits@.len(),
    {
        let (id, cands) = hits.remove(0);
        proof {
            assert(all[k as int] == (id, cands));
            assert(hits@ =~= all.skip(k + 1));
        }
        let ghost cs = cands@;
        let ghost before = done;
        let mut cands = cands;
        let mut j: usize = 0;
        let cn = cands.len();
        proof {
            assert(cs.skip(0) =~= cs);
            assert(cs.take(0) =~= Seq::<Candidate>::empty());
            assert(done =~= before + cs.take(0).map_values(
                |c: Candidate|
                    MatchResult { provider_id: id, candidate: c, confidence: score_spec(filename@, c.name@) },
            ));
        }
        while cands.len() > 0
            invariant
                j + cands@.len() == cs.len(),
                cs.len() == cn,
                cands@ == cs.skip(j as int),
                done == before + cs.take(j as int).map_values(
                    |c: Candidate|
                        MatchResult {
                            provider_id: id,
                            candidate: c,
                            confidence: score_spec(filename@, c.name@),
                        },
                ),
                b.holds(done),
            decreases cands@.len(),
        {
            let c = cands.remove(0);
            proof {
                assert(cs[j as int] == c);
                assert(cands@ =~= cs.skip(j + 1));
            }
            let conf = score_filename(filename, c.name.as_str());
            let m = MatchResult { provider_id: id, candidate: c, confidence: conf };
            b.put(m, Ghost(done));
            proof {
                assert(cs.take(j + 1) =~= cs.take(j as int).push(c));
                assert(before + cs.take(j + 1).map_values(
                    |c: Candidate|
                        MatchResult { provider_id: id, candidate: c, confidence: score_spec(filename@, c.name@) },
                ) =~= done.push(m));
                done = done.push(m);
            }
            j += 1;
        }
        proof {
            assert(cs.take(j as int) =~= cs);
            lemma_scored_step(filename@, all, k as int);
        }
        k += 1;
    }
    proof {
        assert(all.take(k as int) =~= all);
    }
    let mut out = b.exact;
    let mut high = b.high;
    let mut medium = b.medium;
    let mut low = b.low;
    out.append(&mut high);
    out.append(&mut medium);
    out.append(&mut low);
    out
}

/// The hash-search results of every provider, in provider order, all
/// exact.
pub fn exact_results(hits: Vec<(&'static str, Vec<Candidate>)>) -> (r: Vec<MatchResult>)
    ensures
        r@ == exact_hits(hits@),
{
    let ghost all = hits@;
    let mut out: Vec<MatchResult> = Vec::new();
    let mut hits = hits;
    let mut k: usize = 0;
    let total = hits.len();
    proof {
        assert(all.skip(0) =~= all);
        assert(all.take(0) =~= Seq::<(&'static str, Vec<Candidate>)>::empty());
    }
    while hits.len() > 0
        invariant
            k + hits@.len() == total == all.len(),
            hits@ == all.skip(k as int),
            out@ == exact_hits(all.take(k as int)),
        decreases hits@.len(),
    {
        let (id, cands) = hits.remove(0);
        proof {
            assert(all[k as int] == (id, cands));
            assert(hits@ =~= all.skip(k + 1));
        }
        let ghost cs = cands@;
        let ghost before = out@;
        let mut cands = cands;
        let mut j: usize = 0;
        let cn = cands.len();
        proof {
            assert(cs.skip(0) =~= cs);
            assert(out@ =~= before + cs.take(0).map_values(
                |c: Candidate| MatchResult { provider_id: id, candidate: c, confidence: Confidence::Exact },
            ));
        }
        while cands.len() > 0
            invariant
                j + cands@.len() == cs.len(),
                cs.len() == cn,
                cands@ == cs.skip(j as int),
                out@ == before + cs.take(j as int).map_values(
                    |c: Candidate|
                        MatchResult { provider_id: id, candidate: c, confidence: Confidence::Exact },
                ),
            decreases cands@.len(),
        {
            let c = cands.remove(0);
            proof {
                assert(cs[j as int] == c);
                assert(cands@ =~= cs.skip(j + 1));
            }
            out.push(MatchResult { provider_id: id, candidate: c, confidence: Confidence::Exact });
            proof {
                assert(cs.take(j + 1) =~= cs.take(j as int).push(c));
                assert(out@ =~= before + cs.take(j + 1).map_values(
                    |c: Candidate| MatchResult { provider_id: id, candidate: c, confidence: Confidence::Exact },
                ));
            }
            j += 1;
        }
        proof {
            assert(cs.take(j as int) =~= cs);
            lemma_scored_step(Seq::empty(), all, k as int);
        }
        k += 1;
    }
    proof {
        assert(all.take(k as int) =~= all);
    }
    out
}

/// Results are in non-increasing confidence order.
pub open spec fn sorted_by_confidence(v: Seq<MatchResult>) -> bool {
    forall|i: int, j: int|
        0 <= i < j < v.len() ==> conf_rank(#[trigger] v[i].confidence) >= conf_rank(
            #[trigger] v[j].confidence,
        )
}

proof fn lemma_with_conf_all(v: Seq<MatchResult>, c: Confidence, i: int)
    requires
        0 <= i < with_conf(v, c).len(),
    ensures
        with_conf(v, c)[i].confidence == c,
{
    v.lemma_filter_pred(|r: MatchResult| r.confidence == c, i);
}

/// Ranking puts higher confidences first, whatever the input order.
pub proof fn law_ranked_is_sorted(v: Seq<MatchResult>)
    ensures
        sorted_by_confidence(ranked(v)),
{
    let e = with_conf(v, Confidence::Exact);
    let h = with_conf(v, Confidence::High);
    let m = with_conf(v, Confidence::Medium);
    let l = with_conf(v, Confidence::Low);
    let r = ranked(v);
    assert(r == e + h + m + l);
    assert forall|i: int| 0 <= i < r.len() implies conf_rank(#[trigger] r[i].confidence) == (if i
        < e.len() {
        3int
    } else if i < e.len() + h.len() {
        2int
    } else if i < e.len() + h.len() + m.len() {
        1int
    } else {
        0int
    }) by {
        if i < e.len() {
            lemma_with_conf_all(v, Confidence::Exact, i);
        } else if i < e.len() + h.len() {
            lemma_with_conf_all(v, Confidence::High, i - e.len());
        } else if i < e.len() + h.len() + m.len() {
            lemma_with_conf_all(v, Confidence::Medium, i - e.len() - h.len());
        } else {
            lemma_with_conf_all(v, Confidence::Low, i - e.len() - h.len() - m.len());
        }
    }
}

/// Ranking keeps every result: as many come out as went in.
pub proof fn law_ranked_keeps_results(v: Seq<MatchResult>)
    ensures
        ranked(v).len() == v.len(),
    decreases v.len(),
{
    if v.len() > 0 {
        let w = v.drop_last();
        law_ranked_keeps_results(w);
        reveal_with_fuel(Seq::filter, 1);
        assert(v.drop_last() == w);
    }
}

/// One provider's answer to a search, with the provider's id.
pub type Answer = (&'static str, Result<Vec<Candidate>, ProviderError>);

/// The first error among answers, in order.
pub open spec fn first_err(a: Seq<Answer>) -> Option<ProviderError>
    decreases a.len(),
{
    if a.len() == 0 {
        None
    } else {
        match first_err(a.drop_last()) {
            Some(e) => Some(e),
            None => match a.last().1 {
                Err(e) => Some(e),
                Ok(_) => None,
            },
        }
    }
}

/// The candidates of the successful answers, in order, each with its
/// provider's id.
pub open spec fn oks(a: Seq<Answer>) -> Seq<(&'static str, Vec<Candidate>)>
    decreases a.len(),
{
    if a.len() == 0 {
        Seq::empty()
    } else {
        match a.last().1 {
            Ok(v) => oks(a.drop_last()).push((a.last().0, v)),
            Err(_) => oks(a.drop_last()),
        }
    }
}

/// What the providers' answers make of a match: the first hash-search
/// error; else every hash hit as an exact match, when there is one; else
/// the first name-search error; else every name hit, scored against the
/// file name and ranked. No name answers is as good as none found.
pub open spec fn outcome_spec(filename: Seq<char>, hash: Seq<Answer>, names: Option<Seq<Answer>>) -> Result<
    Seq<MatchResult>,
    ProviderError,
> {
    match first_err(hash) {
        Some(e) => Err(e),
        None => if exact_hits(oks(hash)).len() > 0 {
            Ok(exact_hits(oks(hash)))
        } else {
            match names {
                None => Ok(Seq::empty()),
                Some(ns) => match first_err(ns) {
                    Some(e) => Err(e),
                    None => Ok(ranked(scored(filename, oks(ns)))),
                },
            }
        },
    }
}

pub open spec fn result_view(r: Result<Vec<MatchResult>, ProviderError>) -> Result<Seq<MatchResult>, ProviderError> {
    match r {
        Ok(v) => Ok(v@),
        Err(e) => Err(e),
    }
}

pub open spec fn opt_answers(o: Option<Vec<Answer>>) -> Option<Seq<Answer>> {
    match o {
        Some(v) => Some(v@),
        None => None,
    }
}

proof fn lemma_first_err_sticks(a: Seq<Answer>, k: int)
    requires
        0 <= k <= a.len(),
        first_err(a.take(k)) is Some,
    ensures
        first_err(a) == first_err(a.take(k)),
    decreases a.len() - k,
{
    if k < a.len() {
        assert(a.take(k + 1).drop_last() =~= a.take(k));
        lemma_first_err_sticks(a, k + 1);
    } else {
        assert(a.take(k) =~= a);
    }
}

/// The successful answers' candidates, or the first error.
fn collect_answers(answers: Vec<Answer>) -> (r: Result<Vec<(&'static str, Vec<Candidate>)>, ProviderError>)
    ensures
        first_err(answers@) matches Some(e) ==> (r matches Err(x) && x == e),
        first_err(answers@) is None ==> (r matches Ok(v) && v@ == oks(answers@)),
{
    let ghost all = answers@;
    let mut rest = answers;
    let mut out: Vec<(&'static str, Vec<Candidate>)> = Vec::new();
    let mut k: usize = 0;
    let total = rest.len();
    proof {
        assert(all.skip(0) =~= all);
        assert(all.take(0) =~= Seq::<Answer>::empty());
    }
    while rest.len() > 0
        invariant
            k + rest@.len() == all.len(),
            all.len() == total,
            all == answers@,
            rest@ == all.skip(k as int),
            first_err(all.take(k as int)) is None,
            out@ == oks(all.take(k as int)),
        decreases rest@.len(),
    {
        let (id, a) = rest.remove(0);
        proof {
            assert(all[k as int] == (id, a));
            assert(rest@ =~= all.skip(k + 1));
            assert(all.take(k + 1).drop_last() =~= all.take(k as int));
            assert(all.take(k + 1).last() == (id, a));
        }
        match a {
            Ok(v) => {
                out.push((id, v));
                proof {
                    assert(out@ =~= oks(all.take(k + 1)));
                }
            },
            Err(e) => {
                proof {
                    assert(first_err(all.take(k + 1)) == Some(e));
                    lemma_first_err_sticks(all, k + 1);
                    assert(first_err(all) == Some(e));
                }
                return Err(e);
            },
        }
        k += 1;
    }
    proof {
        assert(all.take(k as int) =~= all);
    }
    Ok(out)
}

/// The outcome of a match from the providers' answers, in provider
/// order: the hash-search answers and, when they were asked, the
/// name-search answers. See [`outcome_spec`].
pub fn match_outcome(filename: &str, hash: Vec<Answer>, names: Option<Vec<Answer>>) -> (r: Result<
    Vec<MatchResult>,
    ProviderError,
>)
    ensures
        result_view(r) == outcome_spec(filename@, hash@, opt_answers(names)),
{
    let hits = match collect_answers(hash) {
        Ok(v) => v,
        Err(e) => return Err(e),
    };
    let ex = exact_results(hits);
    if ex.len() > 0 {
        return Ok(ex);
    }
    match names {
        None => {
            let v: Vec<MatchResult> = Vec::new();
            proof {
                assert(v@ =~= Seq::<MatchResult>::empty());
            }
            Ok(v)
        },
        Some(ns) => match collect_answers(ns) {
            Ok(nh) => Ok(rank_name_hits(filename, nh)),
            Err(e) => Err(e),
        },
    }
}

/// Answers gathered in provider order from `n` providers, stopping at the
/// first error: every answer but the last is a success, and fewer than
/// `n` answers means the last one failed.
pub open spec fn answered_in_order(n: int, a: Seq<Answer>) -> bool {
    &&& a.len() <= n
    &&& forall|k: int| 0 <= k < a.len() - 1 ==> (#[trigger] a[k]).1 is Ok
    &&& a.len() < n ==> a.len() > 0 && a.last().1 is Err
}

/// The two phases of a match over `n` providers: every provider is asked
/// by hash first; they are asked by name, all of them, only when every
/// hash answer succeeded and none found anything.
pub open spec fn phases_ok(n: int, hash: Seq<Answer>, names: Option<Seq<Answer>>) -> bool {
    &&& answered_in_order(n, hash)
    &&& (names is Some) == (hash.len() == n && first_err(hash) is None && exact_hits(oks(hash)).len() == 0)
    &&& names matches Some(ns) ==> answered_in_order(n, ns)
}

proof fn lemma_first_err_none(a: Seq<Answer>)
    requires
        forall|k: int| 0 <= k < a.len() ==> (#[trigger] a[k]).1 is Ok,
    ensures
        first_err(a) is None,
    decreases a.len(),
{
    if a.len() > 0 {
        assert forall|k: int| 0 <= k < a.drop_last().len() implies (#[trigger] a.drop_last()[k]).1 is Ok by {
            assert(a.drop_last()[k] == a[k]);
        }
        lemma_first_err_none(a.drop_last());
        assert(a.last() == a[a.len() - 1]);
    }
}

/// The answers came from the providers in order, each from the search
/// asked (`by_name` or by hash) with `query`, under the provider's id.
pub open spec fn answered_by(providers: Seq<&dyn Provider>, query: SearchQuery, a: Seq<Answer>, by_name: bool) -> bool {
    &&& a.len() <= providers.len()
    &&& forall|k: int| 0 <= k < a.len() ==> {
        &&& (#[trigger] a[k]).0 == providers[k].provider_id()
        &&& if by_name {
            providers[k].name_answer(query, a[k].1)
        } else {
            providers[k].hash_answer(query, a[k].1)
        }
    }
}

/// Asks each provider in order with `by_name` choosing the search, until
/// one fails.
fn ask_all(providers: &[&dyn Provider], query: &SearchQuery, by_name: bool) -> (r: Vec<Answer>)
    ensures
        answered_in_order(providers@.len() as int, r@),
        answered_by(providers@, *query, r@, by_name),
{
    let mut out: Vec<Answer> = Vec::new();
    let mut i: usize = 0;
    while i < providers.len()
        invariant
            i <= providers@.len(),
            out@.len() == i,
            forall|k: int| 0 <= k < out@.len() ==> (#[trigger] out@[k]).1 is Ok,
            answered_by(providers@, *query, out@, by_name),
        decreases providers.len() - i,
    {
        let p = providers[i];
        let a = if by_name {
            p.search_by_name(query)
        } else {
            p.search_by_hash(query)
        };
        let failed = a.is_err();
        let id = p.id();
        let ghost before = out@;
        out.push((id, a));
        proof {
            assert forall|k: int| 0 <= k < out@.len() implies {
                &&& (#[trigger] out@[k]).0 == providers@[k].provider_id()
                &&& if by_name {
                    providers@[k].name_answer(*query, out@[k].1)
                } else {
                    providers@[k].hash_answer(*query, out@[k].1)
                }
            } by {
                if k < before.len() {
                    assert(out@[k] == before[k]);
                }
            }
        }
        if failed {
            return out;
        }
        i += 1;
    }
    out
}

/// Whether some successful answer found a candidate.
fn any_found(a: &Vec<Answer>) -> (b: bool)
    requires
        first_err(a@) is None,
    ensures
        b == (exact_hits(oks(a@)).len() > 0),
{
    let mut i: usize = 0;
    let mut found = false;
    proof {
        assert(a@.take(0) =~= Seq::<Answer>::empty());
    }
    while i < a.len()
        invariant
            i <= a@.len(),
            first_err(a@) is None,
            found == (exact_hits(oks(a@.take(i as int))).len() > 0),
        decreases a.len() - i,
    {
        proof {
            assert(a@.take(i + 1).drop_last() =~= a@.take(i as int));
            lemma_first_err_prefix_none(a@, i + 1);
            lemma_exact_hits_push_len(oks(a@.take(i as int)), a@[i as int]);
        }
        match &a[i].1 {
            Ok(v) => {
                if v.len() > 0 {
                    found = true;
                }
            },
            Err(_) => {},
        }
        i += 1;
    }
    proof {
        assert(a@.take(a@.len() as int) =~= a@);
    }
    found
}

proof fn lemma_first_err_prefix_none(a: Seq<Answer>, k: int)
    requires
        0 <= k <= a.len(),
        first_err(a) is None,
    ensures
        first_err(a.take(k)) is None,
        k > 0 ==> a[k - 1].1 is Ok,
    decreases a.len() - k,
{
    if k < a.len() {
        assert(a.take(k + 1).drop_last() =~= a.take(k));
        lemma_first_err_prefix_none(a, k + 1);
        assert(a.take(k + 1).last() == a[k]);
        if k > 0 {
            assert(a.take(k + 1)[k - 1] == a[k - 1]);
            assert(a.take(k)[k - 1] == a[k - 1]);
            assert(a.take(k).last() == a[k - 1]);
        }
    } else {
        assert(a.take(k) =~= a);
        if k > 0 {
            assert(a.last() == a[k - 1]);
        }
    }
}

proof fn lemma_exact_hits_push_len(hs: Seq<(&'static str, Vec<Candidate>)>, a: Answer)
    ensures
        a.1 matches Ok(v) ==> exact_hits(hs.push((a.0, v))).len() == exact_hits(hs).len() + v@.len(),
{
    if let Ok(v) = a.1 {
        assert(hs.push((a.0, v)).drop_last() =~= hs);
    }
}

/// Matches a game: every provider is asked by content hash, in order; any
/// hash hit makes exact matches and ends the search; otherwise every
/// provider is asked by name, in order, and the name hits come back scored
/// against the file name and ranked. The first provider error is returned
/// and no later provider is asked. What the providers answer is theirs:
/// the result is [`outcome_spec`] of their answers, each the answer of
/// the search asked, with the query, under the provider's id, in that
/// order.
/// With no providers there is nothing to ask and nothing matches.
pub fn match_game(providers: &[&dyn Provider], query: &SearchQuery) -> (r: Result<Vec<MatchResult>, ProviderError>)
    ensures
        exists|hash: Seq<Answer>, names: Option<Seq<Answer>>|
            #[trigger] phases_ok(providers@.len() as int, hash, names) && answered_by(providers@, *query, hash, false)
                && (names matches Some(ns) ==> answered_by(providers@, *query, ns, true)) && result_view(r)
                == outcome_spec(query.filename@, hash, names),
        providers@.len() == 0 ==> (r matches Ok(v) && v@.len() == 0),
{
    let hash = ask_all(providers, query, false);
    let n = providers.len();
    let stop = if hash.len() < n {
        true
    } else if hash.len() > 0 && hash[hash.len() - 1].1.is_err() {
        true
    } else {
        proof {
            assert forall|k: int| 0 <= k < hash@.len() implies (#[trigger] hash@[k]).1 is Ok by {
                if k == hash@.len() - 1 {
                    assert(hash@.last() == hash@[k]);
                }
            }
            lemma_first_err_none(hash@);
        }
        any_found(&hash)
    };
    let names = if stop {
        None
    } else {
        Some(ask_all(providers, query, true))
    };
    let ghost h = hash@;
    let ghost nm = opt_answers(names);
    proof {
        if hash@.len() < n {
            assert(hash@.last().1 is Err);
            let k = (hash@.len() - 1) as int;
            assert(hash@.take(k + 1) =~= hash@);
            assert(hash@.take(k + 1).last() == hash@.last());
            assert(first_err(hash@) is Some) by {
                if first_err(hash@.drop_last()) is None {
                }
            }
        } else if hash@.len() > 0 && hash@.last().1 is Err {
            assert(first_err(hash@) is Some) by {
                if first_err(hash@.drop_last()) is None {
                }
            }
        }
        assert(phases_ok(n as int, h, nm));
        if n == 0 {
            assert(h =~= Seq::<Answer>::empty());
            assert(nm matches Some(ns) && ns.len() == 0);
            let ns = nm->0;
            assert(ns =~= Seq::<Answer>::empty());
            reveal_with_fuel(Seq::filter, 1);
            assert(scored(query.filename@, oks(ns)) =~= Seq::<MatchResult>::empty());
        }
    }
    match_outcome(query.filename, hash, names)
}

} // verus!
