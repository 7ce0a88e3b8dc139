//! ScreenScraper (`https://www.screenscraper.fr/api2`): what a request
//! carries and what a response means. The application sends the requests;
//! everything decided about them is here.
//!
//! Every request carries the developer credentials and the client name;
//! end-user credentials are optional. A hash lookup asks `jeuInfos.php` by
//! MD5, else by CRC32; a name search asks `jeuRecherche.php` with the file
//! stem. A hash miss is an absent or `null` `response.jeu`; a name search
//! answers a `response.jeux` array. Each `jeu` object gives a candidate
//! when it has a string `id` and some name text.

use vstd::prelude::*;

use crate::paths::{file_stem, file_stem_exec};
use crate::scan::hash::{hex8, hex_fixed};
use crate::scraper::provider::{Candidate, ProviderError, SearchQuery};
use crate::text::{chars_eq_str, chars_of, push_str, string_of};

verus! {

#[verifier::external_type_specification]
#[verifier::external_body]
pub struct ExJsonValue(serde_json::Value);

/// A JSON value. Numbers keep their text; object members keep the
/// parser's order.
#[derive(Debug)]
pub enum Json {
    Null,
    Bool(bool),
    Number(String),
    Str(String),
    Array(Vec<Json>),
    Object(Vec<(String, Json)>),
}

/// What `serde_json::from_str::<serde_json::Value>` makes of `text`: the
/// value, or the parser's message.
pub uninterp spec fn json_of(text: Seq<char>) -> Result<Json, Seq<char>>;

/// A `serde_json::Value` as a plain value.
#[verifier::external_body]
fn json_value(v: &serde_json::Value) -> (r: Json) {
    match v {
        serde_json::Value::Null => Json::Null,
        serde_json::Value::Bool(b) => Json::Bool(*b),
        serde_json::Value::Number(n) => Json::Number(n.to_string()),
        serde_json::Value::String(s) => Json::Str(s.clone()),
        serde_json::Value::Array(a) => Json::Array(a.iter().map(json_value).collect()),
        serde_json::Value::Object(o) => Json::Object(o.iter().map(|(k, x)| (k.clone(), json_value(x))).collect()),
    }
}

/// `serde_json::from_str::<serde_json::Value>`: the document's value or
/// the parser's message; the result depends on `text` alone.
#[verifier::external_body]
pub(crate) fn parse_json(text: &str) -> (r: Result<Json, String>)
    ensures
        match r {
            Ok(j) => json_of(text@) == Ok::<Json, Seq<char>>(j),
            Err(m) => json_of(text@) == Err::<Json, Seq<char>>(m@),
        },
{
    match serde_json::from_str::<serde_json::Value>(text) {
        Ok(v) => Ok(json_value(&v)),
        Err(e) => Err(e.to_string()),
    }
}

/// The value of the first member named `key`, when `j` is an object that
/// has one.
pub open spec fn member(j: Json, key: Seq<char>) -> Option<Json> {
    match j {
        Json::Object(ms) => member_in(ms@, key),
        _ => None,
    }
}

pub open spec fn member_in(ms: Seq<(String, Json)>, key: Seq<char>) -> Option<Json>
    decreases ms.len(),
{
    if ms.len() == 0 {
        None
    } else if ms[0].0@ == key {
        Some(ms[0].1)
    } else {
        member_in(ms.drop_first(), key)
    }
}

/// The text of a string value.
pub open spec fn as_text(j: Option<Json>) -> Option<Seq<char>> {
    match j {
        Some(Json::Str(s)) => Some(s@),
        _ => None,
    }
}

fn member_exec<'a>(j: &'a Json, key: &str) -> (r: Option<&'a Json>)
    ensures
        match r {
            Some(v) => member(*j, key@) == Some(*v),
            None => member(*j, key@) is None,
        },
{
    match j {
        Json::Object(ms) => {
            let mut i: usize = 0;
            proof {
                assert(ms@.skip(0) =~= ms@);
            }
            while i < ms.len()
                invariant
                    i <= ms@.len(),
                    member(*j, key@) == member_in(ms@, key@),
                    member_in(ms@, key@) == member_in(ms@.skip(i as int), key@),
                decreases ms.len() - i,
            {
                proof {
                    let rest = ms@.skip(i as int);
                    assert(rest[0] == ms@[i as int]);
                    assert(rest.drop_first() =~= ms@.skip(i + 1));
                }
                if chars_eq_str(chars_of(ms[i].0.as_str()).as_slice(), key) {
                    proof {
                        assert(ms@.skip(i as int)[0].0@ == key@);
                    }
                    return Some(&ms[i].1);
                }
                i += 1;
            }
            proof {
                assert(ms@.skip(i as int).len() == 0);
            }
            None
        },
        _ => None,
    }
}

fn text_of(j: Option<&Json>) -> (r: Option<String>)
    ensures
        crate::text::opt_view(r) == as_text(
            match j {
                Some(v) => Some(*v),
                None => None,
            },
        ),
{
    match j {
        Some(Json::Str(s)) => Some(string_of(&chars_of(s.as_str()))),
        _ => None,
    }
}

/// The first `text` string among the name objects of `noms`.
pub open spec fn first_name(noms: Seq<Json>) -> Option<Seq<char>>
    decreases noms.len(),
{
    if noms.len() == 0 {
        None
    } else {
        match as_text(member(noms[0], "text"@)) {
            Some(t) => Some(t),
            None => first_name(noms.drop_first()),
        }
    }
}

/// The candidate a `jeu` object gives: its string `id` and the first name
/// text of its `noms` array; `None` when either is missing.
pub open spec fn jeu_candidate(jeu: Json, slug: Seq<char>) -> Option<(Seq<char>, Seq<char>, Seq<char>)> {
    match as_text(member(jeu, "id"@)) {
        None => None,
        Some(id) => match member(jeu, "noms"@) {
            Some(Json::Array(noms)) => match first_name(noms@) {
                Some(name) => Some((id, name, slug)),
                None => None,
            },
            _ => None,
        },
    }
}

pub open spec fn candidate_view(c: Candidate) -> (Seq<char>, Seq<char>, Seq<char>) {
    (c.external_id@, c.name@, c.system_slug@)
}

pub open spec fn candidates_view(v: Seq<Candidate>) -> Seq<(Seq<char>, Seq<char>, Seq<char>)> {
    v.map_values(|c: Candidate| candidate_view(c))
}

/// Maps a `jeu` object to a candidate for `system_slug`.
pub fn candidate_from_jeu(jeu: &Json, system_slug: &str) -> (r: Option<Candidate>)
    ensures
        match r {
            Some(c) => jeu_candidate(*jeu, system_slug@) == Some(candidate_view(c)),
            None => jeu_candidate(*jeu, system_slug@) is None,
        },
{
    let id = match text_of(member_exec(jeu, "id")) {
        Some(id) => id,
        None => return None,
    };
    let noms = match member_exec(jeu, "noms") {
        Some(Json::Array(noms)) => noms,
        _ => return None,
    };
    let mut i: usize = 0;
    proof {
        assert(noms@.skip(0) =~= noms@);
    }
    while i < noms.len()
        invariant
            i <= noms@.len(),
            as_text(member(*jeu, "id"@)) == Some(id@),
            member(*jeu, "noms"@) == Some(Json::Array(*noms)),
            first_name(noms@) == first_name(noms@.skip(i as int)),
        decreases noms.len() - i,
    {
        proof {
            let rest = noms@.skip(i as int);
            assert(rest[0] == noms@[i as int]);
            assert(rest.drop_first() =~= noms@.skip(i + 1));
        }
        match text_of(member_exec(&noms[i], "text")) {
            Some(name) => {
                proof {
                    assert(noms@.skip(i as int)[0] == noms@[i as int]);
                    assert(first_name(noms@.skip(i as int)) == Some(name@));
                }
                return Some(
                    Candidate {
                        external_id: id,
                        name,
                        system_slug: string_of(&chars_of(system_slug)),
                    },
                );
            },
            None => {},
        }
        i += 1;
    }
    proof {
        assert(noms@.skip(i as int).len() == 0);
    }
    None
}

/// The candidates of a hash lookup's answer: none when `response.jeu` is
/// absent or `null`, else the one its object gives, if any.
pub open spec fn hash_answer(body: Json, slug: Seq<char>) -> Seq<(Seq<char>, Seq<char>, Seq<char>)> {
    match member(body, "response"@) {
        None => Seq::empty(),
        Some(resp) => match member(resp, "jeu"@) {
            None => Seq::empty(),
            Some(Json::Null) => Seq::empty(),
            Some(jeu) => match jeu_candidate(jeu, slug) {
                Some(c) => seq![c],
                None => Seq::empty(),
            },
        },
    }
}

/// The candidates of a hash lookup's answer `body`.
pub fn hash_results(body: &Json, system_slug: &str) -> (r: Vec<Candidate>)
    ensures
        candidates_view(r@) == hash_answer(*body, system_slug@),
{
    let mut out: Vec<Candidate> = Vec::new();
    let jeu = match member_exec(body, "response") {
        None => None,
        Some(resp) => member_exec(resp, "jeu"),
    };
    match jeu {
        None => {},
        Some(Json::Null) => {},
        Some(j) => match candidate_from_jeu(j, system_slug) {
            Some(c) => out.push(c),
            None => {},
        },
    }
    proof {
        assert(candidates_view(out@) =~= hash_answer(*body, system_slug@));
    }
    out
}

/// The candidates of the `jeu` objects, in order, skipping those that give
/// none.
pub open spec fn jeux_candidates(jeux: Seq<Json>, slug: Seq<char>) -> Seq<(Seq<char>, Seq<char>, Seq<char>)>
    decreases jeux.len(),
{
    if jeux.len() == 0 {
        Seq::empty()
    } else {
        jeux_candidates(jeux.drop_last(), slug) + match jeu_candidate(jeux.last(), slug) {
            Some(c) => seq![c],
            None => Seq::empty(),
        }
    }
}

/// The candidates of a name search's answer: those of the `response.jeux`
/// array, none when there is no such array.
pub open spec fn name_answer(body: Json, slug: Seq<char>) -> Seq<(Seq<char>, Seq<char>, Seq<char>)> {
    match member(body, "response"@) {
        Some(resp) => match member(resp, "jeux"@) {
            Some(Json::Array(jeux)) => jeux_candidates(jeux@, slug),
            _ => Seq::empty(),
        },
        None => Seq::empty(),
    }
}

/// The candidates of a name search's answer `body`, unranked.
pub fn name_results(body: &Json, system_slug: &str) -> (r: Vec<Candidate>)
    ensures
        candidates_view(r@) == name_answer(*body, system_slug@),
{
    let mut out: Vec<Candidate> = Vec::new();
    let jeux = match member_exec(body, "response") {
        Some(resp) => match member_exec(resp, "jeux") {
            Some(Json::Array(jeux)) => jeux,
            _ => {
                proof {
                    assert(candidates_view(out@) =~= Seq::<(Seq<char>, Seq<char>, Seq<char>)>::empty());
                }
                return out;
            },
        },
        None => {
            proof {
                assert(candidates_view(out@) =~= Seq::<(Seq<char>, Seq<char>, Seq<char>)>::empty());
            }
            return out;
        },
    };
    let mut i: usize = 0;
    proof {
        assert(jeux@.take(0) =~= Seq::<Json>::empty());
        assert(candidates_view(out@) =~= jeux_candidates(jeux@.take(0), system_slug@));
    }
    while i < jeux.len()
        invariant
            i <= jeux@.len(),
            candidates_view(out@) == jeux_candidates(jeux@.take(i as int), system_slug@),
        decreases jeux.len() - i,
    {
        let ghost prev = candidates_view(out@);
        proof {
            let t = jeux@.take(i + 1);
            assert(t.drop_last() =~= jeux@.take(i as int));
            assert(t.last() == jeux@[i as int]);
        }
        match candidate_from_jeu(&jeux[i], system_slug) {
            Some(c) => {
                out.push(c);
                proof {
                    assert(candidates_view(out@) =~= prev.push(candidate_view(out@.last())));
                }
            },
            None => {
                proof {
                    assert(prev + Seq::<(Seq<char>, Seq<char>, Seq<char>)>::empty() =~= prev);
                }
            },
        }
        i += 1;
    }
    proof {
        assert(jeux@.take(jeux@.len() as int) =~= jeux@);
    }
    out
}

/// A response body read as JSON, or the provider error for one that is
/// not: `"invalid JSON: "` and the parser's message.
pub fn parse_body(text: &str) -> (r: Result<Json, ProviderError>)
    ensures
        match json_of(text@) {
            Ok(j) => r == Ok::<Json, ProviderError>(j),
            Err(m) => r matches Err(ProviderError::Network(e)) && e@ == "invalid JSON: "@ + m,
        },
{
    match parse_json(text) {
        Ok(j) => Ok(j),
        Err(m) => {
            let mut e = chars_of("invalid JSON: ");
            push_str(&mut e, m.as_str());
            Err(ProviderError::Network(string_of(&e)))
        },
    }
}

/// The provider error for an HTTP status: 429 means rate limited, another
/// status outside `200..=299` a network error `"HTTP "` followed by the
/// status as the HTTP client displays it (`status_text`); a success none.
pub fn status_error(status: u16, status_text: &str) -> (r: Option<ProviderError>)
    ensures
        status == 429 ==> r == Some(ProviderError::RateLimited),
        status != 429 && 200 <= status <= 299 ==> r is None,
        status != 429 && !(200 <= status <= 299) ==> (r matches Some(ProviderError::Network(m)) && m@
            == "HTTP "@ + status_text@),
{
    if status == 429 {
        Some(ProviderError::RateLimited)
    } else if 200 <= status && status <= 299 {
        None
    } else {
        let mut m = chars_of("HTTP ");
        push_str(&mut m, status_text);
        Some(ProviderError::Network(string_of(&m)))
    }
}

/// Credentials and host of a ScreenScraper client; `user` holds the
/// optional end-user login and password.
pub struct ScreenScraperProvider {
    base_url: String,
    dev_id: String,
    dev_password: String,
    user: Option<(String, String)>,
}

/// A list of query parameters as text pairs.
pub open spec fn params_view(v: Seq<(&'static str, String)>) -> Seq<(Seq<char>, Seq<char>)> {
    v.map_values(|p: (&'static str, String)| (p.0@, p.1@))
}

impl ScreenScraperProvider {
    pub closed spec fn spec_base_url(&self) -> Seq<char> {
        self.base_url@
    }

    pub closed spec fn spec_dev_id(&self) -> Seq<char> {
        self.dev_id@
    }

    pub closed spec fn spec_dev_password(&self) -> Seq<char> {
        self.dev_password@
    }

    pub closed spec fn spec_user(&self) -> Option<(Seq<char>, Seq<char>)> {
        match self.user {
            Some((l, p)) => Some((l@, p@)),
            None => None,
        }
    }

    /// Anonymous mode, against the real API
    /// (`https://www.screenscraper.fr/api2`).
    pub fn new(dev_id: String, dev_password: String) -> (p: Self)
        ensures
            p.spec_base_url() == "https://www.screenscraper.fr/api2"@,
            p.spec_dev_id() == dev_id@,
            p.spec_dev_password() == dev_password@,
            p.spec_user() is None,
    {
        ScreenScraperProvider {
            base_url: string_of(&chars_of("https://www.screenscraper.fr/api2")),
            dev_id,
            dev_password,
            user: None,
        }
    }

    /// Adds end-user credentials.
    pub fn with_user(self, login: String, password: String) -> (p: Self)
        ensures
            p.spec_base_url() == self.spec_base_url(),
            p.spec_dev_id() == self.spec_dev_id(),
            p.spec_dev_password() == self.spec_dev_password(),
            p.spec_user() == Some((login@, password@)),
    {
        ScreenScraperProvider { user: Some((login, password)), ..self }
    }

    /// Points the client at another host.
    pub fn with_base_url(self, base_url: String) -> (p: Self)
        ensures
            p.spec_base_url() == base_url@,
            p.spec_dev_id() == self.spec_dev_id(),
            p.spec_dev_password() == self.spec_dev_password(),
            p.spec_user() == self.spec_user(),
    {
        ScreenScraperProvider { base_url, ..self }
    }

    /// The parameters of every request: `devid`, `devpassword`,
    /// `softname` (the client name, `relic`), then `ssid` and `sspassword`
    /// when a user is set.
    pub open spec fn auth_spec(&self) -> Seq<(Seq<char>, Seq<char>)> {
        seq![
            ("devid"@, self.spec_dev_id()),
            ("devpassword"@, self.spec_dev_password()),
            ("softname"@, "relic"@),
        ] + match self.spec_user() {
            Some((l, p)) => seq![("ssid"@, l), ("sspassword"@, p)],
            None => Seq::empty(),
        }
    }

    pub fn auth_params(&self) -> (r: Vec<(&'static str, String)>)
        ensures
            params_view(r@) == self.auth_spec(),
    {
        let mut params: Vec<(&'static str, String)> = Vec::new();
        params.push(("devid", string_of(&chars_of(self.dev_id.as_str()))));
        params.push(("devpassword", string_of(&chars_of(self.dev_password.as_str()))));
        params.push(("softname", string_of(&chars_of("relic"))));
        match &self.user {
            Some((login, password)) => {
                params.push(("ssid", string_of(&chars_of(login.as_str()))));
                params.push(("sspassword", string_of(&chars_of(password.as_str()))));
            },
            None => {},
        }
        proof {
            assert(params_view(params@) =~= self.auth_spec());
        }
        params
    }

    /// Whether both developer credentials are set; a client without them
    /// answers `NotConfigured` without a request.
    pub fn is_configured(&self) -> (b: bool)
        ensures
            b == (self.spec_dev_id().len() > 0 && self.spec_dev_password().len() > 0),
    {
        chars_of(self.dev_id.as_str()).len() > 0 && chars_of(self.dev_password.as_str()).len() > 0
    }

    /// `base_url/endpoint`.
    pub fn endpoint_url(&self, endpoint: &str) -> (r: String)
        ensures
            r@ == self.spec_base_url() + "/"@ + endpoint@,
    {
        let mut u = chars_of(self.base_url.as_str());
        push_str(&mut u, "/");
        push_str(&mut u, endpoint);
        string_of(&u)
    }
}

/// The extra parameters of a hash lookup: `md5` when the query has one,
/// else `crc` as eight lowercase hex digits, then `systemname`; `None`
/// when the query has no hash (the lookup then finds nothing, without a
/// request).
pub open spec fn hash_params_spec(
    md5: Option<Seq<char>>,
    crc32: Option<u32>,
    slug: Seq<char>,
) -> Option<Seq<(Seq<char>, Seq<char>)>> {
    match md5 {
        Some(m) => Some(seq![("md5"@, m), ("systemname"@, slug)]),
        None => match crc32 {
            Some(c) => Some(seq![("crc"@, hex_fixed(c as nat, 8)), ("systemname"@, slug)]),
            None => None,
        },
    }
}

pub open spec fn md5_of(q: SearchQuery) -> Option<Seq<char>> {
    match q.md5 {
        Some(m) => Some(m@),
        None => None,
    }
}

/// The extra parameters of a hash lookup for `query`.
pub fn hash_params(query: &SearchQuery) -> (r: Option<Vec<(&'static str, String)>>)
    ensures
        match r {
            Some(v) => hash_params_spec(md5_of(*query), query.crc32, query.system_slug@) == Some(
                params_view(v@),
            ),
            None => hash_params_spec(md5_of(*query), query.crc32, query.system_slug@) is None,
        },
{
    let mut extra: Vec<(&'static str, String)> = Vec::new();
    match query.md5 {
        Some(m) => extra.push(("md5", string_of(&chars_of(m)))),
        None => match query.crc32 {
            Some(c) => extra.push(("crc", hex8(c))),
            None => return None,
        },
    }
    extra.push(("systemname", string_of(&chars_of(query.system_slug))));
    proof {
        assert(params_view(extra@) =~= hash_params_spec(
            md5_of(*query),
            query.crc32,
            query.system_slug@,
        ).unwrap());
    }
    Some(extra)
}

/// The search term of a name search: the file name's stem (the whole
/// name when it has none).
pub open spec fn search_term(filename: Seq<char>) -> Seq<char> {
    match file_stem(filename) {
        Some(s) => s,
        None => filename,
    }
}

/// The extra parameters of a name search: `recherche` (the search term)
/// and `systemname`.
pub fn name_params(query: &SearchQuery) -> (r: Vec<(&'static str, String)>)
    ensures
        params_view(r@) == seq![
            ("recherche"@, search_term(query.filename@)),
            ("systemname"@, query.system_slug@),
        ],
{
    let f = chars_of(query.filename);
    let term = match file_stem_exec(f.as_slice()) {
        Some(s) => string_of(&s),
        None => string_of(&f),
    };
    let mut extra: Vec<(&'static str, String)> = Vec::new();
    extra.push(("recherche", term));
    extra.push(("systemname", string_of(&chars_of(query.system_slug))));
    proof {
        assert(params_view(extra@) =~= seq![
            ("recherche"@, search_term(query.filename@)),
            ("systemname"@, query.system_slug@),
        ]);
    }
    extra
}

} // verus!
