//! The decisions of the RetroAchievements client: how requests are paced,
//! when a failed request is retried and after how long, when the circuit
//! breaker opens and closes, and what a lookup asks and answers.
//!
//! The application performs the HTTP requests and the waiting; it feeds
//! the clock (nanoseconds of a monotonic clock) and each outcome to a
//! [`RateLimiter`] and does what it answers.

use vstd::prelude::*;

use crate::scan::{int_text, nat_text, push_i64, push_u64};
use crate::text::{chars_of, opt_view, push_str, string_of};

verus! {

/// The game RetroAchievements knows a hash as.
#[derive(Debug, Clone, PartialEq, Eq)]
pub struct GameIdMatch {
    pub game_id: i64,
}

/// Errors of the RetroAchievements client.
#[derive(Debug, Clone, PartialEq, Eq)]
pub enum RaClientError {
    /// Connection or response reading problems.
    Network(String),
    /// Still rate limited (429) after every retry.
    RateLimited,
    /// The circuit breaker is open; nothing was sent.
    CircuitBreakerOpen,
    /// Another non-success status.
    HttpError(u16, String),
}

impl RaClientError {
    pub open spec fn text(self) -> Seq<char> {
        match self {
            RaClientError::Network(m) => "network error: "@ + m@,
            RaClientError::RateLimited => "rate limited (429)"@,
            RaClientError::CircuitBreakerOpen => "circuit breaker is open"@,
            RaClientError::HttpError(c, m) => "HTTP error "@ + nat_text(c as nat) + ": "@ + m@,
        }
    }

    /// The error as text.
    pub fn message(&self) -> (r: String)
        ensures
            r@ == self.text(),
    {
        match self {
            RaClientError::Network(m) => {
                let mut out = chars_of("network error: ");
                push_str(&mut out, m.as_str());
                string_of(&out)
            },
            RaClientError::RateLimited => string_of(&chars_of("rate limited (429)")),
            RaClientError::CircuitBreakerOpen => string_of(&chars_of("circuit breaker is open")),
            RaClientError::HttpError(c, m) => {
                let mut out = chars_of("HTTP error ");
                push_u64(&mut out, *c as u64);
                push_str(&mut out, ": ");
                push_str(&mut out, m.as_str());
                proof {
                    assert(out@ =~= "HTTP error "@ + nat_text(*c as nat) + ": "@ + m@);
                }
                string_of(&out)
            },
        }
    }
}

/// Pacing, retry and circuit-breaker settings. Durations are in
/// nanoseconds, except the base backoff, which counts whole milliseconds.
#[derive(Debug, Clone, Copy)]
pub struct LimitConfig {
    /// Least time between two requests (one over the requests per second).
    pub min_interval_ns: u64,
    /// Most requests within any minute.
    pub max_reqs_per_min: usize,
    /// First backoff after a failed attempt.
    pub base_backoff_ms: u64,
    /// Longest backoff.
    pub max_backoff_ns: u64,
    /// Retries of one request before it fails.
    pub max_retries: usize,
    /// Consecutive failures that open the circuit breaker.
    pub breaker_threshold: usize,
    /// How long an open breaker refuses requests.
    pub breaker_duration_ns: u64,
}

pub const MINUTE_NS: u64 = 60_000_000_000;

impl LimitConfig {
    /// The standard settings: 5 requests per second, 200 per minute, a
    /// 500 ms base and 60 s longest backoff, 3 retries, and a breaker that
    /// opens after 5 consecutive failures for 10 minutes.
    pub fn standard() -> (c: LimitConfig)
        ensures
            c.min_interval_ns == 200_000_000,
            c.max_reqs_per_min == 200,
            c.base_backoff_ms == 500,
            c.max_backoff_ns == 60_000_000_000,
            c.max_retries == 3,
            c.breaker_threshold == 5,
            c.breaker_duration_ns == 600_000_000_000,
    {
        LimitConfig {
            min_interval_ns: 200_000_000,
            max_reqs_per_min: 200,
            base_backoff_ms: 500,
            max_backoff_ns: 60_000_000_000,
            max_retries: 3,
            breaker_threshold: 5,
            breaker_duration_ns: 600_000_000_000,
        }
    }
}

/// Time from `t` to `now`, zero when `t` is later (`Instant::duration_since`).
pub open spec fn elapsed(now: u64, t: u64) -> int {
    if now >= t {
        now - t
    } else {
        0
    }
}

fn elapsed_exec(now: u64, t: u64) -> (r: u64)
    ensures
        r == elapsed(now, t),
{
    if now >= t {
        now - t
    } else {
        0
    }
}

/// The requests of `recent` less than a minute before `now`.
pub open spec fn within_minute(recent: Seq<u64>, now: u64) -> Seq<u64> {
    recent.filter(|t: u64| elapsed(now, t) < MINUTE_NS)
}

/// How long a request at `now` waits so that it comes at least `min`
/// after the last of `kept`: none when there is none.
pub open spec fn second_wait(kept: Seq<u64>, now: u64, min: u64) -> int {
    if kept.len() == 0 {
        0
    } else if elapsed(now, kept.last()) < min {
        min - elapsed(now, kept.last())
    } else {
        0
    }
}

/// The view of the limiter's state.
pub struct LimiterView {
    /// Start times of recent requests, oldest first.
    pub recent: Seq<u64>,
    /// Consecutive failed attempts.
    pub failures: nat,
    /// When the breaker opened, while it is open.
    pub tripped_at: Option<u64>,
    /// 429 responses seen.
    pub rate_limit_hits: nat,
}

/// The client's pacing and breaker state.
pub struct RateLimiter {
    config: LimitConfig,
    recent: Vec<u64>,
    failures: usize,
    tripped_at: Option<u64>,
    rate_limit_hits: usize,
}

/// What to do after an attempt.
#[derive(Debug, Clone, PartialEq, Eq)]
pub enum Next {
    /// The response is good: use it.
    Done,
    /// Wait `backoff_ns`, then make attempt number `attempt`.
    Retry { attempt: usize, backoff_ns: u64 },
    /// Give up with this error.
    Fail(RaClientError),
}

/// How an attempt ended: a network error (with its message), or a
/// response status (code and its display text).
pub enum Outcome {
    NetworkError(String),
    Status(u16, String),
}

/// A 2xx status.
pub open spec fn is_success(o: Outcome) -> bool {
    match o {
        Outcome::Status(c, _) => 200 <= c <= 299,
        _ => false,
    }
}

/// A retry is of the next attempt, within the retries, after the backoff
/// for that attempt.
pub open spec fn retry_ok(c: LimitConfig, attempt: usize, nanos: u64, next: Next) -> bool {
    next matches Next::Retry { attempt: a, backoff_ns: b } ==> a == attempt + 1 && a
        <= c.max_retries && b == backoff_ns(c, a, nanos)
}

/// After a network error: retry while retries remain, else fail with it.
pub open spec fn network_next(c: LimitConfig, attempt: usize, m: Seq<char>, next: Next) -> bool {
    if attempt < c.max_retries {
        next is Retry
    } else {
        next matches Next::Fail(RaClientError::Network(x)) && x@ == m
    }
}

/// After a response with status `code` (displayed as `d`).
pub open spec fn status_next(c: LimitConfig, attempt: usize, code: u16, d: Seq<char>, next: Next) -> bool {
    if 200 <= code <= 299 {
        next is Done
    } else if (code == 429 || 500 <= code <= 599) && attempt < c.max_retries {
        next is Retry
    } else if code == 429 {
        next matches Next::Fail(RaClientError::RateLimited)
    } else {
        next matches Next::Fail(RaClientError::HttpError(k, m)) && k == code && m@ == "HTTP status "@
            + d
    }
}

pub open spec fn next_ok(c: LimitConfig, attempt: usize, o: Outcome, next: Next) -> bool {
    match o {
        Outcome::NetworkError(m) => network_next(c, attempt, m@, next),
        Outcome::Status(code, d) => status_next(c, attempt, code, d@, next),
    }
}

/// The limiter's state after an attempt ended with `o` at `now`: a 2xx
/// clears failures and breaker; anything else is a failure (a 429 also
/// counted as a rate-limit hit).
pub open spec fn state_after(s: LimiterView, c: LimitConfig, o: Outcome, now: u64) -> LimiterView {
    if is_success(o) {
        LimiterView { failures: 0, tripped_at: None, ..s }
    } else {
        let s1 = if o matches Outcome::Status(429, _) {
            LimiterView { rate_limit_hits: s.rate_limit_hits + 1, ..s }
        } else {
            s
        };
        after_failure(s1, c.breaker_threshold, now)
    }
}

/// The breaker state after a failed attempt at `now`.
pub open spec fn after_failure(s: LimiterView, threshold: usize, now: u64) -> LimiterView {
    let f = s.failures + 1;
    LimiterView {
        failures: f,
        tripped_at: if f >= threshold {
            Some(now)
        } else {
            s.tripped_at
        },
        ..s
    }
}

/// Whether the breaker refuses a request at `now`.
pub open spec fn breaker_refuses(s: LimiterView, duration: u64, now: u64) -> bool {
    match s.tripped_at {
        Some(t) => elapsed(now, t) < duration,
        None => false,
    }
}

/// The backoff multiplier for an attempt: `2^(attempt - 1)`, or `u32::MAX`
/// when the shift is 32 or more.
pub open spec fn multiplier(attempt: usize) -> nat {
    let s = (attempt as u32) - 1;
    if s < 32 {
        (1u32 << s) as nat
    } else {
        u32::MAX as nat
    }
}

/// The jitter drawn from the clock's sub-second nanoseconds.
pub open spec fn jitter(nanos: u64, max_jitter: u64) -> u64 {
    (nanos.wrapping_mul(6364136223846793005).wrapping_add(1) as int % (max_jitter as int + 1)) as u64
}

/// The backoff, in nanoseconds, before attempt `attempt`: the base times
/// the multiplier (saturating), plus jitter of up to a fifth of that (at
/// least 50 ms), capped at the longest backoff.
pub open spec fn backoff_ns(c: LimitConfig, attempt: usize, nanos: u64) -> int {
    let b = if c.base_backoff_ms * multiplier(attempt) > u64::MAX {
        u64::MAX as int
    } else {
        c.base_backoff_ms * multiplier(attempt)
    };
    let mj = if b / 5 > 50 {
        b / 5
    } else {
        50
    };
    let j = jitter(nanos, mj as u64);
    let t = if b + j > u64::MAX {
        u64::MAX as int
    } else {
        b + j
    };
    if t * 1_000_000 > c.max_backoff_ns {
        c.max_backoff_ns as int
    } else {
        t * 1_000_000
    }
}

impl RateLimiter {
    /// The settings the limiter was made with.
    pub closed spec fn cfg(&self) -> LimitConfig {
        self.config
    }

    /// The settings the limiter was made with.
    pub fn config(&self) -> (c: LimitConfig)
        ensures
            c == self.cfg(),
    {
        self.config
    }

    pub closed spec fn view(&self) -> LimiterView {
        LimiterView {
            recent: self.recent@,
            failures: self.failures as nat,
            tripped_at: self.tripped_at,
            rate_limit_hits: self.rate_limit_hits as nat,
        }
    }

    /// A limiter with no history.
    pub fn new(config: LimitConfig) -> (r: RateLimiter)
        ensures
            r.cfg() == config,
            r.view().recent.len() == 0,
            r.view().failures == 0,
            r.view().tripped_at is None,
            r.view().rate_limit_hits == 0,
    {
        RateLimiter { config, recent: Vec::new(), failures: 0, tripped_at: None, rate_limit_hits: 0 }
    }

    /// Consecutive failed attempts so far.
    pub fn failures(&self) -> (r: usize)
        ensures
            r == self.view().failures,
    {
        self.failures
    }

    /// 429 responses seen so far.
    pub fn rate_limit_hits(&self) -> (r: usize)
        ensures
            r == self.view().rate_limit_hits,
    {
        self.rate_limit_hits
    }

    /// First gate of a request at `now`: an open breaker refuses it; one
    /// whose time is up closes and forgets the failures.
    pub fn check_breaker(&mut self, now: u64) -> (r: Result<(), RaClientError>)
        ensures
            final(self).cfg() == old(self).cfg(),
            final(self).view().recent == old(self).view().recent,
            final(self).view().rate_limit_hits == old(self).view().rate_limit_hits,
            breaker_refuses(old(self).view(), old(self).cfg().breaker_duration_ns, now) ==> r
                == Err::<(), RaClientError>(RaClientError::CircuitBreakerOpen) && final(self).view()
                == old(self).view(),
            !breaker_refuses(old(self).view(), old(self).cfg().breaker_duration_ns, now) ==> r
                is Ok && (old(self).view().tripped_at is Some ==> final(self).view().failures == 0
                && final(self).view().tripped_at is None) && (old(self).view().tripped_at is None
                ==> final(self).view() == old(self).view()),
    {
        match self.tripped_at {
            Some(t) => {
                if elapsed_exec(now, t) < self.config.breaker_duration_ns {
                    return Err(RaClientError::CircuitBreakerOpen);
                }
                self.tripped_at = None;
                self.failures = 0;
                Ok(())
            },
            None => Ok(()),
        }
    }

    /// Second gate at `now`: forgets requests older than a minute and
    /// answers how long to wait so requests keep the least interval.
    pub fn pace_per_second(&mut self, now: u64) -> (wait: u64)
        ensures
            final(self).cfg() == old(self).cfg(),
            final(self).view().failures == old(self).view().failures,
            final(self).view().tripped_at == old(self).view().tripped_at,
            final(self).view().rate_limit_hits == old(self).view().rate_limit_hits,
            final(self).view().recent == within_minute(old(self).view().recent, now),
            wait == second_wait(final(self).view().recent, now, old(self).cfg().min_interval_ns),
    {
        let mut kept: Vec<u64> = Vec::new();
        let mut i: usize = 0;
        while i < self.recent.len()
            invariant
                i <= self.recent@.len(),
                kept@ == self.recent@.take(i as int).filter(|t: u64| elapsed(now, t) < MINUTE_NS),
            decreases self.recent.len() - i,
        {
            proof {
                assert(self.recent@.take(i + 1).drop_last() =~= self.recent@.take(i as int));
                reveal_with_fuel(Seq::filter, 1);
            }
            if elapsed_exec(now, self.recent[i]) < MINUTE_NS {
                kept.push(self.recent[i]);
            }
            i += 1;
        }
        proof {
            assert(self.recent@.take(self.recent@.len() as int) =~= self.recent@);
        }
        self.recent = kept;
        let n = self.recent.len();
        if n == 0 {
            return 0;
        }
        let e = elapsed_exec(now, self.recent[n - 1]);
        if e < self.config.min_interval_ns {
            self.config.min_interval_ns - e
        } else {
            0
        }
    }

    /// Third gate at `now` (after the first wait): with a full minute's
    /// quota, how long until the oldest request is a minute old.
    pub fn pace_per_minute(&self, now: u64) -> (wait: u64)
        requires
            self.cfg().max_reqs_per_min > 0 || self.view().recent.len() > 0,
        ensures
            self.view().recent.len() >= self.cfg().max_reqs_per_min ==> wait == if elapsed(
                now,
                self.view().recent[0],
            ) < MINUTE_NS {
                MINUTE_NS - elapsed(now, self.view().recent[0])
            } else {
                0
            },
            self.view().recent.len() < self.cfg().max_reqs_per_min ==> wait == 0,
    {
        if self.recent.len() >= self.config.max_reqs_per_min {
            let e = elapsed_exec(now, self.recent[0]);
            if e < MINUTE_NS {
                MINUTE_NS - e
            } else {
                0
            }
        } else {
            0
        }
    }

    /// Records that a request starts at `now`.
    pub fn start_request(&mut self, now: u64)
        ensures
            final(self).cfg() == old(self).cfg(),
            final(self).view() == (LimiterView { recent: old(self).view().recent.push(now), ..old(self).view() }),
    {
        self.recent.push(now);
    }

    /// A good response: the failure count and the breaker are cleared.
    pub fn record_success(&mut self)
        ensures
            final(self).cfg() == old(self).cfg(),
            final(self).view() == (LimiterView { failures: 0, tripped_at: None, ..old(self).view() }),
    {
        self.failures = 0;
        self.tripped_at = None;
    }

    /// A failed attempt at `now`: one more consecutive failure, and the
    /// breaker opens once there are as many as the threshold.
    pub fn record_failure(&mut self, now: u64)
        requires
            old(self).view().failures < usize::MAX,
        ensures
            final(self).cfg() == old(self).cfg(),
            final(self).view() == after_failure(old(self).view(), old(self).cfg().breaker_threshold, now),
    {
        self.failures = self.failures + 1;
        if self.failures >= self.config.breaker_threshold {
            self.tripped_at = Some(now);
        }
    }

    /// The backoff before attempt `attempt` (counted from 1), with jitter
    /// drawn from the clock's sub-second nanoseconds `nanos`.
    pub fn backoff(&self, attempt: usize, nanos: u64) -> (r: u64)
        requires
            attempt as u32 >= 1,
        ensures
            r == backoff_ns(self.cfg(), attempt, nanos),
            r <= self.cfg().max_backoff_ns,
    {
        let s: u32 = (attempt as u32) - 1;
        let m: u64 = if s < 32 {
            (1u32 << s) as u64
        } else {
            u32::MAX as u64
        };
        let base = self.config.base_backoff_ms;
        let b: u64 = if base != 0 && m > u64::MAX / base {
            proof {
                assert(base * m > u64::MAX) by (nonlinear_arith)
                    requires
                        base != 0,
                        m > u64::MAX / base,
                ;
            }
            u64::MAX
        } else {
            proof {
                if base != 0 {
                    assert(base * m <= u64::MAX) by (nonlinear_arith)
                        requires
                            base != 0,
                            m <= u64::MAX / base,
                    ;
                }
            }
            base * m
        };
        let mj: u64 = if b / 5 > 50 {
            b / 5
        } else {
            50
        };
        let seed = nanos.wrapping_mul(6364136223846793005).wrapping_add(1);
        let j = seed % (mj + 1);
        let t = b.saturating_add(j);
        if (t as u128) * 1_000_000 > self.config.max_backoff_ns as u128 {
            self.config.max_backoff_ns
        } else {
            ((t as u128) * 1_000_000) as u64
        }
    }

    fn on_network_error(&mut self, attempt: usize, m: &String, now: u64, nanos: u64) -> (next: Next)
        requires
            old(self).view().failures < usize::MAX,
            attempt < usize::MAX,
            attempt + 1 <= u32::MAX,
        ensures
            final(self).cfg() == old(self).cfg(),
            final(self).view() == after_failure(old(self).view(), old(self).cfg().breaker_threshold, now),
            retry_ok(old(self).cfg(), attempt, nanos, next),
            network_next(old(self).cfg(), attempt, m@, next),
    {
        self.record_failure(now);
        if attempt < self.config.max_retries {
            let a = attempt + 1;
            Next::Retry { attempt: a, backoff_ns: self.backoff(a, nanos) }
        } else {
            Next::Fail(RaClientError::Network(string_of(&chars_of(m.as_str()))))
        }
    }

    fn on_status(&mut self, attempt: usize, c: u16, d: &String, now: u64, nanos: u64) -> (next: Next)
        requires
            old(self).view().failures < usize::MAX,
            old(self).view().rate_limit_hits < usize::MAX,
            attempt < usize::MAX,
            attempt + 1 <= u32::MAX,
        ensures
            final(self).cfg() == old(self).cfg(),
            final(self).view() == state_after(
                old(self).view(),
                old(self).cfg(),
                Outcome::Status(c, *d),
                now,
            ),
            retry_ok(old(self).cfg(), attempt, nanos, next),
            status_next(old(self).cfg(), attempt, c, d@, next),
    {
        if 200 <= c && c <= 299 {
            self.record_success();
            return Next::Done;
        }
        if c == 429 {
            self.rate_limit_hits = self.rate_limit_hits + 1;
        }
        self.record_failure(now);
        let mut msg = chars_of("HTTP status ");
        push_str(&mut msg, d.as_str());
        if c == 429 || (500 <= c && c <= 599) {
            if attempt < self.config.max_retries {
                let a = attempt + 1;
                return Next::Retry { attempt: a, backoff_ns: self.backoff(a, nanos) };
            }
            if c == 429 {
                return Next::Fail(RaClientError::RateLimited);
            }
        }
        Next::Fail(RaClientError::HttpError(c, string_of(&msg)))
    }

    /// Decides what follows attempt `attempt` (0 for the first) given its
    /// outcome at `now`; `nanos` seeds the jitter of a backoff.
    ///
    /// A 2xx status succeeds and clears the failures. A network error, a
    /// 429 or a 5xx is a failure that is retried while retries remain;
    /// when none remain it fails with the network error, `RateLimited`, or
    /// the status. Any other status fails at once. Every failure counts
    /// towards the breaker.
    pub fn after_attempt(&mut self, attempt: usize, outcome: &Outcome, now: u64, nanos: u64) -> (next: Next)
        requires
            old(self).view().failures < usize::MAX,
            old(self).view().rate_limit_hits < usize::MAX,
            attempt < usize::MAX,
            attempt + 1 <= u32::MAX,
        ensures
            final(self).cfg() == old(self).cfg(),
            final(self).view() == state_after(old(self).view(), old(self).cfg(), *outcome, now),
            retry_ok(old(self).cfg(), attempt, nanos, next),
            next_ok(old(self).cfg(), attempt, *outcome, next),
    {
        match outcome {
            Outcome::NetworkError(m) => self.on_network_error(attempt, m, now, nanos),
            Outcome::Status(c, d) => self.on_status(attempt, *c, d, now, nanos),
        }
    }
}

/// The game a lookup answer names: none for an absent or zero `GameID`.
pub fn game_match(game_id: Option<i64>) -> (r: Option<GameIdMatch>)
    ensures
        match game_id {
            Some(id) => if id == 0 {
                r is None
            } else {
                r == Some(GameIdMatch { game_id: id })
            },
            None => r is None,
        },
{
    match game_id {
        Some(id) => if id == 0 {
            None
        } else {
            Some(GameIdMatch { game_id: id })
        },
        None => None,
    }
}

pub open spec fn pairs_view(v: Seq<(String, String)>) -> Seq<(Seq<char>, Seq<char>)> {
    v.map_values(|p: (String, String)| (p.0@, p.1@))
}

fn pair(a: &str, b: &str) -> (r: (String, String))
    ensures
        r.0@ == a@,
        r.1@ == b@,
{
    (string_of(&chars_of(a)), string_of(&chars_of(b)))
}

/// The endpoint of hash lookups.
pub fn lookup_url(base_url: &str) -> (r: String)
    ensures
        r@ == base_url@ + "/dorequest.php"@,
{
    let mut out = chars_of(base_url);
    push_str(&mut out, "/dorequest.php");
    string_of(&out)
}

/// The query of a hash lookup: `r=gameid`, `m=<md5>`, and the credentials
/// `u`, `y` when both are set.
pub fn lookup_params(md5_hex: &str, username: &Option<String>, api_key: &Option<String>) -> (r: Vec<(String, String)>)
    ensures
        pairs_view(r@) == seq![("r"@, "gameid"@), ("m"@, md5_hex@)] + match (
            opt_view(*username),
            opt_view(*api_key),
        ) {
            (Some(u), Some(k)) => seq![("u"@, u), ("y"@, k)],
            _ => Seq::empty(),
        },
{
    let mut r: Vec<(String, String)> = Vec::new();
    r.push(pair("r", "gameid"));
    r.push(pair("m", md5_hex));
    match (username, api_key) {
        (Some(u), Some(k)) => {
            r.push(pair("u", u.as_str()));
            r.push(pair("y", k.as_str()));
        },
        _ => {},
    }
    proof {
        assert(pairs_view(r@) =~= seq![("r"@, "gameid"@), ("m"@, md5_hex@)] + match (
            opt_view(*username),
            opt_view(*api_key),
        ) {
            (Some(u), Some(k)) => seq![("u"@, u), ("y"@, k)],
            _ => Seq::empty(),
        });
    }
    r
}

/// The endpoint of game info and user progress.
pub fn progress_url(base_url: &str) -> (r: String)
    ensures
        r@ == base_url@ + "/API/API_GetGameInfoAndUserProgress.php"@,
{
    let mut out = chars_of(base_url);
    push_str(&mut out, "/API/API_GetGameInfoAndUserProgress.php");
    string_of(&out)
}

/// `""` for a missing credential.
pub open spec fn or_blank(o: Option<Seq<char>>) -> Seq<char> {
    match o {
        Some(s) => s,
        None => Seq::empty(),
    }
}

/// The query of a progress fetch: `u`, `y` (empty when unset) and `g`.
pub fn progress_params(username: &Option<String>, api_key: &Option<String>, game_id: i64) -> (r: Vec<(String, String)>)
    ensures
        pairs_view(r@) == seq![
            ("u"@, or_blank(opt_view(*username))),
            ("y"@, or_blank(opt_view(*api_key))),
            ("g"@, int_text(game_id as int)),
        ],
{
    let empty: Vec<char> = Vec::new();
    proof {
        assert(empty@ =~= Seq::<char>::empty());
    }
    let u = match username {
        Some(u) => string_of(&chars_of(u.as_str())),
        None => string_of(&empty),
    };
    let k = match api_key {
        Some(k) => string_of(&chars_of(k.as_str())),
        None => string_of(&empty),
    };
    let mut g: Vec<char> = Vec::new();
    push_i64(&mut g, game_id);
    proof {
        assert(g@ =~= int_text(game_id as int));
    }
    let mut r: Vec<(String, String)> = Vec::new();
    r.push((string_of(&chars_of("u")), u));
    r.push((string_of(&chars_of("y")), k));
    r.push((string_of(&chars_of("g")), string_of(&g)));
    proof {
        assert(pairs_view(r@) =~= seq![
            ("u"@, or_blank(opt_view(*username))),
            ("y"@, or_blank(opt_view(*api_key))),
            ("g"@, int_text(game_id as int)),
        ]);
    }
    r
}

/// The circuit breaker opens on the failure that reaches the threshold:
/// from any state, a failure that brings the count to the threshold
/// makes the breaker refuse every request for the breaker's duration.
pub proof fn law_breaker_opens_at_threshold(s: LimiterView, c: LimitConfig, now: u64, later: u64)
    requires
        s.failures + 1 >= c.breaker_threshold,
        elapsed(later, now) < c.breaker_duration_ns,
    ensures
        breaker_refuses(after_failure(s, c.breaker_threshold, now), c.breaker_duration_ns, later),
{
}

/// Below the threshold a failure leaves a closed breaker closed.
pub proof fn law_breaker_stays_closed_below_threshold(s: LimiterView, c: LimitConfig, now: u64, later: u64)
    requires
        s.tripped_at is None,
        s.failures + 1 < c.breaker_threshold,
    ensures
        !breaker_refuses(after_failure(s, c.breaker_threshold, now), c.breaker_duration_ns, later),
{
}

/// Requests keep the least interval: after a request starts at `t0`, a
/// request at `t1` (later, within the minute) waits until at least
/// `t0 + min` whatever came before.
pub proof fn law_requests_keep_interval(recent: Seq<u64>, t0: u64, t1: u64, min: u64)
    requires
        t0 <= t1,
        t1 - t0 < MINUTE_NS,
    ensures
        t1 + second_wait(within_minute(recent.push(t0), t1), t1, min) >= t0 + min,
        second_wait(within_minute(recent.push(t0), t1), t1, min) <= min,
{
    let p = recent.push(t0);
    assert(p.drop_last() =~= recent);
    reveal_with_fuel(Seq::filter, 1);
    assert(within_minute(p, t1) == within_minute(recent, t1).push(t0));
}

/// A backoff never exceeds the longest backoff.
pub proof fn law_backoff_capped(c: LimitConfig, attempt: usize, nanos: u64)
    ensures
        backoff_ns(c, attempt, nanos) <= c.max_backoff_ns,
{
}

/// Once open, the breaker refuses every lookup until its duration is up
/// (a refused lookup leaves the state as it was), and lets the first one
/// after that through: opened at `now`, it refuses at every `t` with
/// `now <= t < now + duration` and refuses nothing from `now + duration`
/// on.
pub proof fn law_breaker_refuses_until_duration(s: LimiterView, c: LimitConfig, now: u64, t: u64)
    requires
        s.failures + 1 >= c.breaker_threshold,
        now <= t,
    ensures
        breaker_refuses(after_failure(s, c.breaker_threshold, now), c.breaker_duration_ns, t) == (t
            - now < c.breaker_duration_ns),
{
}

} // verus!
