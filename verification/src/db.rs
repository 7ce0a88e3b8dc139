//! Schema versions. The core schema's version is SQLite's `user_version`:
//! migrations are append-only and migration `k` takes the schema from
//! version `k` to `k + 1`. Each optional module versions its own tables in
//! a `settings` row `module.<name>.schema_version`, the same way. The
//! application runs the SQL; what to run next is decided here.

use vstd::prelude::*;

use crate::intents::{digits_value, parses_i64, parses_i64_exec, sign_len};
use crate::metadata::dat::{parse_u64, parse_u64_exec};
use crate::text::{chars_of, copy_range, push_str, string_of};

verus! {

/// A database written by a newer build than this one.
#[derive(Debug, Clone, Copy, PartialEq, Eq)]
pub struct SchemaTooNew {
    pub found: i64,
    pub supported: i64,
}

/// The migrations `from`, `from + 1`, ..., `to - 1`, in order.
pub open spec fn run_of(v: Seq<usize>, from: int, to: int) -> bool {
    &&& v.len() == if from < to {
        to - from
    } else {
        0
    }
    &&& forall|k: int| 0 <= k < v.len() ==> #[trigger] v[k] == from + k
}

fn indices(from: usize, to: usize) -> (r: Vec<usize>)
    ensures
        run_of(r@, from as int, to as int),
{
    let mut r: Vec<usize> = Vec::new();
    let mut i = from;
    while i < to
        invariant
            from <= i,
            i <= to || i == from,
            r@.len() == i - from,
            forall|k: int| 0 <= k < r@.len() ==> #[trigger] r@[k] == from + k,
        decreases to - i,
    {
        r.push(i);
        i += 1;
    }
    r
}

/// The migrations to run, in order, to bring the core schema from
/// `version` to the last of `migrations` known ones; a version past them
/// is refused.
pub fn core_migration_plan(version: i64, migrations: usize) -> (r: Result<Vec<usize>, SchemaTooNew>)
    requires
        0 <= version,
        migrations <= i64::MAX,
    ensures
        version > migrations ==> r == Err::<Vec<usize>, SchemaTooNew>(
            SchemaTooNew { found: version, supported: migrations as i64 },
        ),
        version <= migrations ==> (r matches Ok(v) && run_of(v@, version as int, migrations as int)),
{
    if (version as u64) > (migrations as u64) {
        Err(SchemaTooNew { found: version, supported: migrations as i64 })
    } else {
        Ok(indices(version as usize, migrations))
    }
}

/// The migrations to run, in order, to bring a module from `version` to
/// the last of `migrations` known ones: none when it is there already or
/// past them (a module never refuses a newer version).
pub fn module_migration_plan(version: i64, migrations: usize) -> (r: Vec<usize>)
    requires
        0 <= version,
    ensures
        run_of(r@, version as int, migrations as int),
{
    if (version as u64) < (migrations as u64) {
        indices(version as usize, migrations)
    } else {
        let r: Vec<usize> = Vec::new();
        r
    }
}

/// A module's version once its plan has run: the number of migrations.
pub fn module_version_after(version: i64, migrations: usize) -> (r: i64)
    requires
        0 <= version,
        migrations <= i64::MAX,
    ensures
        r == migrations as i64,
{
    migrations as i64
}

/// The settings key of a module's schema version.
pub fn module_version_key(module_name: &str) -> (r: String)
    ensures
        r@ == "module."@ + module_name@ + ".schema_version"@,
{
    let mut k = chars_of("module.");
    push_str(&mut k, module_name);
    push_str(&mut k, ".schema_version");
    string_of(&k)
}

/// `str::parse::<i64>`: an optional sign, then decimal digits, within
/// range.
pub open spec fn parse_i64(s: Seq<char>) -> Option<i64> {
    if parses_i64(s) {
        let v = digits_value(s.skip(sign_len(s)));
        if s[0] == '-' {
            Some((-v) as i64)
        } else {
            Some(v as i64)
        }
    } else {
        None
    }
}

/// `str::parse::<i64>` on chars.
pub fn parse_i64_exec(s: &[char]) -> (r: Option<i64>)
    ensures
        r == parse_i64(s@),
{
    if !parses_i64_exec(s) {
        return None;
    }
    let start: usize = if s[0] == '+' || s[0] == '-' {
        1
    } else {
        0
    };
    let digits = copy_range(s, start, s.len());
    proof {
        assert(digits@ =~= s@.skip(sign_len(s@)));
        assert(digits@.skip(0) =~= digits@);
        assert(digits@.len() > 0 && digits@[0] != '+');
    }
    let v = match parse_u64_exec(digits.as_slice()) {
        Some(v) => v,
        None => return None,
    };
    proof {
        assert(v == digits_value(digits@));
    }
    if s[0] == '-' {
        let w: i128 = 0i128 - (v as i128);
        Some(w as i64)
    } else {
        Some(v as i64)
    }
}

/// A module's stored schema version: the settings value read as an
/// integer, `0` when there is none or it is not one.
pub open spec fn stored_version(value: Option<Seq<char>>) -> i64 {
    match value {
        Some(v) => match parse_i64(v) {
            Some(n) => n,
            None => 0,
        },
        None => 0,
    }
}

pub fn stored_module_version(value: Option<&str>) -> (r: i64)
    ensures
        r == stored_version(
            match value {
                Some(v) => Some(v@),
                None => None,
            },
        ),
{
    match value {
        Some(v) => match parse_i64_exec(chars_of(v).as_slice()) {
            Some(n) => n,
            None => 0,
        },
        None => 0,
    }
}

} // verus!
