//! Smart-collection predicates.
//!
//! A smart collection's filter is stored as plain `key=value` lines, one per
//! set field: `system=<slug>`, `search=<text>`, `favorite=<true|false>`.
//! Unknown keys and lines without `=` are dropped rather than rejected, a
//! later line for a key overrides an earlier one, and a `favorite` line
//! whose value is neither `true` nor `false` is dropped too. The SQL that evaluates a
//! query lives with the application's database code.

use vstd::prelude::*;

use crate::text::{
    opt_view, split_lines, strip_cr,
    chars_eq_str, chars_of, copy_range, find_char, find_from, lemma_find_from,
    lemma_find_from_absent, lemma_find_from_first, lemma_find_from_skip, push_all, push_str,
    string_of,
};

verus! {

/// A smart-collection filter; an unset field matches everything.
#[derive(Debug, Clone, Default, PartialEq, Eq)]
pub struct SmartQuery {
    pub system: Option<String>,
    pub search: Option<String>,
    pub favorite: Option<bool>,
}

/// The mathematical value of a [`SmartQuery`].
pub struct SmartQueryView {
    pub system: Option<Seq<char>>,
    pub search: Option<Seq<char>>,
    pub favorite: Option<bool>,
}

impl View for SmartQuery {
    type V = SmartQueryView;

    open spec fn view(&self) -> SmartQueryView {
        SmartQueryView {
            system: opt_view(self.system),
            search: opt_view(self.search),
            favorite: self.favorite,
        }
    }
}

/// The query with no field set.
pub open spec fn empty_query() -> SmartQueryView {
    SmartQueryView { system: None, search: None, favorite: None }
}

/// `bool::from_str`.
pub open spec fn parse_bool(v: Seq<char>) -> Option<bool> {
    if v == "true"@ {
        Some(true)
    } else if v == "false"@ {
        Some(false)
    } else {
        None
    }
}

/// The effect of one stored line on a query being read back.
pub open spec fn apply_line(q: SmartQueryView, line: Seq<char>) -> SmartQueryView {
    match find_from(line, '=', 0) {
        None => q,
        Some(i) => {
            let key = line.take(i);
            let value = line.skip(i + 1);
            if key == "system"@ {
                SmartQueryView { system: Some(value), ..q }
            } else if key == "search"@ {
                SmartQueryView { search: Some(value), ..q }
            } else if key == "favorite"@ && parse_bool(value) is Some {
                SmartQueryView { favorite: parse_bool(value), ..q }
            } else {
                q
            }
        },
    }
}

/// The lines applied in order.
pub open spec fn apply_lines(q: SmartQueryView, ls: Seq<Seq<char>>) -> SmartQueryView
    decreases ls.len(),
{
    if ls.len() == 0 {
        q
    } else {
        apply_line(apply_lines(q, ls.drop_last()), ls.last())
    }
}

/// The query a stored predicate reads back as.
pub open spec fn parse_spec(s: Seq<char>) -> SmartQueryView {
    apply_lines(empty_query(), split_lines(s))
}

/// `bool`'s `Display`.
pub open spec fn bool_text(b: bool) -> Seq<char> {
    if b {
        "true"@
    } else {
        "false"@
    }
}

/// The stored lines of a query, in field order.
pub open spec fn query_lines(q: SmartQueryView) -> Seq<Seq<char>> {
    (match q.system {
        Some(v) => seq!["system="@ + v],
        None => Seq::empty(),
    }) + (match q.search {
        Some(v) => seq!["search="@ + v],
        None => Seq::empty(),
    }) + (match q.favorite {
        Some(b) => seq!["favorite="@ + bool_text(b)],
        None => Seq::empty(),
    })
}

/// Lines joined with `\n` (no trailing newline).
pub open spec fn join_lines(ls: Seq<Seq<char>>) -> Seq<char>
    decreases ls.len(),
{
    if ls.len() == 0 {
        Seq::empty()
    } else if ls.len() == 1 {
        ls[0]
    } else {
        ls[0] + seq!['\n'] + join_lines(ls.skip(1))
    }
}

/// The stored form of a query.
pub open spec fn encode_spec(q: SmartQueryView) -> Seq<char> {
    join_lines(query_lines(q))
}

/// A value can stand on a stored line and be read back unchanged: it holds
/// no newline, and unless its line is the last one it does not end in a
/// carriage return (which would read back as part of a `\r\n` ending).
pub open spec fn line_safe(v: Seq<char>, last: bool) -> bool {
    &&& !v.contains('\n')
    &&& (last || v.len() == 0 || v.last() != '\r')
}

/// Every value of `q` survives a store and read-back.
pub open spec fn encodable(q: SmartQueryView) -> bool {
    &&& (q.system matches Some(v) ==> line_safe(v, q.search is None && q.favorite is None))
    &&& (q.search matches Some(v) ==> line_safe(v, q.favorite is None))
}

proof fn lemma_join_push(ls: Seq<Seq<char>>, x: Seq<char>)
    ensures
        join_lines(ls.push(x)) == if ls.len() == 0 {
            x
        } else {
            join_lines(ls) + seq!['\n'] + x
        },
    decreases ls.len(),
{
    if ls.len() >= 2 {
        let p = ls.push(x);
        assert(p.skip(1) =~= ls.skip(1).push(x));
        lemma_join_push(ls.skip(1), x);
        assert(p[0] == ls[0]);
        assert(join_lines(p) == p[0] + seq!['\n'] + join_lines(p.skip(1)));
        assert(ls[0] + seq!['\n'] + (join_lines(ls.skip(1)) + seq!['\n'] + x) =~= ls[0] + seq![
            '\n',
        ] + join_lines(ls.skip(1)) + seq!['\n'] + x);
    } else if ls.len() == 1 {
        let p = ls.push(x);
        assert(p.skip(1) =~= seq![x]);
        assert(join_lines(seq![x]) == x);
        assert(join_lines(p) == p[0] + seq!['\n'] + join_lines(p.skip(1)));
    } else {
        assert(ls.push(x) =~= seq![x]);
    }
}

proof fn lemma_split_join(ls: Seq<Seq<char>>)
    requires
        forall|i: int| 0 <= i < ls.len() ==> !(#[trigger] ls[i]).contains('\n'),
        forall|i: int| 0 <= i < ls.len() ==> (#[trigger] ls[i]).len() > 0,
        forall|i: int| 0 <= i < ls.len() - 1 ==> (#[trigger] ls[i]).last() != '\r',
    ensures
        split_lines(join_lines(ls)) == ls,
    decreases ls.len(),
{
    if ls.len() == 0 {
        assert(find_from(Seq::<char>::empty(), '\n', 0) is None);
        assert(split_lines(join_lines(ls)) =~= ls);
    } else if ls.len() == 1 {
        lemma_find_from_absent(ls[0], '\n', 0);
        assert(split_lines(join_lines(ls)) =~= ls);
    } else {
        let j = join_lines(ls);
        let a = ls[0];
        let rest = ls.skip(1);
        assert(j == a + seq!['\n'] + join_lines(rest));
        assert forall|k: int| 0 <= k < a.len() implies j[k] != '\n' by {
            assert(j[k] == a[k]);
        }
        assert(j[a.len() as int] == '\n');
        lemma_find_from_first(j, '\n', 0, a.len() as int);
        assert(j.take(a.len() as int) =~= a);
        assert(j.skip(a.len() as int + 1) =~= join_lines(rest));
        assert forall|i: int| 0 <= i < rest.len() implies !(#[trigger] rest[i]).contains('\n') by {
            assert(rest[i] == ls[i + 1]);
        }
        assert forall|i: int| 0 <= i < rest.len() implies (#[trigger] rest[i]).len() > 0 by {
            assert(rest[i] == ls[i + 1]);
        }
        assert forall|i: int| 0 <= i < rest.len() - 1 implies (#[trigger] rest[i]).last()
            != '\r' by {
            assert(rest[i] == ls[i + 1]);
        }
        lemma_split_join(rest);
        assert(strip_cr(a) == a);
        assert(split_lines(j) =~= ls);
    }
}

proof fn lemma_apply_field_line(q: SmartQueryView, key: Seq<char>, v: Seq<char>)
    requires
        key == "system"@ || key == "search"@ || key == "favorite"@,
    ensures
        apply_line(q, key + seq!['='] + v) == (if key == "system"@ {
            SmartQueryView { system: Some(v), ..q }
        } else if key == "search"@ {
            SmartQueryView { search: Some(v), ..q }
        } else if parse_bool(v) is Some {
            SmartQueryView { favorite: parse_bool(v), ..q }
        } else {
            q
        }),
{
    reveal_strlit("system");
    reveal_strlit("search");
    reveal_strlit("favorite");
    let line = key + seq!['='] + v;
    assert forall|k: int| 0 <= k < key.len() implies line[k] != '=' by {
        assert(line[k] == key[k]);
    }
    lemma_find_from_first(line, '=', 0, key.len() as int);
    assert(line.take(key.len() as int) =~= key);
    assert(line.skip(key.len() as int + 1) =~= v);
}

/// A stored line that reading back ignores: one without `=`, one whose key
/// is not `system`, `search` or `favorite`, or a `favorite` line whose
/// value is neither `true` nor `false`.
pub open spec fn ignored_line(line: Seq<char>) -> bool {
    match find_from(line, '=', 0) {
        None => true,
        Some(i) => {
            let key = line.take(i);
            &&& key != "system"@
            &&& key != "search"@
            &&& (key == "favorite"@ ==> parse_bool(line.skip(i + 1)) is None)
        },
    }
}

/// Ignored lines are dropped: reading back lines gives what reading back
/// the same lines without the ignored ones gives, from any starting query.
pub proof fn law_ignored_lines_are_dropped(q: SmartQueryView, ls: Seq<Seq<char>>)
    ensures
        apply_lines(q, ls) == apply_lines(q, ls.filter(|l: Seq<char>| !ignored_line(l))),
    decreases ls.len(),
{
    reveal_with_fuel(Seq::filter, 1);
    if ls.len() > 0 {
        law_ignored_lines_are_dropped(q, ls.drop_last());
        let kept = ls.drop_last().filter(|l: Seq<char>| !ignored_line(l));
        if !ignored_line(ls.last()) {
            assert(kept.push(ls.last()).drop_last() =~= kept);
        }
    }
}

/// A later line for a key overrides an earlier one: after a line that sets
/// a field, only the last such line for that field counts.
pub proof fn law_last_line_wins(q: SmartQueryView, key: Seq<char>, v1: Seq<char>, v2: Seq<char>)
    requires
        key == "system"@ || key == "search"@ || (key == "favorite"@ && parse_bool(v2) is Some),
    ensures
        apply_line(apply_line(q, key + seq!['='] + v1), key + seq!['='] + v2) == apply_line(
            q,
            key + seq!['='] + v2,
        ),
{
    lemma_apply_field_line(q, key, v2);
    lemma_apply_field_line(apply_line(q, key + seq!['='] + v1), key, v2);
    lemma_apply_field_line(q, key, v1);
}

/// Reading back what [`SmartQuery::encode`] stored gives the same query,
/// for every query whose values can stand on a line (see [`encodable`]).
pub proof fn law_parse_encode_roundtrip(q: SmartQueryView)
    requires
        encodable(q),
    ensures
        parse_spec(encode_spec(q)) == q,
{
    reveal_strlit("system=");
    reveal_strlit("search=");
    reveal_strlit("favorite=");
    reveal_strlit("system");
    reveal_strlit("search");
    reveal_strlit("favorite");
    reveal_strlit("true");
    reveal_strlit("false");
    let ls = query_lines(q);
    assert forall|i: int| 0 <= i < ls.len() implies !(#[trigger] ls[i]).contains('\n') && ls[i].len()
        > 0 && (i < ls.len() - 1 ==> ls[i].last() != '\r') by {
        match q.system {
            Some(v) => {
                assert(("system="@ + v).len() > 0);
                if ("system="@ + v).contains('\n') {
                    let k = choose|k: int| 0 <= k < ("system="@ + v).len() && ("system="@ + v)[k]
                        == '\n';
                    assert(v[k - 7] == '\n');
                }
            },
            None => {},
        }
        match q.search {
            Some(v) => {
                if ("search="@ + v).contains('\n') {
                    let k = choose|k: int| 0 <= k < ("search="@ + v).len() && ("search="@ + v)[k]
                        == '\n';
                    assert(v[k - 7] == '\n');
                }
            },
            None => {},
        }
        match q.favorite {
            Some(b) => {
                if ("favorite="@ + bool_text(b)).contains('\n') {
                    let k = choose|k: int|
                        0 <= k < ("favorite="@ + bool_text(b)).len() && ("favorite="@ + bool_text(
                            b,
                        ))[k] == '\n';
                    assert(bool_text(b)[k - 9] == '\n');
                }
            },
            None => {},
        }
    }
    lemma_split_join(ls);
    let e = empty_query();
    let l1: Seq<Seq<char>> = match q.system {
        Some(v) => seq!["system="@ + v],
        None => Seq::empty(),
    };
    let l2: Seq<Seq<char>> = match q.search {
        Some(v) => seq!["search="@ + v],
        None => Seq::empty(),
    };
    let l3: Seq<Seq<char>> = match q.favorite {
        Some(b) => seq!["favorite="@ + bool_text(b)],
        None => Seq::empty(),
    };
    assert(ls == l1 + l2 + l3);
    let s1 = match q.system {
        Some(v) => {
            assert("system="@ + v == "system"@ + seq!['='] + v);
            lemma_apply_field_line(e, "system"@, v);
            lemma_apply_push(e, Seq::empty(), "system="@ + v);
            assert(Seq::<Seq<char>>::empty().push("system="@ + v) =~= l1);
            SmartQueryView { system: Some(v), ..e }
        },
        None => e,
    };
    assert(apply_lines(e, l1) == s1);
    let s2 = match q.search {
        Some(v) => {
            assert("search="@ + v == "search"@ + seq!['='] + v);
            lemma_apply_field_line(s1, "search"@, v);
            lemma_apply_push(e, l1, "search="@ + v);
            assert(l1.push("search="@ + v) =~= l1 + l2);
            assert("search"@[1] != "system"@[1]);
            assert(apply_line(s1, "search="@ + v) == SmartQueryView { search: Some(v), ..s1 });
            assert(apply_lines(e, l1 + l2) == SmartQueryView { search: Some(v), ..s1 });
            SmartQueryView { search: Some(v), ..s1 }
        },
        None => {
            assert(l1 + l2 =~= l1);
            s1
        },
    };
    assert(apply_lines(e, l1 + l2) == s2);
    match q.favorite {
        Some(b) => {
            assert("favorite="@ + bool_text(b) == "favorite"@ + seq!['='] + bool_text(b));
            lemma_apply_field_line(s2, "favorite"@, bool_text(b));
            lemma_apply_push(e, l1 + l2, "favorite="@ + bool_text(b));
            assert((l1 + l2).push("favorite="@ + bool_text(b)) =~= l1 + l2 + l3);
            assert(parse_bool(bool_text(b)) == Some(b));
        },
        None => {
            assert(l1 + l2 + l3 =~= l1 + l2);
        },
    }
}

proof fn lemma_apply_push(q: SmartQueryView, ls: Seq<Seq<char>>, x: Seq<char>)
    ensures
        apply_lines(q, ls.push(x)) == apply_line(apply_lines(q, ls), x),
{
    assert(ls.push(x).drop_last() =~= ls);
}

/// `l` with a trailing `\r` removed.
fn strip_cr_exec(l: &mut Vec<char>)
    ensures
        final(l)@ == strip_cr(old(l)@),
{
    let n = l.len();
    if n > 0 && l[n - 1] == '\r' {
        l.pop();
        proof {
            assert(l@ =~= strip_cr(old(l)@));
        }
    }
}

/// `bool::from_str` on chars.
fn parse_bool_exec(v: &[char]) -> (r: Option<bool>)
    ensures
        r == parse_bool(v@),
{
    if chars_eq_str(v, "true") {
        Some(true)
    } else if chars_eq_str(v, "false") {
        Some(false)
    } else {
        None
    }
}

impl SmartQuery {
    /// Applies one stored line.
    fn apply_line_exec(&mut self, line: &Vec<char>)
        ensures
            final(self)@ == apply_line(old(self)@, line@),
    {
        let n = line.len();
        match find_char(line.as_slice(), '=', 0) {
            None => {},
            Some(i) => {
                proof {
                    lemma_find_from(line@, '=', 0);
                }
                let key = copy_range(line.as_slice(), 0, i);
                let value = copy_range(line.as_slice(), i + 1, n);
                proof {
                    assert(key@ =~= line@.take(i as int));
                    assert(value@ =~= line@.skip(i + 1));
                }
                if chars_eq_str(&key, "system") {
                    self.system = Some(string_of(&value));
                } else if chars_eq_str(&key, "search") {
                    self.search = Some(string_of(&value));
                } else if chars_eq_str(&key, "favorite") {
                    let b = parse_bool_exec(&value);
                    if b.is_some() {
                        self.favorite = b;
                    }
                }
            },
        }
    }

    /// The stored form: one `key=value` line per set field, joined by `\n`.
    pub fn encode(&self) -> (r: String)
        ensures
            r@ == encode_spec(self@),
    {
        let mut out: Vec<char> = Vec::new();
        let mut any = false;
        let ghost mut ls: Seq<Seq<char>> = Seq::empty();
        if let Some(v) = &self.system {
            let mut line = chars_of("system=");
            push_str(&mut line, v.as_str());
            proof {
                lemma_join_push(ls, line@);
                ls = ls.push(line@);
            }
            push_all(&mut out, &line);
            any = true;
        }
        if let Some(v) = &self.search {
            let mut line = chars_of("search=");
            push_str(&mut line, v.as_str());
            proof {
                lemma_join_push(ls, line@);
            }
            if any {
                out.push('\n');
            }
            push_all(&mut out, &line);
            any = true;
            proof {
                if ls.len() > 0 {
                    assert(out@ =~= join_lines(ls) + seq!['\n'] + line@);
                }
                ls = ls.push(line@);
            }
        }
        if let Some(b) = self.favorite {
            let mut line = chars_of("favorite=");
            if b {
                push_str(&mut line, "true");
            } else {
                push_str(&mut line, "false");
            }
            proof {
                lemma_join_push(ls, line@);
            }
            if any {
                out.push('\n');
            }
            push_all(&mut out, &line);
            any = true;
            proof {
                if ls.len() > 0 {
                    assert(out@ =~= join_lines(ls) + seq!['\n'] + line@);
                }
                ls = ls.push(line@);
            }
        }
        proof {
            assert(ls =~= query_lines(self@));
        }
        string_of(&out)
    }

    /// Reads a stored predicate back; see the module documentation for
    /// what is dropped.
    pub fn parse(s: &str) -> (q: SmartQuery)
        ensures
            q@ == parse_spec(s@),
    {
        let sc = chars_of(s);
        let n = sc.len();
        let mut q = SmartQuery { system: None, search: None, favorite: None };
        let mut pos: usize = 0;
        let ghost mut done: Seq<Seq<char>> = Seq::empty();
        proof {
            assert(s@.skip(0) =~= s@);
            assert(done + split_lines(s@) =~= split_lines(s@));
        }
        while pos < n
            invariant
                pos <= n == sc@.len(),
                sc@ == s@,
                split_lines(s@) == done + split_lines(s@.skip(pos as int)),
                q@ == apply_lines(empty_query(), done),
            decreases n - pos,
        {
            let ghost rest = s@.skip(pos as int);
            proof {
                lemma_find_from_skip(sc@, '\n', pos as int, 0);
            }
            let next: usize;
            let mut line: Vec<char>;
            match find_char(sc.as_slice(), '\n', pos) {
                None => {
                    line = copy_range(sc.as_slice(), pos, n);
                    next = n;
                    proof {
                        assert(line@ =~= rest);
                        assert(split_lines(rest) == seq![rest]);
                        assert(s@.skip(n as int) =~= Seq::<char>::empty());
                        assert(find_from(Seq::<char>::empty(), '\n', 0) is None);
                        assert(split_lines(s@.skip(n as int)) =~= Seq::<Seq<char>>::empty());
                    }
                },
                Some(i) => {
                    proof {
                        lemma_find_from(sc@, '\n', pos as int);
                    }
                    line = copy_range(sc.as_slice(), pos, i);
                    proof {
                        assert(line@ =~= rest.take(i - pos));
                        assert(rest.skip(i - pos + 1) =~= s@.skip(i + 1));
                    }
                    strip_cr_exec(&mut line);
                    next = i + 1;
                },
            }
            q.apply_line_exec(&line);
            proof {
                assert(done.push(line@).drop_last() =~= done);
                assert(done + split_lines(rest) =~= done.push(line@) + split_lines(
                    s@.skip(next as int),
                ));
                done = done.push(line@);
            }
            pos = next;
        }
        proof {
            assert(s@.skip(n as int) =~= Seq::<char>::empty());
            assert(find_from(Seq::<char>::empty(), '\n', 0) is None);
            assert(done + Seq::<Seq<char>>::empty() =~= done);
        }
        q
    }

    /// Whether no field is set.
    pub fn is_empty(&self) -> (b: bool)
        ensures
            b == (self.system is None && self.search is None && self.favorite is None),
    {
        self.system.is_none() && self.search.is_none() && self.favorite.is_none()
    }
}

} // verus!
