//! Argument-template expansion for launch profiles.
//!
//! A template is a single string like `-L {core} "{rom}"`. It is tokenized
//! shell-style (whitespace-separated, double quotes group), then placeholders
//! are substituted inside each token. Substituted values are never re-split,
//! so a ROM path with spaces stays one argument whether or not the author
//! quoted the placeholder. There is no escape syntax.

use vstd::prelude::*;

use crate::text::{
    chars_eq_str, chars_of, copy_range, find_char, find_from, is_whitespace, is_ws, lemma_find_from,
    lemma_find_from_skip, push_all, push_str, string_from_chars, strings_view,
};

verus! {

/// Why a template could not be expanded.
#[derive(Debug, PartialEq, Eq, Clone)]
pub enum TemplateError {
    UnclosedQuote,
    UnclosedPlaceholder,
    UnknownPlaceholder(String),
}

/// The mathematical form of a [`TemplateError`].
pub enum TemplateFailure {
    UnclosedQuote,
    UnclosedPlaceholder,
    UnknownPlaceholder(Seq<char>),
}

impl View for TemplateError {
    type V = TemplateFailure;

    open spec fn view(&self) -> TemplateFailure {
        match self {
            TemplateError::UnclosedQuote => TemplateFailure::UnclosedQuote,
            TemplateError::UnclosedPlaceholder => TemplateFailure::UnclosedPlaceholder,
            TemplateError::UnknownPlaceholder(n) => TemplateFailure::UnknownPlaceholder(n@),
        }
    }
}

impl TemplateError {
    /// The error as text.
    pub fn message(&self) -> (r: String)
        ensures
            match self {
                TemplateError::UnclosedQuote => r@ == "unclosed double quote in template"@,
                TemplateError::UnclosedPlaceholder => r@ == "unclosed placeholder in template"@,
                TemplateError::UnknownPlaceholder(n) => r@ == "unknown placeholder {"@ + n@ + "}"@,
            },
    {
        match self {
            TemplateError::UnclosedQuote => string_from_chars(&chars_of("unclosed double quote in template")),
            TemplateError::UnclosedPlaceholder => string_from_chars(&chars_of("unclosed placeholder in template")),
            TemplateError::UnknownPlaceholder(n) => {
                let mut m = chars_of("unknown placeholder {");
                push_str(&mut m, n.as_str());
                push_str(&mut m, "}");
                string_from_chars(&m)
            },
        }
    }
}

/// Tokenizer state after a prefix of the template.
pub struct TokState {
    pub tokens: Seq<Seq<char>>,
    pub current: Seq<char>,
    pub in_quotes: bool,
    pub has_content: bool,
}

pub open spec fn tok_init() -> TokState {
    TokState { tokens: Seq::empty(), current: Seq::empty(), in_quotes: false, has_content: false }
}

/// One tokenizer step: a quote toggles quoting and marks content (so `""`
/// is a deliberate empty argument); unquoted whitespace ends the current
/// token if it has content; anything else extends the current token.
pub open spec fn tok_step(st: TokState, ch: char) -> TokState {
    if ch == '"' {
        TokState {
            tokens: st.tokens,
            current: st.current,
            in_quotes: !st.in_quotes,
            has_content: true,
        }
    } else if is_ws(ch) && !st.in_quotes {
        if st.has_content {
            TokState {
                tokens: st.tokens.push(st.current),
                current: Seq::empty(),
                in_quotes: st.in_quotes,
                has_content: false,
            }
        } else {
            st
        }
    } else {
        TokState {
            tokens: st.tokens,
            current: st.current.push(ch),
            in_quotes: st.in_quotes,
            has_content: true,
        }
    }
}

/// Tokenizer state after all of `t`.
pub open spec fn tok_fold(t: Seq<char>) -> TokState
    decreases t.len(),
{
    if t.len() == 0 {
        tok_init()
    } else {
        tok_step(tok_fold(t.drop_last()), t.last())
    }
}

/// The tokens of a template, or `UnclosedQuote`.
pub open spec fn tokenize_spec(t: Seq<char>) -> Result<Seq<Seq<char>>, TemplateFailure> {
    let st = tok_fold(t);
    if st.in_quotes {
        Err(TemplateFailure::UnclosedQuote)
    } else if st.has_content {
        Ok(st.tokens.push(st.current))
    } else {
        Ok(st.tokens)
    }
}

/// The value of the first variable named `name`.
pub open spec fn lookup_var(vars: Seq<(Seq<char>, Seq<char>)>, name: Seq<char>) -> Option<
    Seq<char>,
>
    decreases vars.len(),
{
    if vars.len() == 0 {
        None
    } else if vars[0].0 == name {
        Some(vars[0].1)
    } else {
        lookup_var(vars.drop_first(), name)
    }
}

/// Placeholder substitution inside one token: each `{name}` is replaced by
/// the value of `name`; a `{` without a later `}` and an unknown name are
/// errors, reported for the first offending placeholder.
pub open spec fn substitute_spec(rest: Seq<char>, vars: Seq<(Seq<char>, Seq<char>)>) -> Result<
    Seq<char>,
    TemplateFailure,
>
    decreases rest.len(),
{
    match find_from(rest, '{', 0) {
        None => Ok(rest),
        Some(start) => {
            let after = rest.skip(start + 1);
            match find_from(after, '}', 0) {
                None => Err(TemplateFailure::UnclosedPlaceholder),
                Some(end) => {
                    let name = after.take(end);
                    match lookup_var(vars, name) {
                        None => Err(TemplateFailure::UnknownPlaceholder(name)),
                        Some(v) => {
                            proof {
                                lemma_find_from(rest, '{', 0);
                                lemma_find_from(after, '}', 0);
                            }
                            match substitute_spec(after.skip(end + 1), vars) {
                                Ok(o) => Ok(rest.take(start) + v + o),
                                Err(e) => Err(e),
                            }
                        },
                    }
                },
            }
        },
    }
}

/// Substitution over every token, in order, stopping at the first error.
pub open spec fn substitute_all(toks: Seq<Seq<char>>, vars: Seq<(Seq<char>, Seq<char>)>) -> Result<
    Seq<Seq<char>>,
    TemplateFailure,
>
    decreases toks.len(),
{
    if toks.len() == 0 {
        Ok(Seq::empty())
    } else {
        match substitute_all(toks.drop_last(), vars) {
            Err(e) => Err(e),
            Ok(prev) => match substitute_spec(toks.last(), vars) {
                Err(e) => Err(e),
                Ok(x) => Ok(prev.push(x)),
            },
        }
    }
}

/// The argument vector a template expands to.
pub open spec fn expand_spec(t: Seq<char>, vars: Seq<(Seq<char>, Seq<char>)>) -> Result<
    Seq<Seq<char>>,
    TemplateFailure,
> {
    match tokenize_spec(t) {
        Err(e) => Err(e),
        Ok(toks) => substitute_all(toks, vars),
    }
}

proof fn lemma_substitute_all_len(toks: Seq<Seq<char>>, vars: Seq<(Seq<char>, Seq<char>)>)
    ensures
        substitute_all(toks, vars) matches Ok(args) ==> args.len() == toks.len(),
    decreases toks.len(),
{
    if toks.len() > 0 {
        lemma_substitute_all_len(toks.drop_last(), vars);
    }
}

/// Substituted values are never re-split: a template expands to exactly
/// one argument per token of the template, whatever the values hold
/// (spaces and quotes included), and which tokens there are depends on
/// the template alone.
pub proof fn law_one_argument_per_token(t: Seq<char>, vars: Seq<(Seq<char>, Seq<char>)>)
    ensures
        expand_spec(t, vars) matches Ok(args) ==> (tokenize_spec(t) matches Ok(toks) && args.len()
            == toks.len()),
{
    if let Ok(toks) = tokenize_spec(t) {
        lemma_substitute_all_len(toks, vars);
    }
}

/// A token that is a single placeholder becomes that variable's value,
/// character for character.
pub proof fn law_placeholder_token_is_its_value(
    name: Seq<char>,
    vars: Seq<(Seq<char>, Seq<char>)>,
    v: Seq<char>,
)
    requires
        lookup_var(vars, name) == Some(v),
        !name.contains('}'),
    ensures
        substitute_spec(seq!['{'] + name + seq!['}'], vars) == Ok::<Seq<char>, TemplateFailure>(v),
{
    let tok = seq!['{'] + name + seq!['}'];
    crate::text::lemma_find_from_first(tok, '{', 0, 0);
    let after = tok.skip(1);
    assert(after =~= name + seq!['}']);
    assert forall|k: int| 0 <= k < name.len() implies after[k] != '}' by {
        assert(after[k] == name[k]);
        if name[k] == '}' {
            assert(name.contains('}'));
        }
    }
    crate::text::lemma_find_from_first(after, '}', 0, name.len() as int);
    assert(after.take(name.len() as int) =~= name);
    assert(after.skip(name.len() as int + 1) =~= Seq::<char>::empty());
    crate::text::lemma_find_from_absent(Seq::<char>::empty(), '{', 0);
    assert(substitute_spec(Seq::<char>::empty(), vars) == Ok::<Seq<char>, TemplateFailure>(
        Seq::empty(),
    ));
    assert(substitute_spec(after.skip(name.len() as int + 1), vars) == Ok::<Seq<char>, TemplateFailure>(
        Seq::empty(),
    ));
    assert(tok.take(0) + v + Seq::<char>::empty() =~= v);
}

/// The variables as (name, value) character sequences.
pub open spec fn vars_view(vars: Seq<(&str, &str)>) -> Seq<(Seq<char>, Seq<char>)> {
    vars.map_values(|p: (&str, &str)| (p.0@, p.1@))
}

/// The character sequences of a list of char vectors.
pub open spec fn chars_view(v: Seq<Vec<char>>) -> Seq<Seq<char>> {
    v.map_values(|s: Vec<char>| s@)
}

/// Once a prefix of the tokens fails, the whole substitution fails the same way.
proof fn lemma_substitute_all_err_sticks(
    toks: Seq<Seq<char>>,
    vars: Seq<(Seq<char>, Seq<char>)>,
    k: int,
)
    requires
        0 <= k <= toks.len(),
        substitute_all(toks.take(k), vars) is Err,
    ensures
        substitute_all(toks, vars) == substitute_all(toks.take(k), vars),
    decreases toks.len() - k,
{
    if k < toks.len() {
        assert(toks.take(k + 1).drop_last() =~= toks.take(k));
        lemma_substitute_all_err_sticks(toks, vars, k + 1);
    } else {
        assert(toks.take(k) =~= toks);
    }
}

/// Split a template into tokens (whitespace-separated, double quotes group).
fn tokenize(template: &str) -> (r: Result<Vec<Vec<char>>, TemplateError>)
    ensures
        tokenize_spec(template@) == match r {
            Ok(v) => Ok(chars_view(v@)),
            Err(e) => Err(e@),
        },
{
    let t = chars_of(template);
    let mut tokens: Vec<Vec<char>> = Vec::new();
    let mut current: Vec<char> = Vec::new();
    let mut in_quotes = false;
    let mut has_content = false;
    let mut i: usize = 0;
    proof {
        assert(t@.take(0) =~= Seq::<char>::empty());
        assert(chars_view(tokens@) =~= Seq::<Seq<char>>::empty());
        assert(current@ =~= Seq::<char>::empty());
    }
    while i < t.len()
        invariant
            i <= t@.len(),
            t@ == template@,
            tok_fold(t@.take(i as int)) == (TokState {
                tokens: chars_view(tokens@),
                current: current@,
                in_quotes,
                has_content,
            }),
        decreases t.len() - i,
    {
        proof {
            assert(t@.take(i + 1).drop_last() =~= t@.take(i as int));
            assert(t@.take(i + 1).last() == t@[i as int]);
        }
        let ch = t[i];
        if ch == '"' {
            in_quotes = !in_quotes;
            has_content = true;
        } else if is_whitespace(ch) && !in_quotes {
            if has_content {
                let ghost prev = tokens@;
                tokens.push(current);
                current = Vec::new();
                has_content = false;
                proof {
                    assert(chars_view(tokens@) =~= chars_view(prev).push(tokens@.last()@));
                    assert(current@ =~= Seq::<char>::empty());
                }
            }
        } else {
            current.push(ch);
            has_content = true;
        }
        i += 1;
    }
    proof {
        assert(t@.take(t@.len() as int) =~= t@);
    }
    if in_quotes {
        return Err(TemplateError::UnclosedQuote);
    }
    if has_content {
        let ghost prev = tokens@;
        let ghost cur = current@;
        tokens.push(current);
        proof {
            assert(chars_view(tokens@) =~= chars_view(prev).push(cur));
        }
    }
    Ok(tokens)
}

/// `lookup_var` on a suffix of the variables.
proof fn lemma_lookup_skip(vars: Seq<(Seq<char>, Seq<char>)>, name: Seq<char>, i: int)
    requires
        0 <= i < vars.len(),
        vars[i].0 != name,
    ensures
        lookup_var(vars.skip(i), name) == lookup_var(vars.skip(i + 1), name),
{
    assert(vars.skip(i).drop_first() =~= vars.skip(i + 1));
}

/// The value of the first variable named `name`.
fn find_var<'a>(vars: &[(&'a str, &'a str)], name: &[char]) -> (r: Option<&'a str>)
    ensures
        lookup_var(vars_view(vars@), name@) == match r {
            Some(v) => Some(v@),
            None => None,
        },
{
    let ghost vv = vars_view(vars@);
    let mut i: usize = 0;
    proof {
        assert(vv.skip(0) =~= vv);
    }
    while i < vars.len()
        invariant
            i <= vars@.len(),
            vv == vars_view(vars@),
            lookup_var(vv, name@) == lookup_var(vv.skip(i as int), name@),
        decreases vars.len() - i,
    {
        let (n, v) = vars[i];
        if chars_eq_str(name, n) {
            proof {
                assert(vv.skip(i as int)[0] == vv[i as int]);
            }
            return Some(v);
        }
        proof {
            lemma_lookup_skip(vv, name@, i as int);
        }
        i += 1;
    }
    proof {
        assert(vv.skip(i as int).len() == 0);
    }
    None
}

/// Prefix `out` onto a successful substitution result.
pub open spec fn prepend(out: Seq<char>, r: Result<Seq<char>, TemplateFailure>) -> Result<
    Seq<char>,
    TemplateFailure,
> {
    match r {
        Ok(x) => Ok(out + x),
        Err(e) => Err(e),
    }
}

/// Substitute every `{name}` placeholder in one token.
fn substitute(token: &[char], vars: &[(&str, &str)]) -> (r: Result<Vec<char>, TemplateError>)
    ensures
        substitute_spec(token@, vars_view(vars@)) == match r {
            Ok(v) => Ok(v@),
            Err(e) => Err(e@),
        },
{
    let ghost vv = vars_view(vars@);
    let tl = token.len();
    let mut out: Vec<char> = Vec::new();
    let mut pos: usize = 0;
    proof {
        assert(token@.skip(0) =~= token@);
        assert(out@ + Seq::<char>::empty() =~= out@);
    }
    loop
        invariant
            pos <= token@.len(),
            tl == token@.len(),
            vv == vars_view(vars@),
            substitute_spec(token@, vv) == prepend(out@, substitute_spec(token@.skip(pos as int), vv)),
        decreases token@.len() - pos,
    {
        let ghost rest = token@.skip(pos as int);
        proof {
            lemma_find_from_skip(token@, '{', pos as int, 0);
        }
        match find_char(token, '{', pos) {
            None => {
                let tail = copy_range(token, pos, token.len());
                push_all(&mut out, &tail);
                proof {
                    assert(tail@ =~= rest);
                }
                return Ok(out);
            },
            Some(start) => {
                proof {
                    lemma_find_from(token@, '{', pos as int);
                    lemma_find_from_skip(token@, '}', start + 1, 0);
                    assert(rest.skip(start - pos + 1) =~= token@.skip(start + 1));
                }
                match find_char(token, '}', start + 1) {
                    None => {
                        return Err(TemplateError::UnclosedPlaceholder);
                    },
                    Some(end) => {
                        proof {
                            lemma_find_from(token@, '}', start + 1);
                        }
                        let name = copy_range(token, start + 1, end);
                        proof {
                            assert(token@.skip(start + 1).take(end - start - 1) =~= name@);
                        }
                        match find_var(vars, &name) {
                            None => {
                                return Err(TemplateError::UnknownPlaceholder(string_from_chars(&name)));
                            },
                            Some(v) => {
                                let ghost old_out = out@;
                                let prefix = copy_range(token, pos, start);
                                push_all(&mut out, &prefix);
                                push_str(&mut out, v);
                                proof {
                                    assert(rest.take(start - pos) =~= prefix@);
                                    assert(token@.skip(start + 1).skip(end - start) =~= token@.skip(end + 1));
                                    assert(out@ =~= old_out + prefix@ + v@);
                                    let nxt = substitute_spec(token@.skip(end + 1), vv);
                                    match nxt {
                                        Ok(o) => {
                                            assert(old_out + (prefix@ + v@ + o) =~= out@ + o);
                                        },
                                        Err(_) => {},
                                    }
                                }
                                pos = end + 1;
                            },
                        }
                    },
                }
            },
        }
    }
}

/// Expand `template` into an argument vector using `vars` (name → value).
pub fn expand(template: &str, vars: &[(&str, &str)]) -> (r: Result<Vec<String>, TemplateError>)
    ensures
        expand_spec(template@, vars_view(vars@)) == match r {
            Ok(v) => Ok(strings_view(v@)),
            Err(e) => Err(e@),
        },
{
    let tokens = match tokenize(template) {
        Ok(t) => t,
        Err(e) => return Err(e),
    };
    let ghost toks = chars_view(tokens@);
    let mut out: Vec<String> = Vec::new();
    let mut i: usize = 0;
    proof {
        assert(toks.take(0) =~= Seq::<Seq<char>>::empty());
        assert(strings_view(out@) =~= Seq::<Seq<char>>::empty());
    }
    while i < tokens.len()
        invariant
            i <= tokens@.len(),
            toks == chars_view(tokens@),
            tokenize_spec(template@) == Ok::<Seq<Seq<char>>, TemplateFailure>(toks),
            substitute_all(toks.take(i as int), vars_view(vars@)) == Ok::<
                Seq<Seq<char>>,
                TemplateFailure,
            >(strings_view(out@)),
        decreases tokens.len() - i,
    {
        proof {
            assert(toks.take(i + 1).drop_last() =~= toks.take(i as int));
            assert(toks.take(i + 1).last() == tokens@[i as int]@);
        }
        match substitute(&tokens[i], vars) {
            Ok(s) => {
                let st = string_from_chars(&s);
                let ghost prev = out@;
                out.push(st);
                proof {
                    assert(strings_view(out@) =~= strings_view(prev).push(st@));
                }
            },
            Err(e) => {
                proof {
                    lemma_substitute_all_err_sticks(toks, vars_view(vars@), i + 1);
                }
                return Err(e);
            },
        }
        i += 1;
    }
    proof {
        assert(toks.take(tokens@.len() as int) =~= toks);
    }
    Ok(out)
}

/// Two variable lists that name the same placeholders in the same order.
pub open spec fn same_names(
    v1: Seq<(Seq<char>, Seq<char>)>,
    v2: Seq<(Seq<char>, Seq<char>)>,
) -> bool {
    v1.len() == v2.len() && forall|i: int| 0 <= i < v1.len() ==> v1[i].0 == v2[i].0
}

proof fn lemma_lookup_same_names(
    v1: Seq<(Seq<char>, Seq<char>)>,
    v2: Seq<(Seq<char>, Seq<char>)>,
    name: Seq<char>,
)
    requires
        same_names(v1, v2),
    ensures
        (lookup_var(v1, name) is Some) == (lookup_var(v2, name) is Some),
    decreases v1.len(),
{
    if v1.len() > 0 {
        assert(v1[0].0 == v2[0].0);
        assert(same_names(v1.drop_first(), v2.drop_first())) by {
            assert forall|i: int| 0 <= i < v1.drop_first().len() implies v1.drop_first()[i].0
                == v2.drop_first()[i].0 by {
                assert(v1[i + 1].0 == v2[i + 1].0);
            }
        }
        lemma_lookup_same_names(v1.drop_first(), v2.drop_first(), name);
    }
}

proof fn lemma_substitute_same_names(
    rest: Seq<char>,
    v1: Seq<(Seq<char>, Seq<char>)>,
    v2: Seq<(Seq<char>, Seq<char>)>,
)
    requires
        same_names(v1, v2),
    ensures
        (substitute_spec(rest, v1) is Ok) == (substitute_spec(rest, v2) is Ok),
    decreases rest.len(),
{
    match find_from(rest, '{', 0) {
        None => {},
        Some(start) => {
            let after = rest.skip(start + 1);
            match find_from(after, '}', 0) {
                None => {},
                Some(end) => {
                    lemma_find_from(rest, '{', 0);
                    lemma_find_from(after, '}', 0);
                    lemma_lookup_same_names(v1, v2, after.take(end));
                    lemma_substitute_same_names(after.skip(end + 1), v1, v2);
                },
            }
        },
    }
}

proof fn lemma_substitute_all_same_names(
    toks: Seq<Seq<char>>,
    v1: Seq<(Seq<char>, Seq<char>)>,
    v2: Seq<(Seq<char>, Seq<char>)>,
)
    requires
        same_names(v1, v2),
    ensures
        (substitute_all(toks, v1) is Ok) == (substitute_all(toks, v2) is Ok),
        substitute_all(toks, v1) matches Ok(a) ==> a.len() == toks.len(),
        substitute_all(toks, v2) matches Ok(a) ==> a.len() == toks.len(),
    decreases toks.len(),
{
    if toks.len() > 0 {
        lemma_substitute_all_same_names(toks.drop_last(), v1, v2);
        lemma_substitute_same_names(toks.last(), v1, v2);
    }
}

/// Substituted values never change how a template splits into arguments:
/// with two variable lists that name the same placeholders in the same
/// order, a template expands under both or under neither, and then to the
/// same number of arguments — exactly one per token, however many spaces
/// the values hold.
pub proof fn law_expansion_shape_ignores_values(
    t: Seq<char>,
    v1: Seq<(Seq<char>, Seq<char>)>,
    v2: Seq<(Seq<char>, Seq<char>)>,
)
    requires
        same_names(v1, v2),
    ensures
        (expand_spec(t, v1) is Ok) == (expand_spec(t, v2) is Ok),
        expand_spec(t, v1) matches Ok(a1) ==> {
            &&& expand_spec(t, v2) matches Ok(a2)
            &&& a1.len() == a2.len()
            &&& tokenize_spec(t) matches Ok(toks)
            &&& a1.len() == toks.len()
        },
{
    match tokenize_spec(t) {
        Err(_) => {},
        Ok(toks) => {
            lemma_substitute_all_same_names(toks, v1, v2);
        },
    }
}

/// The number of double quotes in `t`.
pub open spec fn quote_count(t: Seq<char>) -> nat
    decreases t.len(),
{
    if t.len() == 0 {
        0
    } else {
        quote_count(t.drop_last()) + if t.last() == '"' {
            1nat
        } else {
            0nat
        }
    }
}

proof fn lemma_in_quotes_is_parity(t: Seq<char>)
    ensures
        tok_fold(t).in_quotes == (quote_count(t) % 2 == 1),
    decreases t.len(),
{
    if t.len() > 0 {
        lemma_in_quotes_is_parity(t.drop_last());
    }
}

/// A template fails with an unclosed quote exactly when it holds an odd
/// number of double quotes, whatever the variables.
pub proof fn law_unclosed_quote_iff_odd_quotes(t: Seq<char>, vars: Seq<(Seq<char>, Seq<char>)>)
    ensures
        (expand_spec(t, vars) == Err::<Seq<Seq<char>>, TemplateFailure>(TemplateFailure::UnclosedQuote))
            == (quote_count(t) % 2 == 1),
{
    lemma_in_quotes_is_parity(t);
    if let Ok(toks) = tokenize_spec(t) {
        lemma_substitute_all_no_quote_error(toks, vars);
    }
}

proof fn lemma_substitute_no_quote_error(rest: Seq<char>, vars: Seq<(Seq<char>, Seq<char>)>)
    ensures
        !(substitute_spec(rest, vars) matches Err(TemplateFailure::UnclosedQuote)),
    decreases rest.len(),
{
    if let Some(start) = find_from(rest, '{', 0) {
        let after = rest.skip(start + 1);
        if let Some(end) = find_from(after, '}', 0) {
            if lookup_var(vars, after.take(end)) is Some {
                lemma_find_from(rest, '{', 0);
                lemma_find_from(after, '}', 0);
                lemma_substitute_no_quote_error(after.skip(end + 1), vars);
            }
        }
    }
}

proof fn lemma_substitute_all_no_quote_error(toks: Seq<Seq<char>>, vars: Seq<(Seq<char>, Seq<char>)>)
    ensures
        !(substitute_all(toks, vars) matches Err(TemplateFailure::UnclosedQuote)),
    decreases toks.len(),
{
    if toks.len() > 0 {
        lemma_substitute_all_no_quote_error(toks.drop_last(), vars);
        lemma_substitute_no_quote_error(toks.last(), vars);
    }
}

/// Text the tokenizer keeps whole: no double quote and no whitespace.
pub open spec fn plain_text(s: Seq<char>) -> bool {
    forall|k: int| 0 <= k < s.len() ==> #[trigger] s[k] != '"' && !is_ws(s[k])
}

proof fn lemma_tok_fold_plain(s: Seq<char>)
    requires
        plain_text(s),
    ensures
        tok_fold(s).tokens == Seq::<Seq<char>>::empty(),
        tok_fold(s).current == s,
        !tok_fold(s).in_quotes,
        tok_fold(s).has_content == (s.len() > 0),
    decreases s.len(),
{
    if s.len() > 0 {
        let p = s.drop_last();
        assert forall|k: int| 0 <= k < p.len() implies #[trigger] p[k] != '"' && !is_ws(p[k]) by {
            assert(p[k] == s[k]);
        }
        lemma_tok_fold_plain(p);
        assert(s[s.len() - 1] != '"' && !is_ws(s[s.len() - 1]));
        assert(p.push(s.last()) =~= s);
    }
}

/// A template that is one placeholder expands to exactly one argument,
/// that variable's value, whatever it holds (spaces, quotes and braces
/// included): a value is never re-split or re-substituted.
pub proof fn law_lone_placeholder_expands_to_value(name: Seq<char>, v: Seq<char>)
    requires
        plain_text(name),
        !name.contains('{'),
        !name.contains('}'),
    ensures
        expand_spec(seq!['{'] + name + seq!['}'], seq![(name, v)]) == Ok::<Seq<Seq<char>>, TemplateFailure>(
            seq![v],
        ),
{
    let t = seq!['{'] + name + seq!['}'];
    let vars = seq![(name, v)];
    assert(is_ws('{') == false) by {
        assert(('{' as u32) == 0x7b);
    }
    assert(is_ws('}') == false) by {
        assert(('}' as u32) == 0x7d);
    }
    assert forall|k: int| 0 <= k < t.len() implies #[trigger] t[k] != '"' && !is_ws(t[k]) by {
        if k == 0 {
        } else if k == t.len() - 1 {
        } else {
            assert(t[k] == name[k - 1]);
        }
    }
    lemma_tok_fold_plain(t);
    assert(tokenize_spec(t) == Ok::<Seq<Seq<char>>, TemplateFailure>(seq![t]));
    assert(lookup_var(vars, name) == Some(v));
    law_placeholder_token_is_its_value(name, vars, v);
    let toks = seq![t];
    assert(toks.drop_last() =~= Seq::<Seq<char>>::empty());
    assert(substitute_all(toks.drop_last(), vars) == Ok::<Seq<Seq<char>>, TemplateFailure>(Seq::empty()));
    assert(Seq::<Seq<char>>::empty().push(v) =~= seq![v]);
}

/// After an opening quote and text without quotes, the tokenizer is inside
/// the quotes with that text, whitespace included, as its current token.
proof fn lemma_tok_fold_open_quote(s: Seq<char>)
    requires
        !s.contains('"'),
    ensures
        tok_fold(seq!['"'] + s) == (TokState {
            tokens: Seq::empty(),
            current: s,
            in_quotes: true,
            has_content: true,
        }),
    decreases s.len(),
{
    let t = seq!['"'] + s;
    if s.len() == 0 {
        assert(t.drop_last() =~= Seq::<char>::empty());
        assert(tok_fold(t.drop_last()) == tok_init());
        assert(t.last() == '"');
        assert(tok_fold(t) == tok_step(tok_init(), '"'));
        assert(s =~= Seq::<char>::empty());
    } else {
        let p = s.drop_last();
        assert(!p.contains('"')) by {
            if p.contains('"') {
                let k = choose|k: int| 0 <= k < p.len() && p[k] == '"';
                assert(s[k] == p[k]);
            }
        }
        lemma_tok_fold_open_quote(p);
        assert(t.drop_last() =~= seq!['"'] + p);
        assert(t.last() == s[s.len() - 1]);
        assert(s[s.len() - 1] != '"');
        assert(p.push(s[s.len() - 1]) =~= s);
        assert(tok_fold(t) == tok_step(tok_fold(seq!['"'] + p), s[s.len() - 1]));
    }
}

/// Text between a pair of double quotes stays one argument: for text with
/// no quote and no brace, spaces and tabs allowed, the template `"text"`
/// tokenizes to that text alone and expands to exactly that one argument,
/// whatever the variables.
pub proof fn law_quoted_text_is_one_argument(s: Seq<char>, vars: Seq<(Seq<char>, Seq<char>)>)
    requires
        !s.contains('"'),
        !s.contains('{'),
    ensures
        tokenize_spec(seq!['"'] + s + seq!['"']) == Ok::<Seq<Seq<char>>, TemplateFailure>(seq![s]),
        expand_spec(seq!['"'] + s + seq!['"'], vars) == Ok::<Seq<Seq<char>>, TemplateFailure>(
            seq![s],
        ),
{
    let t = seq!['"'] + s + seq!['"'];
    lemma_tok_fold_open_quote(s);
    assert(t.drop_last() =~= seq!['"'] + s);
    assert(t.last() == '"');
    assert(tok_fold(t) == (TokState {
        tokens: Seq::empty(),
        current: s,
        in_quotes: false,
        has_content: true,
    }));
    assert(Seq::<Seq<char>>::empty().push(s) =~= seq![s]);
    crate::text::lemma_find_from_absent(s, '{', 0);
    assert(substitute_spec(s, vars) == Ok::<Seq<char>, TemplateFailure>(s));
    let toks = seq![s];
    assert(toks.drop_last() =~= Seq::<Seq<char>>::empty());
    assert(substitute_all(toks.drop_last(), vars) == Ok::<Seq<Seq<char>>, TemplateFailure>(
        Seq::empty(),
    ));
    assert(toks.last() == s);
}

} // verus!
