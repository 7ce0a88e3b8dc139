//! `/`-separated path names, as `std::path::Path` reads them on Unix:
//! file name, stem and extension of a path held as characters.
//!
//! Paths reach the library as text (rows of the index, entries of an
//! archive, names from a directory listing); these functions take the same
//! view of them that the standard library's `Path` does, without touching
//! the filesystem.

use vstd::prelude::*;

use crate::text::{copy_range, find_char, find_from, lemma_find_from, lemma_find_from_skip};

verus! {

/// A path segment that names something: neither empty nor `.`.
pub open spec fn is_normal_seg(s: Seq<char>) -> bool {
    s.len() > 0 && s != seq!['.']
}

/// The last segment of `p` (split at `/`) that is neither empty nor `.`.
pub open spec fn last_normal(p: Seq<char>) -> Option<Seq<char>>
    decreases p.len(),
{
    match find_from(p, '/', 0) {
        None => if is_normal_seg(p) {
            Some(p)
        } else {
            None
        },
        Some(i) => {
            proof {
                lemma_find_from(p, '/', 0);
            }
            match last_normal(p.skip(i + 1)) {
                Some(s) => Some(s),
                None => if is_normal_seg(p.take(i)) {
                    Some(p.take(i))
                } else {
                    None
                },
            }
        },
    }
}

/// `Path::file_name`: the final component, unless the path ends in `..`
/// or has no named component.
pub open spec fn file_name(p: Seq<char>) -> Option<Seq<char>> {
    match last_normal(p) {
        Some(s) => if s == seq!['.', '.'] {
            None
        } else {
            Some(s)
        },
        None => None,
    }
}

/// Index of the last `c` in `s`.
pub open spec fn rfind(s: Seq<char>, c: char) -> Option<int>
    decreases s.len(),
{
    if s.len() == 0 {
        None
    } else if s.last() == c {
        Some(s.len() - 1)
    } else {
        rfind(s.drop_last(), c)
    }
}

/// Facts about `rfind`: a hit is the last occurrence.
pub proof fn lemma_rfind(s: Seq<char>, c: char)
    ensures
        rfind(s, c) matches Some(i) ==> 0 <= i < s.len() && s[i] == c && forall|k: int|
            i < k < s.len() ==> s[k] != c,
        rfind(s, c) is None ==> forall|k: int| 0 <= k < s.len() ==> s[k] != c,
    decreases s.len(),
{
    if s.len() > 0 && s.last() != c {
        lemma_rfind(s.drop_last(), c);
        assert forall|k: int| 0 <= k < s.len() - 1 implies s[k] == s.drop_last()[k] by {}
    }
}

/// `Path::file_stem`: the file name without its extension.
pub open spec fn file_stem(p: Seq<char>) -> Option<Seq<char>> {
    match file_name(p) {
        None => None,
        Some(n) => match rfind(n, '.') {
            Some(i) => if i == 0 {
                Some(n)
            } else {
                Some(n.take(i))
            },
            None => Some(n),
        },
    }
}

/// `Path::extension`: what follows the last `.` of the file name, unless
/// that dot starts the name.
pub open spec fn extension(p: Seq<char>) -> Option<Seq<char>> {
    match file_name(p) {
        None => None,
        Some(n) => match rfind(n, '.') {
            Some(i) => if i == 0 {
                None
            } else {
                Some(n.skip(i + 1))
            },
            None => None,
        },
    }
}

/// Whether `s` is a normal segment (exec).
fn is_normal_seg_exec(s: &Vec<char>) -> (b: bool)
    ensures
        b == is_normal_seg(s@),
{
    if s.len() == 0 {
        return false;
    }
    if s.len() == 1 && s[0] == '.' {
        proof {
            assert(s@ =~= seq!['.']);
        }
        return false;
    }
    proof {
        if s@.len() == 1 {
            assert(s@ != seq!['.']) by {
                assert(s@[0] != '.');
            }
        } else {
            assert(s@.len() != seq!['.'].len());
        }
    }
    true
}

/// The last normal segment of `p`.
pub fn last_normal_exec(p: &[char]) -> (r: Option<Vec<char>>)
    ensures
        match r {
            Some(v) => last_normal(p@) == Some(v@),
            None => last_normal(p@) is None,
        },
{
    let n = p.len();
    let mut pos: usize = 0;
    let mut cand: Option<Vec<char>> = None;
    proof {
        assert(p@.skip(0) =~= p@);
    }
    loop
        invariant
            pos <= n == p@.len(),
            last_normal(p@) == match last_normal(p@.skip(pos as int)) {
                Some(s) => Some(s),
                None => match cand {
                    Some(v) => Some(v@),
                    None => None,
                },
            },
        decreases n - pos,
    {
        let ghost rest = p@.skip(pos as int);
        proof {
            lemma_find_from_skip(p@, '/', pos as int, 0);
        }
        match find_char(p, '/', pos) {
            None => {
                let seg = copy_range(p, pos, n);
                proof {
                    assert(seg@ =~= rest);
                }
                if is_normal_seg_exec(&seg) {
                    return Some(seg);
                }
                return cand;
            },
            Some(i) => {
                proof {
                    lemma_find_from(p@, '/', pos as int);
                }
                let seg = copy_range(p, pos, i);
                proof {
                    assert(seg@ =~= rest.take(i - pos));
                    assert(rest.skip(i - pos + 1) =~= p@.skip(i + 1));
                }
                if is_normal_seg_exec(&seg) {
                    cand = Some(seg);
                }
                pos = i + 1;
            },
        }
    }
}

/// Index of the last `c` in `s` (exec).
pub fn rfind_exec(s: &[char], c: char) -> (r: Option<usize>)
    ensures
        match r {
            Some(i) => rfind(s@, c) == Some(i as int),
            None => rfind(s@, c) is None,
        },
{
    let mut i = s.len();
    proof {
        assert(s@.take(i as int) =~= s@);
    }
    while i > 0
        invariant
            i <= s@.len(),
            rfind(s@, c) == rfind(s@.take(i as int), c),
        decreases i,
    {
        proof {
            assert(s@.take(i as int).drop_last() =~= s@.take(i - 1));
        }
        if s[i - 1] == c {
            return Some(i - 1);
        }
        i -= 1;
    }
    None
}

/// `Path::file_name` on chars.
pub fn file_name_exec(p: &[char]) -> (r: Option<Vec<char>>)
    ensures
        match r {
            Some(v) => file_name(p@) == Some(v@),
            None => file_name(p@) is None,
        },
{
    match last_normal_exec(p) {
        None => None,
        Some(s) => {
            if s.len() == 2 && s[0] == '.' && s[1] == '.' {
                proof {
                    assert(s@ =~= seq!['.', '.']);
                }
                None
            } else {
                proof {
                    if s@.len() == 2 {
                        assert(s@ != seq!['.', '.']) by {
                            if s@[0] != '.' {
                                assert(s@[0] != seq!['.', '.'][0]);
                            } else {
                                assert(s@[1] != seq!['.', '.'][1]);
                            }
                        }
                    }
                }
                Some(s)
            }
        },
    }
}

/// `Path::file_stem` on chars.
pub fn file_stem_exec(p: &[char]) -> (r: Option<Vec<char>>)
    ensures
        match r {
            Some(v) => file_stem(p@) == Some(v@),
            None => file_stem(p@) is None,
        },
{
    match file_name_exec(p) {
        None => None,
        Some(n) => match rfind_exec(n.as_slice(), '.') {
            Some(i) => {
                if i == 0 {
                    Some(n)
                } else {
                    proof {
                        lemma_rfind(n@, '.');
                    }
                    let s = copy_range(n.as_slice(), 0, i);
                    proof {
                        assert(s@ =~= n@.take(i as int));
                    }
                    Some(s)
                }
            },
            None => Some(n),
        },
    }
}

/// `Path::extension` on chars.
pub fn extension_exec(p: &[char]) -> (r: Option<Vec<char>>)
    ensures
        match r {
            Some(v) => extension(p@) == Some(v@),
            None => extension(p@) is None,
        },
{
    match file_name_exec(p) {
        None => None,
        Some(n) => match rfind_exec(n.as_slice(), '.') {
            Some(i) => {
                if i == 0 {
                    None
                } else {
                    proof {
                        lemma_rfind(n@, '.');
                    }
                    let nl = n.len();
                    let s = copy_range(n.as_slice(), i + 1, nl);
                    proof {
                        assert(s@ =~= n@.skip(i + 1));
                    }
                    Some(s)
                }
            },
            None => None,
        },
    }
}

} // verus!
