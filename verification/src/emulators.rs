//! Emulator auto-detection for first runs: a short list of well-known
//! emulators and the executable names each is installed under, looked up
//! in the directories of a `PATH`-style list. The application reads `PATH`,
//! asks for the candidate files, checks which of them exist, and hands
//! that list back to `detect_emulators`.

use vstd::prelude::*;

use crate::text::{
    chars_eq, chars_of, copy_range, find_char, find_from, lemma_find_from, lemma_find_from_skip,
    opt_view, push_all, string_of, strings_view,
};

verus! {

/// An emulator found on the machine.
#[derive(Debug, Clone, PartialEq, Eq)]
pub struct DetectedEmulator {
    pub name: String,
    pub exec_path: String,
}

/// A detectable emulator: its display name and executable stems.
pub struct EmulatorCandidate {
    pub name: String,
    pub stems: Vec<String>,
}

fn candidate(name: &str, stems: &[&str]) -> (c: EmulatorCandidate)
    ensures
        c.name@ == name@,
        strings_view(c.stems@) == stems@.map_values(|s: &str| s@),
{
    let mut v: Vec<String> = Vec::new();
    let mut i: usize = 0;
    while i < stems.len()
        invariant
            i <= stems@.len(),
            strings_view(v@) == stems@.take(i as int).map_values(|s: &str| s@),
        decreases stems.len() - i,
    {
        let ghost prev = v@;
        v.push(string_of(&chars_of(stems[i])));
        proof {
            assert(strings_view(v@) =~= strings_view(prev).push(stems@[i as int]@));
            assert(stems@.take(i + 1).map_values(|s: &str| s@) =~= stems@.take(i as int).map_values(
                |s: &str| s@,
            ).push(stems@[i as int]@));
        }
        i += 1;
    }
    proof {
        assert(stems@.take(stems@.len() as int) =~= stems@);
    }
    EmulatorCandidate { name: string_of(&chars_of(name)), stems: v }
}

/// The emulators looked for, in order, with the executable stems of each.
pub open spec fn emulator_candidates_spec() -> Seq<(Seq<char>, Seq<Seq<char>>)> {
    seq![
        ("RetroArch"@, seq!["retroarch"@]),
        ("Dolphin"@, seq!["dolphin-emu"@]),
        ("PPSSPP"@, seq!["ppsspp"@, "PPSSPPSDL"@, "PPSSPPQt"@]),
        ("mGBA"@, seq!["mgba-qt"@, "mgba"@]),
        ("Snes9x"@, seq!["snes9x-gtk"@, "snes9x"@]),
    ]
}

/// The emulators looked for, in order: RetroArch, Dolphin, PPSSPP, mGBA,
/// Snes9x.
pub fn emulator_candidates() -> (r: Vec<EmulatorCandidate>)
    ensures
        r@.map_values(|c: EmulatorCandidate| candidate_view(c)) == emulator_candidates_spec(),
{
    let mut r: Vec<EmulatorCandidate> = Vec::new();
    let mut a: Vec<&str> = Vec::new();
    a.push("retroarch");
    r.push(candidate("RetroArch", a.as_slice()));
    let mut b: Vec<&str> = Vec::new();
    b.push("dolphin-emu");
    r.push(candidate("Dolphin", b.as_slice()));
    let mut c: Vec<&str> = Vec::new();
    c.push("ppsspp");
    c.push("PPSSPPSDL");
    c.push("PPSSPPQt");
    r.push(candidate("PPSSPP", c.as_slice()));
    let mut d: Vec<&str> = Vec::new();
    d.push("mgba-qt");
    d.push("mgba");
    r.push(candidate("mGBA", d.as_slice()));
    let mut e: Vec<&str> = Vec::new();
    e.push("snes9x-gtk");
    e.push("snes9x");
    r.push(candidate("Snes9x", e.as_slice()));
    proof {
        assert(a@.map_values(|s: &str| s@) =~= seq!["retroarch"@]);
        assert(b@.map_values(|s: &str| s@) =~= seq!["dolphin-emu"@]);
        assert(c@.map_values(|s: &str| s@) =~= seq!["ppsspp"@, "PPSSPPSDL"@, "PPSSPPQt"@]);
        assert(d@.map_values(|s: &str| s@) =~= seq!["mgba-qt"@, "mgba"@]);
        assert(e@.map_values(|s: &str| s@) =~= seq!["snes9x-gtk"@, "snes9x"@]);
    }
    proof {
        assert(r@.map_values(|c: EmulatorCandidate| candidate_view(c)) =~= emulator_candidates_spec());
    }
    r
}

/// `Path::join` on Unix: an absolute `name` replaces `dir`; otherwise one
/// `/` separates them (none after an empty `dir` or one ending in `/`).
pub open spec fn path_join(dir: Seq<char>, name: Seq<char>) -> Seq<char> {
    if name.len() > 0 && name[0] == '/' {
        name
    } else if dir.len() == 0 || dir.last() == '/' {
        dir + name
    } else {
        dir + seq!['/'] + name
    }
}

pub fn path_join_exec(dir: &str, name: &str) -> (r: String)
    ensures
        r@ == path_join(dir@, name@),
{
    let d = chars_of(dir);
    let n = chars_of(name);
    if n.len() > 0 && n[0] == '/' {
        return string_of(&n);
    }
    let mut out = d;
    let dl = out.len();
    if !(dl == 0 || out[dl - 1] == '/') {
        out.push('/');
    }
    push_all(&mut out, n.as_slice());
    string_of(&out)
}

/// The files to look for, in lookup order: each directory in turn, and
/// within it each stem in turn.
pub open spec fn candidate_paths_spec(dirs: Seq<Seq<char>>, stems: Seq<Seq<char>>) -> Seq<Seq<char>>
    decreases dirs.len(),
{
    if dirs.len() == 0 {
        Seq::empty()
    } else {
        candidate_paths_spec(dirs.drop_last(), stems) + stems.map_values(
            |s: Seq<char>| path_join(dirs.last(), s),
        )
    }
}

pub fn candidate_paths(dirs: &[String], stems: &[String]) -> (r: Vec<String>)
    ensures
        strings_view(r@) == candidate_paths_spec(strings_view(dirs@), strings_view(stems@)),
{
    let mut out: Vec<String> = Vec::new();
    let mut i: usize = 0;
    proof {
        assert(strings_view(out@) =~= Seq::<Seq<char>>::empty());
    }
    while i < dirs.len()
        invariant
            i <= dirs@.len(),
            strings_view(out@) == candidate_paths_spec(
                strings_view(dirs@).take(i as int),
                strings_view(stems@),
            ),
        decreases dirs.len() - i,
    {
        let ghost before = strings_view(out@);
        let mut j: usize = 0;
        while j < stems.len()
            invariant
                i < dirs@.len(),
                j <= stems@.len(),
                strings_view(out@) == before + strings_view(stems@).take(j as int).map_values(
                    |s: Seq<char>| path_join(dirs@[i as int]@, s),
                ),
            decreases stems.len() - j,
        {
            let p = path_join_exec(dirs[i].as_str(), stems[j].as_str());
            let ghost o = out@;
            out.push(p);
            proof {
                let f = |s: Seq<char>| path_join(dirs@[i as int]@, s);
                assert(strings_view(out@) =~= strings_view(o).push(p@));
                assert(strings_view(stems@).take(j + 1).map_values(f) =~= strings_view(stems@).take(
                    j as int,
                ).map_values(f).push(f(stems@[j as int]@)));
                assert(strings_view(out@) =~= before + strings_view(stems@).take(j + 1).map_values(
                    |s: Seq<char>| path_join(dirs@[i as int]@, s),
                ));
            }
            j += 1;
        }
        proof {
            let t = strings_view(dirs@).take(i + 1);
            assert(t.drop_last() =~= strings_view(dirs@).take(i as int));
            assert(t.last() == dirs@[i as int]@);
            assert(strings_view(stems@).take(stems@.len() as int) =~= strings_view(stems@));
        }
        i += 1;
    }
    proof {
        assert(strings_view(dirs@).take(dirs@.len() as int) =~= strings_view(dirs@));
    }
    out
}

/// Whether `p` is one of `files`.
fn string_in(p: &String, files: &[String]) -> (b: bool)
    ensures
        b == strings_view(files@).contains(p@),
{
    let pc = chars_of(p.as_str());
    let mut i: usize = 0;
    while i < files.len()
        invariant
            i <= files@.len(),
            pc@ == p@,
            forall|k: int| 0 <= k < i ==> files@[k]@ != p@,
        decreases files.len() - i,
    {
        let fc = chars_of(files[i].as_str());
        if chars_eq(fc.as_slice(), pc.as_slice()) {
            proof {
                assert(strings_view(files@)[i as int] == p@);
            }
            return true;
        }
        i += 1;
    }
    proof {
        if strings_view(files@).contains(p@) {
            let k = choose|k: int| 0 <= k < strings_view(files@).len() && strings_view(files@)[k] == p@;
            assert(files@[k]@ == p@);
        }
    }
    false
}

/// The first of `paths` that is among the existing `files`.
pub open spec fn first_in(paths: Seq<Seq<char>>, files: Seq<Seq<char>>) -> Option<Seq<char>>
    decreases paths.len(),
{
    if paths.len() == 0 {
        None
    } else if files.contains(paths[0]) {
        Some(paths[0])
    } else {
        first_in(paths.drop_first(), files)
    }
}

/// The first of `paths` that is among the existing `files`, if any.
pub fn find_first(paths: &[String], files: &[String]) -> (r: Option<String>)
    ensures
        opt_view(r) == first_in(strings_view(paths@), strings_view(files@)),
{
    let mut i: usize = 0;
    proof {
        assert(strings_view(paths@).skip(0) =~= strings_view(paths@));
    }
    while i < paths.len()
        invariant
            i <= paths@.len(),
            first_in(strings_view(paths@), strings_view(files@)) == first_in(
                strings_view(paths@).skip(i as int),
                strings_view(files@),
            ),
        decreases paths.len() - i,
    {
        let ghost rest = strings_view(paths@).skip(i as int);
        proof {
            assert(rest[0] == paths@[i as int]@);
            assert(rest.drop_first() =~= strings_view(paths@).skip(i + 1));
        }
        if string_in(&paths[i], files) {
            return Some(string_of(&chars_of(paths[i].as_str())));
        }
        i += 1;
    }
    proof {
        assert(strings_view(paths@).skip(i as int).len() == 0);
    }
    None
}

/// Splitting a string at each `c`: the pieces between separators, in
/// order; a string without `c` (the empty one too) is one piece.
pub open spec fn split_on(s: Seq<char>, c: char) -> Seq<Seq<char>>
    decreases s.len(),
{
    match find_from(s, c, 0) {
        None => seq![s],
        Some(i) => {
            proof {
                lemma_find_from(s, c, 0);
            }
            seq![s.take(i)] + split_on(s.skip(i + 1), c)
        },
    }
}

/// `std::env::split_paths` on Unix: the directories of a `PATH` value,
/// split at every `:`.
pub fn split_path_var(path_var: &str) -> (r: Vec<String>)
    ensures
        strings_view(r@) == split_on(path_var@, ':'),
{
    let s = chars_of(path_var);
    let n = s.len();
    let mut out: Vec<String> = Vec::new();
    let mut pos: usize = 0;
    proof {
        assert(s@.skip(0) =~= s@);
        assert(strings_view(out@) + split_on(s@, ':') =~= split_on(s@, ':'));
    }
    loop
        invariant_except_break
            pos <= n == s@.len(),
            split_on(s@, ':') == strings_view(out@) + split_on(s@.skip(pos as int), ':'),
        ensures
            strings_view(out@) == split_on(s@, ':'),
        decreases n - pos,
    {
        let ghost rest = s@.skip(pos as int);
        proof {
            lemma_find_from_skip(s@, ':', pos as int, 0);
        }
        match find_char(s.as_slice(), ':', pos) {
            None => {
                let piece = copy_range(s.as_slice(), pos, n);
                let ghost prev = out@;
                out.push(string_of(&piece));
                proof {
                    assert(piece@ =~= rest);
                    assert(strings_view(out@) =~= strings_view(prev) + seq![rest]);
                }
                break ;
            },
            Some(i) => {
                proof {
                    lemma_find_from(s@, ':', pos as int);
                }
                let piece = copy_range(s.as_slice(), pos, i);
                let ghost prev = out@;
                out.push(string_of(&piece));
                proof {
                    assert(piece@ =~= rest.take(i - pos));
                    assert(rest.skip(i - pos + 1) =~= s@.skip(i + 1));
                    assert(strings_view(out@) =~= strings_view(prev).push(piece@));
                    assert(strings_view(prev) + split_on(rest, ':') =~= strings_view(out@)
                        + split_on(s@.skip(i + 1), ':'));
                }
                pos = i + 1;
            },
        }
    }
    out
}

/// The view of a candidate: its name and its executable stems.
pub open spec fn candidate_view(c: EmulatorCandidate) -> (Seq<char>, Seq<Seq<char>>) {
    (c.name@, strings_view(c.stems@))
}

/// Every file the search looks at, candidate by candidate, each in the
/// order of `candidate_paths_spec`.
pub open spec fn all_search_paths(
    table: Seq<(Seq<char>, Seq<Seq<char>>)>,
    dirs: Seq<Seq<char>>,
) -> Seq<Seq<char>>
    decreases table.len(),
{
    if table.len() == 0 {
        Seq::empty()
    } else {
        all_search_paths(table.drop_last(), dirs) + candidate_paths_spec(dirs, table.last().1)
    }
}

/// The emulators found: for each candidate in turn whose files include one
/// that exists, its name and the first such file.
pub open spec fn detected(
    table: Seq<(Seq<char>, Seq<Seq<char>>)>,
    dirs: Seq<Seq<char>>,
    files: Seq<Seq<char>>,
) -> Seq<(Seq<char>, Seq<char>)>
    decreases table.len(),
{
    if table.len() == 0 {
        Seq::empty()
    } else {
        let rest = detected(table.drop_last(), dirs, files);
        match first_in(candidate_paths_spec(dirs, table.last().1), files) {
            Some(p) => rest.push((table.last().0, p)),
            None => rest,
        }
    }
}

/// The view of a detected emulator: name and executable path.
pub open spec fn detected_view(d: DetectedEmulator) -> (Seq<char>, Seq<char>) {
    (d.name@, d.exec_path@)
}

/// Every file the detection for `path_var` would check, in order; the
/// application tests which of them are regular files.
pub fn emulator_search_paths(path_var: &str) -> (r: Vec<String>)
    ensures
        strings_view(r@) == all_search_paths(
            emulator_candidates_spec(),
            split_on(path_var@, ':'),
        ),
{
    let dirs = split_path_var(path_var);
    let cands = emulator_candidates();
    let mut out: Vec<String> = Vec::new();
    let mut i: usize = 0;
    proof {
        assert(cands@.map_values(|c: EmulatorCandidate| candidate_view(c)).take(0) =~= Seq::<
            (Seq<char>, Seq<Seq<char>>),
        >::empty());
    }
    while i < cands.len()
        invariant
            i <= cands@.len(),
            cands@.map_values(|c: EmulatorCandidate| candidate_view(c)) == emulator_candidates_spec(),
            strings_view(dirs@) == split_on(path_var@, ':'),
            strings_view(out@) == all_search_paths(
                emulator_candidates_spec().take(i as int),
                strings_view(dirs@),
            ),
        decreases cands.len() - i,
    {
        let ps = candidate_paths(dirs.as_slice(), cands[i].stems.as_slice());
        let ghost prev = strings_view(out@);
        let mut ps = ps;
        let ghost psv = strings_view(ps@);
        out.append(&mut ps);
        proof {
            let t = emulator_candidates_spec().take(i + 1);
            assert(t.drop_last() =~= emulator_candidates_spec().take(i as int));
            assert(t.last() == candidate_view(cands@[i as int]));
            assert(strings_view(out@) =~= prev + psv);
        }
        i += 1;
    }
    proof {
        assert(emulator_candidates_spec().take(cands@.len() as int) =~= emulator_candidates_spec());
    }
    out
}

/// Which emulators are installed, given the `PATH` value and the files
/// among `emulator_search_paths(path_var)` that exist: for each candidate
/// in order, the first of its files that exists.
pub fn detect_emulators(path_var: &str, files: &[String]) -> (r: Vec<DetectedEmulator>)
    ensures
        r@.map_values(|d: DetectedEmulator| detected_view(d)) == detected(
            emulator_candidates_spec(),
            split_on(path_var@, ':'),
            strings_view(files@),
        ),
{
    let dirs = split_path_var(path_var);
    let cands = emulator_candidates();
    let mut out: Vec<DetectedEmulator> = Vec::new();
    let mut i: usize = 0;
    proof {
        assert(out@.map_values(|d: DetectedEmulator| detected_view(d)) =~= detected(
            emulator_candidates_spec().take(0),
            strings_view(dirs@),
            strings_view(files@),
        ));
    }
    while i < cands.len()
        invariant
            i <= cands@.len(),
            cands@.map_values(|c: EmulatorCandidate| candidate_view(c)) == emulator_candidates_spec(),
            strings_view(dirs@) == split_on(path_var@, ':'),
            out@.map_values(|d: DetectedEmulator| detected_view(d)) == detected(
                emulator_candidates_spec().take(i as int),
                strings_view(dirs@),
                strings_view(files@),
            ),
        decreases cands.len() - i,
    {
        let ps = candidate_paths(dirs.as_slice(), cands[i].stems.as_slice());
        let ghost prev = out@;
        proof {
            let t = emulator_candidates_spec().take(i + 1);
            assert(t.drop_last() =~= emulator_candidates_spec().take(i as int));
            assert(t.last() == candidate_view(cands@[i as int]));
        }
        match find_first(ps.as_slice(), files) {
            Some(p) => {
                let name = string_of(&chars_of(cands[i].name.as_str()));
                out.push(DetectedEmulator { name, exec_path: p });
                proof {
                    assert(out@.map_values(|d: DetectedEmulator| detected_view(d)) =~= prev.map_values(
                        |d: DetectedEmulator| detected_view(d),
                    ).push(detected_view(out@.last())));
                }
            },
            None => {},
        }
        i += 1;
    }
    proof {
        assert(emulator_candidates_spec().take(cands@.len() as int) =~= emulator_candidates_spec());
    }
    out
}

} // verus!
