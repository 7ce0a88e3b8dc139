//! The platform registry: one definition per system, ordered for display
//! by `sort_order` and then name. A definition needs at least one file
//! extension.

use vstd::prelude::*;

use crate::text::{
    strings_view, chars_le, chars_of, lemma_seq_le_total, lemma_seq_le_trans, push_str, seq_le, string_of,
};

verus! {

/// One platform.
#[derive(Debug, Clone)]
pub struct SystemDef {
    pub slug: String,
    pub name: String,
    pub sort_order: i64,
    /// Lowercase extensions without dots, e.g. `["nes", "zip"]`.
    pub extensions: Vec<String>,
    /// RetroAchievements console id, when RA supports the platform.
    pub ra_console_id: Option<u32>,
    /// Suggested libretro core file stem, e.g. `"snes9x"`.
    pub default_core: Option<String>,
    /// Key theme authors use to pick per-system art.
    pub theme_key: Option<String>,
}

/// A definition that cannot be used, with the system it names and why.
#[derive(Debug, Clone, PartialEq, Eq)]
pub struct SystemDefError {
    pub name: String,
    pub reason: String,
}

impl SystemDefError {
    /// `"invalid system definition <name>: <reason>"`.
    pub fn message(&self) -> (r: String)
        ensures
            r@ == "invalid system definition "@ + self.name@ + ": "@ + self.reason@,
    {
        let mut out = chars_of("invalid system definition ");
        push_str(&mut out, self.name.as_str());
        push_str(&mut out, ": ");
        push_str(&mut out, self.reason.as_str());
        string_of(&out)
    }
}

/// Accepts a parsed definition that has an extension.
pub fn check_system(def: SystemDef) -> (r: Result<SystemDef, SystemDefError>)
    ensures
        def.extensions@.len() > 0 ==> (r matches Ok(d) && d == def),
        def.extensions@.len() == 0 ==> (r matches Err(e) && e.name@ == def.slug@ && e.reason@
            == "at least one extension is required"@),
{
    if def.extensions.len() == 0 {
        Err(SystemDefError { name: def.slug, reason: string_of(&chars_of("at least one extension is required")) })
    } else {
        Ok(def)
    }
}

/// Display order: by `sort_order`, then by name.
pub open spec fn def_le(a: SystemDef, b: SystemDef) -> bool {
    a.sort_order < b.sort_order || (a.sort_order == b.sort_order && seq_le(a.name@, b.name@))
}

pub open spec fn sorted_defs(v: Seq<SystemDef>) -> bool {
    forall|i: int, j: int| 0 <= i < j < v.len() ==> def_le(#[trigger] v[i], #[trigger] v[j])
}

fn def_le_exec(a: &SystemDef, b: &SystemDef) -> (r: bool)
    ensures
        r == def_le(*a, *b),
{
    a.sort_order < b.sort_order || (a.sort_order == b.sort_order && chars_le(
        chars_of(a.name.as_str()).as_slice(),
        chars_of(b.name.as_str()).as_slice(),
    ))
}

proof fn lemma_def_le_trans(a: SystemDef, b: SystemDef, c: SystemDef)
    requires
        def_le(a, b),
        def_le(b, c),
    ensures
        def_le(a, c),
{
    if a.sort_order == b.sort_order && b.sort_order == c.sort_order {
        lemma_seq_le_trans(a.name@, b.name@, c.name@);
    }
}

proof fn lemma_def_le_total(a: SystemDef, b: SystemDef)
    ensures
        def_le(a, b) || def_le(b, a),
{
    lemma_seq_le_total(a.name@, b.name@);
}

/// `defs` in display order (a stable sort by `sort_order`, then name).
pub fn sort_defs(defs: Vec<SystemDef>) -> (r: Vec<SystemDef>)
    ensures
        sorted_defs(r@),
        r@.to_multiset() == defs@.to_multiset(),
{
    broadcast use vstd::seq_lib::group_to_multiset_ensures, vstd::multiset::group_multiset_axioms;

    let ghost input = defs@;
    let mut rest = defs;
    let mut out: Vec<SystemDef> = Vec::new();
    proof {
        assert(out@.to_multiset().add(rest@.to_multiset()) =~= input.to_multiset());
    }
    while rest.len() > 0
        invariant
            sorted_defs(out@),
            out@.to_multiset().add(rest@.to_multiset()) == input.to_multiset(),
        decreases rest@.len(),
    {
        let ghost r0 = rest@;
        let x = rest.remove(0);
        proof {
            vstd::seq_lib::to_multiset_remove(r0, 0);
        }
        let mut pos: usize = 0;
        while pos < out.len() && def_le_exec(&out[pos], &x)
            invariant
                pos <= out@.len(),
                forall|k: int| 0 <= k < pos ==> def_le(#[trigger] out@[k], x),
            decreases out@.len() - pos,
        {
            pos += 1;
        }
        let ghost o0 = out@;
        proof {
            if pos < o0.len() {
                assert(!def_le(o0[pos as int], x));
                lemma_def_le_total(o0[pos as int], x);
            }
        }
        out.insert(pos, x);
        proof {
            vstd::seq_lib::to_multiset_insert(o0, pos as int, x);
            assert forall|i: int, j: int| 0 <= i < j < out@.len() implies def_le(
                #[trigger] out@[i],
                #[trigger] out@[j],
            ) by {
                if j < pos {
                    assert(out@[i] == o0[i] && out@[j] == o0[j]);
                } else if j == pos {
                    assert(out@[i] == o0[i]);
                } else if i == pos {
                    assert(out@[j] == o0[j - 1]);
                    if j - 1 > pos {
                        lemma_def_le_trans(x, o0[pos as int], o0[j - 1]);
                    }
                } else if i < pos {
                    assert(out@[i] == o0[i] && out@[j] == o0[j - 1]);
                } else {
                    assert(out@[i] == o0[i - 1] && out@[j] == o0[j - 1]);
                }
            }
            assert(r0[0] == x);
            assert(r0.to_multiset().count(x) > 0) by {
                vstd::seq_lib::to_multiset_contains(r0, x);
                assert(r0.contains(x));
            }
            assert(out@.to_multiset() == o0.to_multiset().insert(x));
            assert(rest@.to_multiset() == r0.to_multiset().remove(x));
            assert(out@.to_multiset().add(rest@.to_multiset()) =~= o0.to_multiset().add(
                r0.to_multiset(),
            ));
        }
    }
    proof {
        assert(rest@.to_multiset() =~= vstd::multiset::Multiset::<SystemDef>::empty());
        assert(out@.to_multiset() =~= input.to_multiset());
    }
    out
}


/// The built-in platforms, in display order: slug, name, sort order,
/// extensions, RetroAchievements console id and default core of each.
pub open spec fn builtin_table() -> Seq<(Seq<char>, Seq<char>, i64, Seq<Seq<char>>, Option<u32>, Seq<char>)> {
    seq![
        ("nes"@, "Nintendo Entertainment System"@, 10i64, seq!["nes"@, "unf"@, "fds"@, "zip"@, "7z"@], Some(7u32), "fceumm"@),
        ("snes"@, "Super Nintendo"@, 20i64, seq!["sfc"@, "smc"@, "fig"@, "swc"@, "bs"@, "zip"@, "7z"@], Some(3u32), "snes9x"@),
        ("gb"@, "Game Boy"@, 30i64, seq!["gb"@, "zip"@, "7z"@], Some(4u32), "gambatte"@),
        ("gba"@, "Game Boy Advance"@, 40i64, seq!["gba"@, "zip"@, "7z"@], Some(5u32), "mgba"@),
        ("megadrive"@, "Sega Mega Drive"@, 50i64, seq!["md"@, "gen"@, "smd"@, "bin"@, "zip"@, "7z"@], Some(1u32), "genesis_plus_gx"@),
        ("psx"@, "PlayStation"@, 60i64, seq!["cue"@, "bin"@, "chd"@, "iso"@, "pbp"@, "m3u"@], Some(12u32), "pcsx_rearmed"@),
        ("n64"@, "Nintendo 64"@, 70i64, seq!["n64"@, "z64"@, "v64"@, "zip"@, "7z"@], Some(2u32), "mupen64plus_next"@),
        ("arcade"@, "Arcade"@, 80i64, seq!["zip"@, "7z"@, "chd"@], Some(27u32), "fbneo"@),
        ("mastersystem"@, "Sega Master System"@, 90i64, seq!["sms"@, "zip"@, "7z"@], Some(11u32), "genesis_plus_gx"@),
        ("gamegear"@, "Sega Game Gear"@, 100i64, seq!["gg"@, "zip"@, "7z"@], Some(15u32), "genesis_plus_gx"@),
        ("pcengine"@, "PC Engine"@, 110i64, seq!["pce"@, "cue"@, "chd"@, "zip"@, "7z"@], Some(8u32), "mednafen_pce_fast"@),
        ("atari2600"@, "Atari 2600"@, 120i64, seq!["a26"@, "bin"@, "zip"@, "7z"@], Some(25u32), "stella"@),
        ("nds"@, "Nintendo DS"@, 130i64, seq!["nds"@, "zip"@, "7z"@], Some(18u32), "melonds"@),
        ("psp"@, "PlayStation Portable"@, 140i64, seq!["iso"@, "cso"@, "pbp"@, "chd"@], Some(41u32), "ppsspp"@),
        ("saturn"@, "Sega Saturn"@, 150i64, seq!["cue"@, "chd"@, "m3u"@], Some(39u32), "mednafen_saturn"@),
        ("dreamcast"@, "Sega Dreamcast"@, 160i64, seq!["cdi"@, "gdi"@, "chd"@, "m3u"@], Some(40u32), "flycast"@),
    ]
}

/// A definition holds one row of the table; its theme key is its slug.
pub open spec fn def_matches(
    d: SystemDef,
    e: (Seq<char>, Seq<char>, i64, Seq<Seq<char>>, Option<u32>, Seq<char>),
) -> bool {
    &&& d.slug@ == e.0
    &&& d.name@ == e.1
    &&& d.sort_order == e.2
    &&& strings_view(d.extensions@) == e.3
    &&& d.ra_console_id == e.4
    &&& d.default_core matches Some(c) && c@ == e.5
    &&& d.theme_key matches Some(t) && t@ == e.0
}

/// An extension as definitions store it: not empty, no leading dot, and
/// only lowercase ASCII letters and digits.
pub open spec fn stored_extension(e: Seq<char>) -> bool {
    &&& e.len() > 0
    &&& e[0] != '.'
    &&& forall|k: int| 0 <= k < e.len() ==> ('a' <= #[trigger] e[k] <= 'z' || '0' <= e[k] <= '9')
}

/// The built-in platforms have distinct slugs, and every one has at least
/// one extension, each lowercase and without a leading dot.
pub proof fn law_builtin_table_well_formed()
    ensures
        builtin_table().len() == 16,
        forall|i: int, j: int|
            0 <= i < j < builtin_table().len() ==> (#[trigger] builtin_table()[i]).0 != (#[trigger] builtin_table()[j]).0,
        forall|i: int| 0 <= i < builtin_table().len() ==> (#[trigger] builtin_table()[i]).3.len() > 0,
        forall|i: int, k: int|
            0 <= i < builtin_table().len() && 0 <= k < builtin_table()[i].3.len() ==> stored_extension(
                #[trigger] builtin_table()[i].3[k],
            ),
{
    reveal_strlit("7z");
    reveal_strlit("a26");
    reveal_strlit("arcade");
    reveal_strlit("atari2600");
    reveal_strlit("bin");
    reveal_strlit("bs");
    reveal_strlit("cdi");
    reveal_strlit("chd");
    reveal_strlit("cso");
    reveal_strlit("cue");
    reveal_strlit("dreamcast");
    reveal_strlit("fds");
    reveal_strlit("fig");
    reveal_strlit("gamegear");
    reveal_strlit("gb");
    reveal_strlit("gba");
    reveal_strlit("gdi");
    reveal_strlit("gen");
    reveal_strlit("gg");
    reveal_strlit("iso");
    reveal_strlit("m3u");
    reveal_strlit("mastersystem");
    reveal_strlit("md");
    reveal_strlit("megadrive");
    reveal_strlit("n64");
    reveal_strlit("nds");
    reveal_strlit("nes");
    reveal_strlit("pbp");
    reveal_strlit("pce");
    reveal_strlit("pcengine");
    reveal_strlit("psp");
    reveal_strlit("psx");
    reveal_strlit("saturn");
    reveal_strlit("sfc");
    reveal_strlit("smc");
    reveal_strlit("smd");
    reveal_strlit("sms");
    reveal_strlit("snes");
    reveal_strlit("swc");
    reveal_strlit("unf");
    reveal_strlit("v64");
    reveal_strlit("z64");
    reveal_strlit("zip");
    let t = builtin_table();
    assert(t[0].0 == "nes"@);
    assert(t[1].0 == "snes"@);
    assert(t[2].0 == "gb"@);
    assert(t[3].0 == "gba"@);
    assert(t[4].0 == "megadrive"@);
    assert(t[5].0 == "psx"@);
    assert(t[6].0 == "n64"@);
    assert(t[7].0 == "arcade"@);
    assert(t[8].0 == "mastersystem"@);
    assert(t[9].0 == "gamegear"@);
    assert(t[10].0 == "pcengine"@);
    assert(t[11].0 == "atari2600"@);
    assert(t[12].0 == "nds"@);
    assert(t[13].0 == "psp"@);
    assert(t[14].0 == "saturn"@);
    assert(t[15].0 == "dreamcast"@);
    assert("nes"@.len() != "snes"@.len());
    assert(t[0].0 != t[1].0);
    assert("nes"@.len() != "gb"@.len());
    assert(t[0].0 != t[2].0);
    assert("nes"@[0] != "gba"@[0]);
    assert(t[0].0 != t[3].0);
    assert("nes"@.len() != "megadrive"@.len());
    assert(t[0].0 != t[4].0);
    assert("nes"@[0] != "psx"@[0]);
    assert(t[0].0 != t[5].0);
    assert("nes"@[1] != "n64"@[1]);
    assert(t[0].0 != t[6].0);
    assert("nes"@.len() != "arcade"@.len());
    assert(t[0].0 != t[7].0);
    assert("nes"@.len() != "mastersystem"@.len());
    assert(t[0].0 != t[8].0);
    assert("nes"@.len() != "gamegear"@.len());
    assert(t[0].0 != t[9].0);
    assert("nes"@.len() != "pcengine"@.len());
    assert(t[0].0 != t[10].0);
    assert("nes"@.len() != "atari2600"@.len());
    assert(t[0].0 != t[11].0);
    assert("nes"@[1] != "nds"@[1]);
    assert(t[0].0 != t[12].0);
    assert("nes"@[0] != "psp"@[0]);
    assert(t[0].0 != t[13].0);
    assert("nes"@.len() != "saturn"@.len());
    assert(t[0].0 != t[14].0);
    assert("nes"@.len() != "dreamcast"@.len());
    assert(t[0].0 != t[15].0);
    assert("snes"@.len() != "gb"@.len());
    assert(t[1].0 != t[2].0);
    assert("snes"@.len() != "gba"@.len());
    assert(t[1].0 != t[3].0);
    assert("snes"@.len() != "megadrive"@.len());
    assert(t[1].0 != t[4].0);
    assert("snes"@.len() != "psx"@.len());
    assert(t[1].0 != t[5].0);
    assert("snes"@.len() != "n64"@.len());
    assert(t[1].0 != t[6].0);
    assert("snes"@.len() != "arcade"@.len());
    assert(t[1].0 != t[7].0);
    assert("snes"@.len() != "mastersystem"@.len());
    assert(t[1].0 != t[8].0);
    assert("snes"@.len() != "gamegear"@.len());
    assert(t[1].0 != t[9].0);
    assert("snes"@.len() != "pcengine"@.len());
    assert(t[1].0 != t[10].0);
    assert("snes"@.len() != "atari2600"@.len());
    assert(t[1].0 != t[11].0);
    assert("snes"@.len() != "nds"@.len());
    assert(t[1].0 != t[12].0);
    assert("snes"@.len() != "psp"@.len());
    assert(t[1].0 != t[13].0);
    assert("snes"@.len() != "saturn"@.len());
    assert(t[1].0 != t[14].0);
    assert("snes"@.len() != "dreamcast"@.len());
    assert(t[1].0 != t[15].0);
    assert("gb"@.len() != "gba"@.len());
    assert(t[2].0 != t[3].0);
    assert("gb"@.len() != "megadrive"@.len());
    assert(t[2].0 != t[4].0);
    assert("gb"@.len() != "psx"@.len());
    assert(t[2].0 != t[5].0);
    assert("gb"@.len() != "n64"@.len());
    assert(t[2].0 != t[6].0);
    assert("gb"@.len() != "arcade"@.len());
    assert(t[2].0 != t[7].0);
    assert("gb"@.len() != "mastersystem"@.len());
    assert(t[2].0 != t[8].0);
    assert("gb"@.len() != "gamegear"@.len());
    assert(t[2].0 != t[9].0);
    assert("gb"@.len() != "pcengine"@.len());
    assert(t[2].0 != t[10].0);
    assert("gb"@.len() != "atari2600"@.len());
    assert(t[2].0 != t[11].0);
    assert("gb"@.len() != "nds"@.len());
    assert(t[2].0 != t[12].0);
    assert("gb"@.len() != "psp"@.len());
    assert(t[2].0 != t[13].0);
    assert("gb"@.len() != "saturn"@.len());
    assert(t[2].0 != t[14].0);
    assert("gb"@.len() != "dreamcast"@.len());
    assert(t[2].0 != t[15].0);
    assert("gba"@.len() != "megadrive"@.len());
    assert(t[3].0 != t[4].0);
    assert("gba"@[0] != "psx"@[0]);
    assert(t[3].0 != t[5].0);
    assert("gba"@[0] != "n64"@[0]);
    assert(t[3].0 != t[6].0);
    assert("gba"@.len() != "arcade"@.len());
    assert(t[3].0 != t[7].0);
    assert("gba"@.len() != "mastersystem"@.len());
    assert(t[3].0 != t[8].0);
    assert("gba"@.len() != "gamegear"@.len());
    assert(t[3].0 != t[9].0);
    assert("gba"@.len() != "pcengine"@.len());
    assert(t[3].0 != t[10].0);
    assert("gba"@.len() != "atari2600"@.len());
    assert(t[3].0 != t[11].0);
    assert("gba"@[0] != "nds"@[0]);
    assert(t[3].0 != t[12].0);
    assert("gba"@[0] != "psp"@[0]);
    assert(t[3].0 != t[13].0);
    assert("gba"@.len() != "saturn"@.len());
    assert(t[3].0 != t[14].0);
    assert("gba"@.len() != "dreamcast"@.len());
    assert(t[3].0 != t[15].0);
    assert("megadrive"@.len() != "psx"@.len());
    assert(t[4].0 != t[5].0);
    assert("megadrive"@.len() != "n64"@.len());
    assert(t[4].0 != t[6].0);
    assert("megadrive"@.len() != "arcade"@.len());
    assert(t[4].0 != t[7].0);
    assert("megadrive"@.len() != "mastersystem"@.len());
    assert(t[4].0 != t[8].0);
    assert("megadrive"@.len() != "gamegear"@.len());
    assert(t[4].0 != t[9].0);
    assert("megadrive"@.len() != "pcengine"@.len());
    assert(t[4].0 != t[10].0);
    assert("megadrive"@[0] != "atari2600"@[0]);
    assert(t[4].0 != t[11].0);
    assert("megadrive"@.len() != "nds"@.len());
    assert(t[4].0 != t[12].0);
    assert("megadrive"@.len() != "psp"@.len());
    assert(t[4].0 != t[13].0);
    assert("megadrive"@.len() != "saturn"@.len());
    assert(t[4].0 != t[14].0);
    assert("megadrive"@[0] != "dreamcast"@[0]);
    assert(t[4].0 != t[15].0);
    assert("psx"@[0] != "n64"@[0]);
    assert(t[5].0 != t[6].0);
    assert("psx"@.len() != "arcade"@.len());
    assert(t[5].0 != t[7].0);
    assert("psx"@.len() != "mastersystem"@.len());
    assert(t[5].0 != t[8].0);
    assert("psx"@.len() != "gamegear"@.len());
    assert(t[5].0 != t[9].0);
    assert("psx"@.len() != "pcengine"@.len());
    assert(t[5].0 != t[10].0);
    assert("psx"@.len() != "atari2600"@.len());
    assert(t[5].0 != t[11].0);
    assert("psx"@[0] != "nds"@[0]);
    assert(t[5].0 != t[12].0);
    assert("psx"@[2] != "psp"@[2]);
    assert(t[5].0 != t[13].0);
    assert("psx"@.len() != "saturn"@.len());
    assert(t[5].0 != t[14].0);
    assert("psx"@.len() != "dreamcast"@.len());
    assert(t[5].0 != t[15].0);
    assert("n64"@.len() != "arcade"@.len());
    assert(t[6].0 != t[7].0);
    assert("n64"@.len() != "mastersystem"@.len());
    assert(t[6].0 != t[8].0);
    assert("n64"@.len() != "gamegear"@.len());
    assert(t[6].0 != t[9].0);
    assert("n64"@.len() != "pcengine"@.len());
    assert(t[6].0 != t[10].0);
    assert("n64"@.len() != "atari2600"@.len());
    assert(t[6].0 != t[11].0);
    assert("n64"@[1] != "nds"@[1]);
    assert(t[6].0 != t[12].0);
    assert("n64"@[0] != "psp"@[0]);
    assert(t[6].0 != t[13].0);
    assert("n64"@.len() != "saturn"@.len());
    assert(t[6].0 != t[14].0);
    assert("n64"@.len() != "dreamcast"@.len());
    assert(t[6].0 != t[15].0);
    assert("arcade"@.len() != "mastersystem"@.len());
    assert(t[7].0 != t[8].0);
    assert("arcade"@.len() != "gamegear"@.len());
    assert(t[7].0 != t[9].0);
    assert("arcade"@.len() != "pcengine"@.len());
    assert(t[7].0 != t[10].0);
    assert("arcade"@.len() != "atari2600"@.len());
    assert(t[7].0 != t[11].0);
    assert("arcade"@.len() != "nds"@.len());
    assert(t[7].0 != t[12].0);
    assert("arcade"@.len() != "psp"@.len());
    assert(t[7].0 != t[13].0);
    assert("arcade"@[0] != "saturn"@[0]);
    assert(t[7].0 != t[14].0);
    assert("arcade"@.len() != "dreamcast"@.len());
    assert(t[7].0 != t[15].0);
    assert("mastersystem"@.len() != "gamegear"@.len());
    assert(t[8].0 != t[9].0);
    assert("mastersystem"@.len() != "pcengine"@.len());
    assert(t[8].0 != t[10].0);
    assert("mastersystem"@.len() != "atari2600"@.len());
    assert(t[8].0 != t[11].0);
    assert("mastersystem"@.len() != "nds"@.len());
    assert(t[8].0 != t[12].0);
    assert("mastersystem"@.len() != "psp"@.len());
    assert(t[8].0 != t[13].0);
    assert("mastersystem"@.len() != "saturn"@.len());
    assert(t[8].0 != t[14].0);
    assert("mastersystem"@.len() != "dreamcast"@.len());
    assert(t[8].0 != t[15].0);
    assert("gamegear"@[0] != "pcengine"@[0]);
    assert(t[9].0 != t[10].0);
    assert("gamegear"@.len() != "atari2600"@.len());
    assert(t[9].0 != t[11].0);
    assert("gamegear"@.len() != "nds"@.len());
    assert(t[9].0 != t[12].0);
    assert("gamegear"@.len() != "psp"@.len());
    assert(t[9].0 != t[13].0);
    assert("gamegear"@.len() != "saturn"@.len());
    assert(t[9].0 != t[14].0);
    assert("gamegear"@.len() != "dreamcast"@.len());
    assert(t[9].0 != t[15].0);
    assert("pcengine"@.len() != "atari2600"@.len());
    assert(t[10].0 != t[11].0);
    assert("pcengine"@.len() != "nds"@.len());
    assert(t[10].0 != t[12].0);
    assert("pcengine"@.len() != "psp"@.len());
    assert(t[10].0 != t[13].0);
    assert("pcengine"@.len() != "saturn"@.len());
    assert(t[10].0 != t[14].0);
    assert("pcengine"@.len() != "dreamcast"@.len());
    assert(t[10].0 != t[15].0);
    assert("atari2600"@.len() != "nds"@.len());
    assert(t[11].0 != t[12].0);
    assert("atari2600"@.len() != "psp"@.len());
    assert(t[11].0 != t[13].0);
    assert("atari2600"@.len() != "saturn"@.len());
    assert(t[11].0 != t[14].0);
    assert("atari2600"@[0] != "dreamcast"@[0]);
    assert(t[11].0 != t[15].0);
    assert("nds"@[0] != "psp"@[0]);
    assert(t[12].0 != t[13].0);
    assert("nds"@.len() != "saturn"@.len());
    assert(t[12].0 != t[14].0);
    assert("nds"@.len() != "dreamcast"@.len());
    assert(t[12].0 != t[15].0);
    assert("psp"@.len() != "saturn"@.len());
    assert(t[13].0 != t[14].0);
    assert("psp"@.len() != "dreamcast"@.len());
    assert(t[13].0 != t[15].0);
    assert("saturn"@.len() != "dreamcast"@.len());
    assert(t[14].0 != t[15].0);
    assert forall|i: int, j: int| 0 <= i < j < t.len() implies (#[trigger] t[i]).0 != (#[trigger] t[j]).0 by {
        if i == 0 && j == 1 {} else if i == 0 && j == 2 {} else if i == 0 && j == 3 {} else if i == 0 && j == 4 {} else if i == 0 && j == 5 {} else if i == 0 && j == 6 {} else if i == 0 && j == 7 {} else if i == 0 && j == 8 {} else if i == 0 && j == 9 {} else if i == 0 && j == 10 {} else if i == 0 && j == 11 {} else if i == 0 && j == 12 {} else if i == 0 && j == 13 {} else if i == 0 && j == 14 {} else if i == 0 && j == 15 {} else if i == 1 && j == 2 {} else if i == 1 && j == 3 {} else if i == 1 && j == 4 {} else if i == 1 && j == 5 {} else if i == 1 && j == 6 {} else if i == 1 && j == 7 {} else if i == 1 && j == 8 {} else if i == 1 && j == 9 {} else if i == 1 && j == 10 {} else if i == 1 && j == 11 {} else if i == 1 && j == 12 {} else if i == 1 && j == 13 {} else if i == 1 && j == 14 {} else if i == 1 && j == 15 {} else if i == 2 && j == 3 {} else if i == 2 && j == 4 {} else if i == 2 && j == 5 {} else if i == 2 && j == 6 {} else if i == 2 && j == 7 {} else if i == 2 && j == 8 {} else if i == 2 && j == 9 {} else if i == 2 && j == 10 {} else if i == 2 && j == 11 {} else if i == 2 && j == 12 {} else if i == 2 && j == 13 {} else if i == 2 && j == 14 {} else if i == 2 && j == 15 {} else if i == 3 && j == 4 {} else if i == 3 && j == 5 {} else if i == 3 && j == 6 {} else if i == 3 && j == 7 {} else if i == 3 && j == 8 {} else if i == 3 && j == 9 {} else if i == 3 && j == 10 {} else if i == 3 && j == 11 {} else if i == 3 && j == 12 {} else if i == 3 && j == 13 {} else if i == 3 && j == 14 {} else if i == 3 && j == 15 {} else if i == 4 && j == 5 {} else if i == 4 && j == 6 {} else if i == 4 && j == 7 {} else if i == 4 && j == 8 {} else if i == 4 && j == 9 {} else if i == 4 && j == 10 {} else if i == 4 && j == 11 {} else if i == 4 && j == 12 {} else if i == 4 && j == 13 {} else if i == 4 && j == 14 {} else if i == 4 && j == 15 {} else if i == 5 && j == 6 {} else if i == 5 && j == 7 {} else if i == 5 && j == 8 {} else if i == 5 && j == 9 {} else if i == 5 && j == 10 {} else if i == 5 && j == 11 {} else if i == 5 && j == 12 {} else if i == 5 && j == 13 {} else if i == 5 && j == 14 {} else if i == 5 && j == 15 {} else if i == 6 && j == 7 {} else if i == 6 && j == 8 {} else if i == 6 && j == 9 {} else if i == 6 && j == 10 {} else if i == 6 && j == 11 {} else if i == 6 && j == 12 {} else if i == 6 && j == 13 {} else if i == 6 && j == 14 {} else if i == 6 && j == 15 {} else if i == 7 && j == 8 {} else if i == 7 && j == 9 {} else if i == 7 && j == 10 {} else if i == 7 && j == 11 {} else if i == 7 && j == 12 {} else if i == 7 && j == 13 {} else if i == 7 && j == 14 {} else if i == 7 && j == 15 {} else if i == 8 && j == 9 {} else if i == 8 && j == 10 {} else if i == 8 && j == 11 {} else if i == 8 && j == 12 {} else if i == 8 && j == 13 {} else if i == 8 && j == 14 {} else if i == 8 && j == 15 {} else if i == 9 && j == 10 {} else if i == 9 && j == 11 {} else if i == 9 && j == 12 {} else if i == 9 && j == 13 {} else if i == 9 && j == 14 {} else if i == 9 && j == 15 {} else if i == 10 && j == 11 {} else if i == 10 && j == 12 {} else if i == 10 && j == 13 {} else if i == 10 && j == 14 {} else if i == 10 && j == 15 {} else if i == 11 && j == 12 {} else if i == 11 && j == 13 {} else if i == 11 && j == 14 {} else if i == 11 && j == 15 {} else if i == 12 && j == 13 {} else if i == 12 && j == 14 {} else if i == 12 && j == 15 {} else if i == 13 && j == 14 {} else if i == 13 && j == 15 {} else if i == 14 && j == 15 {}
    }
    assert forall|i: int, k: int| 0 <= i < t.len() && 0 <= k < t[i].3.len() implies stored_extension(#[trigger] t[i].3[k]) by {
        if i == 0 {
            assert(stored_extension(t[0].3[0]));
            assert(stored_extension(t[0].3[1]));
            assert(stored_extension(t[0].3[2]));
            assert(stored_extension(t[0].3[3]));
            assert(stored_extension(t[0].3[4]));
        }
        if i == 1 {
            assert(stored_extension(t[1].3[0]));
            assert(stored_extension(t[1].3[1]));
            assert(stored_extension(t[1].3[2]));
            assert(stored_extension(t[1].3[3]));
            assert(stored_extension(t[1].3[4]));
            assert(stored_extension(t[1].3[5]));
            assert(stored_extension(t[1].3[6]));
        }
        if i == 2 {
            assert(stored_extension(t[2].3[0]));
            assert(stored_extension(t[2].3[1]));
            assert(stored_extension(t[2].3[2]));
        }
        if i == 3 {
            assert(stored_extension(t[3].3[0]));
            assert(stored_extension(t[3].3[1]));
            assert(stored_extension(t[3].3[2]));
        }
        if i == 4 {
            assert(stored_extension(t[4].3[0]));
            assert(stored_extension(t[4].3[1]));
            assert(stored_extension(t[4].3[2]));
            assert(stored_extension(t[4].3[3]));
            assert(stored_extension(t[4].3[4]));
            assert(stored_extension(t[4].3[5]));
        }
        if i == 5 {
            assert(stored_extension(t[5].3[0]));
            assert(stored_extension(t[5].3[1]));
            assert(stored_extension(t[5].3[2]));
            assert(stored_extension(t[5].3[3]));
            assert(stored_extension(t[5].3[4]));
            assert(stored_extension(t[5].3[5]));
        }
        if i == 6 {
            assert(stored_extension(t[6].3[0]));
            assert(stored_extension(t[6].3[1]));
            assert(stored_extension(t[6].3[2]));
            assert(stored_extension(t[6].3[3]));
            assert(stored_extension(t[6].3[4]));
        }
        if i == 7 {
            assert(stored_extension(t[7].3[0]));
            assert(stored_extension(t[7].3[1]));
            assert(stored_extension(t[7].3[2]));
        }
        if i == 8 {
            assert(stored_extension(t[8].3[0]));
            assert(stored_extension(t[8].3[1]));
            assert(stored_extension(t[8].3[2]));
        }
        if i == 9 {
            assert(stored_extension(t[9].3[0]));
            assert(stored_extension(t[9].3[1]));
            assert(stored_extension(t[9].3[2]));
        }
        if i == 10 {
            assert(stored_extension(t[10].3[0]));
            assert(stored_extension(t[10].3[1]));
            assert(stored_extension(t[10].3[2]));
            assert(stored_extension(t[10].3[3]));
            assert(stored_extension(t[10].3[4]));
        }
        if i == 11 {
            assert(stored_extension(t[11].3[0]));
            assert(stored_extension(t[11].3[1]));
            assert(stored_extension(t[11].3[2]));
            assert(stored_extension(t[11].3[3]));
        }
        if i == 12 {
            assert(stored_extension(t[12].3[0]));
            assert(stored_extension(t[12].3[1]));
            assert(stored_extension(t[12].3[2]));
        }
        if i == 13 {
            assert(stored_extension(t[13].3[0]));
            assert(stored_extension(t[13].3[1]));
            assert(stored_extension(t[13].3[2]));
            assert(stored_extension(t[13].3[3]));
        }
        if i == 14 {
            assert(stored_extension(t[14].3[0]));
            assert(stored_extension(t[14].3[1]));
            assert(stored_extension(t[14].3[2]));
        }
        if i == 15 {
            assert(stored_extension(t[15].3[0]));
            assert(stored_extension(t[15].3[1]));
            assert(stored_extension(t[15].3[2]));
            assert(stored_extension(t[15].3[3]));
        }
    }
}

fn strings(v: &[&str]) -> (r: Vec<String>)
    ensures
        strings_view(r@) == v@.map_values(|s: &str| s@),
{
    let mut out: Vec<String> = Vec::new();
    let mut i: usize = 0;
    while i < v.len()
        invariant
            i <= v@.len(),
            strings_view(out@) == v@.take(i as int).map_values(|s: &str| s@),
        decreases v.len() - i,
    {
        let ghost prev = out@;
        out.push(string_of(&chars_of(v[i])));
        proof {
            assert(strings_view(out@) =~= strings_view(prev).push(v@[i as int]@));
            assert(v@.take(i + 1).map_values(|s: &str| s@) =~= v@.take(i as int).map_values(
                |s: &str| s@,
            ).push(v@[i as int]@));
        }
        i += 1;
    }
    proof {
        assert(v@.take(v@.len() as int) =~= v@);
    }
    out
}

fn def(slug: &str, name: &str, sort_order: i64, exts: &[&str], ra: Option<u32>, core: &str) -> (d: SystemDef)
    ensures
        def_matches(d, (slug@, name@, sort_order, exts@.map_values(|s: &str| s@), ra, core@)),
{
    SystemDef {
        slug: string_of(&chars_of(slug)),
        name: string_of(&chars_of(name)),
        sort_order,
        extensions: strings(exts),
        ra_console_id: ra,
        default_core: Some(string_of(&chars_of(core))),
        theme_key: Some(string_of(&chars_of(slug))),
    }
}

/// Every built-in platform definition, in display order: the rows of
/// [`builtin_table`], each with its slug as theme key.
pub fn builtin_systems() -> (r: Result<Vec<SystemDef>, SystemDefError>)
    ensures
        r matches Ok(v) && v@.len() == builtin_table().len() && sorted_defs(v@) && (forall|i: int|
            0 <= i < v@.len() ==> def_matches(#[trigger] v@[i], builtin_table()[i])),
{
    let mut defs: Vec<SystemDef> = Vec::new();
    let mut e0: Vec<&str> = Vec::new();
    e0.push("nes");
    e0.push("unf");
    e0.push("fds");
    e0.push("zip");
    e0.push("7z");
    defs.push(def("nes", "Nintendo Entertainment System", 10, e0.as_slice(), Some(7), "fceumm"));
    let mut e1: Vec<&str> = Vec::new();
    e1.push("sfc");
    e1.push("smc");
    e1.push("fig");
    e1.push("swc");
    e1.push("bs");
    e1.push("zip");
    e1.push("7z");
    defs.push(def("snes", "Super Nintendo", 20, e1.as_slice(), Some(3), "snes9x"));
    let mut e2: Vec<&str> = Vec::new();
    e2.push("gb");
    e2.push("zip");
    e2.push("7z");
    defs.push(def("gb", "Game Boy", 30, e2.as_slice(), Some(4), "gambatte"));
    let mut e3: Vec<&str> = Vec::new();
    e3.push("gba");
    e3.push("zip");
    e3.push("7z");
    defs.push(def("gba", "Game Boy Advance", 40, e3.as_slice(), Some(5), "mgba"));
    let mut e4: Vec<&str> = Vec::new();
    e4.push("md");
    e4.push("gen");
    e4.push("smd");
    e4.push("bin");
    e4.push("zip");
    e4.push("7z");
    defs.push(def("megadrive", "Sega Mega Drive", 50, e4.as_slice(), Some(1), "genesis_plus_gx"));
    let mut e5: Vec<&str> = Vec::new();
    e5.push("cue");
    e5.push("bin");
    e5.push("chd");
    e5.push("iso");
    e5.push("pbp");
    e5.push("m3u");
    defs.push(def("psx", "PlayStation", 60, e5.as_slice(), Some(12), "pcsx_rearmed"));
    let mut e6: Vec<&str> = Vec::new();
    e6.push("n64");
    e6.push("z64");
    e6.push("v64");
    e6.push("zip");
    e6.push("7z");
    defs.push(def("n64", "Nintendo 64", 70, e6.as_slice(), Some(2), "mupen64plus_next"));
    let mut e7: Vec<&str> = Vec::new();
    e7.push("zip");
    e7.push("7z");
    e7.push("chd");
    defs.push(def("arcade", "Arcade", 80, e7.as_slice(), Some(27), "fbneo"));
    let mut e8: Vec<&str> = Vec::new();
    e8.push("sms");
    e8.push("zip");
    e8.push("7z");
    defs.push(def("mastersystem", "Sega Master System", 90, e8.as_slice(), Some(11), "genesis_plus_gx"));
    let mut e9: Vec<&str> = Vec::new();
    e9.push("gg");
    e9.push("zip");
    e9.push("7z");
    defs.push(def("gamegear", "Sega Game Gear", 100, e9.as_slice(), Some(15), "genesis_plus_gx"));
    let mut e10: Vec<&str> = Vec::new();
    e10.push("pce");
    e10.push("cue");
    e10.push("chd");
    e10.push("zip");
    e10.push("7z");
    defs.push(def("pcengine", "PC Engine", 110, e10.as_slice(), Some(8), "mednafen_pce_fast"));
    let mut e11: Vec<&str> = Vec::new();
    e11.push("a26");
    e11.push("bin");
    e11.push("zip");
    e11.push("7z");
    defs.push(def("atari2600", "Atari 2600", 120, e11.as_slice(), Some(25), "stella"));
    let mut e12: Vec<&str> = Vec::new();
    e12.push("nds");
    e12.push("zip");
    e12.push("7z");
    defs.push(def("nds", "Nintendo DS", 130, e12.as_slice(), Some(18), "melonds"));
    let mut e13: Vec<&str> = Vec::new();
    e13.push("iso");
    e13.push("cso");
    e13.push("pbp");
    e13.push("chd");
    defs.push(def("psp", "PlayStation Portable", 140, e13.as_slice(), Some(41), "ppsspp"));
    let mut e14: Vec<&str> = Vec::new();
    e14.push("cue");
    e14.push("chd");
    e14.push("m3u");
    defs.push(def("saturn", "Sega Saturn", 150, e14.as_slice(), Some(39), "mednafen_saturn"));
    let mut e15: Vec<&str> = Vec::new();
    e15.push("cdi");
    e15.push("gdi");
    e15.push("chd");
    e15.push("m3u");
    defs.push(def("dreamcast", "Sega Dreamcast", 160, e15.as_slice(), Some(40), "flycast"));
    proof {
        let t = builtin_table();
        assert(e0@.map_values(|s: &str| s@) =~= seq!["nes"@, "unf"@, "fds"@, "zip"@, "7z"@]);
        assert(def_matches(defs@[0], t[0]));
        assert(defs@[0].sort_order == 10);
        assert(e1@.map_values(|s: &str| s@) =~= seq!["sfc"@, "smc"@, "fig"@, "swc"@, "bs"@, "zip"@, "7z"@]);
        assert(def_matches(defs@[1], t[1]));
        assert(defs@[1].sort_order == 20);
        assert(e2@.map_values(|s: &str| s@) =~= seq!["gb"@, "zip"@, "7z"@]);
        assert(def_matches(defs@[2], t[2]));
        assert(defs@[2].sort_order == 30);
        assert(e3@.map_values(|s: &str| s@) =~= seq!["gba"@, "zip"@, "7z"@]);
        assert(def_matches(defs@[3], t[3]));
        assert(defs@[3].sort_order == 40);
        assert(e4@.map_values(|s: &str| s@) =~= seq!["md"@, "gen"@, "smd"@, "bin"@, "zip"@, "7z"@]);
        assert(def_matches(defs@[4], t[4]));
        assert(defs@[4].sort_order == 50);
        assert(e5@.map_values(|s: &str| s@) =~= seq!["cue"@, "bin"@, "chd"@, "iso"@, "pbp"@, "m3u"@]);
        assert(def_matches(defs@[5], t[5]));
        assert(defs@[5].sort_order == 60);
        assert(e6@.map_values(|s: &str| s@) =~= seq!["n64"@, "z64"@, "v64"@, "zip"@, "7z"@]);
        assert(def_matches(defs@[6], t[6]));
        assert(defs@[6].sort_order == 70);
        assert(e7@.map_values(|s: &str| s@) =~= seq!["zip"@, "7z"@, "chd"@]);
        assert(def_matches(defs@[7], t[7]));
        assert(defs@[7].sort_order == 80);
        assert(e8@.map_values(|s: &str| s@) =~= seq!["sms"@, "zip"@, "7z"@]);
        assert(def_matches(defs@[8], t[8]));
        assert(defs@[8].sort_order == 90);
        assert(e9@.map_values(|s: &str| s@) =~= seq!["gg"@, "zip"@, "7z"@]);
        assert(def_matches(defs@[9], t[9]));
        assert(defs@[9].sort_order == 100);
        assert(e10@.map_values(|s: &str| s@) =~= seq!["pce"@, "cue"@, "chd"@, "zip"@, "7z"@]);
        assert(def_matches(defs@[10], t[10]));
        assert(defs@[10].sort_order == 110);
        assert(e11@.map_values(|s: &str| s@) =~= seq!["a26"@, "bin"@, "zip"@, "7z"@]);
        assert(def_matches(defs@[11], t[11]));
        assert(defs@[11].sort_order == 120);
        assert(e12@.map_values(|s: &str| s@) =~= seq!["nds"@, "zip"@, "7z"@]);
        assert(def_matches(defs@[12], t[12]));
        assert(defs@[12].sort_order == 130);
        assert(e13@.map_values(|s: &str| s@) =~= seq!["iso"@, "cso"@, "pbp"@, "chd"@]);
        assert(def_matches(defs@[13], t[13]));
        assert(defs@[13].sort_order == 140);
        assert(e14@.map_values(|s: &str| s@) =~= seq!["cue"@, "chd"@, "m3u"@]);
        assert(def_matches(defs@[14], t[14]));
        assert(defs@[14].sort_order == 150);
        assert(e15@.map_values(|s: &str| s@) =~= seq!["cdi"@, "gdi"@, "chd"@, "m3u"@]);
        assert(def_matches(defs@[15], t[15]));
        assert(defs@[15].sort_order == 160);
        assert forall|i: int| 0 <= i < defs@.len() implies def_matches(#[trigger] defs@[i], t[i]) by {
            if i == 0 {} else if i == 1 {} else if i == 2 {} else if i == 3 {} else if i == 4 {} else if i == 5 {} else if i == 6 {} else if i == 7 {} else if i == 8 {} else if i == 9 {} else if i == 10 {} else if i == 11 {} else if i == 12 {} else if i == 13 {} else if i == 14 {} else if i == 15 {}
        }
        assert forall|i: int| 0 <= i < defs@.len() implies (#[trigger] defs@[i]).sort_order == 10 * (i + 1) by {
            if i == 0 {} else if i == 1 {} else if i == 2 {} else if i == 3 {} else if i == 4 {} else if i == 5 {} else if i == 6 {} else if i == 7 {} else if i == 8 {} else if i == 9 {} else if i == 10 {} else if i == 11 {} else if i == 12 {} else if i == 13 {} else if i == 14 {} else if i == 15 {}
        }
        assert(sorted_defs(defs@));
    }
    Ok(defs)
}

} // verus!
