//! Zip archives in a library: which systems' zips are opened, and which
//! entries of an opened zip are games.
//!
//! Only zips are ever opened; `.7z` and `.chd` files are indexed as one
//! opaque game each. Reading a zip's central directory is the
//! application's part; it hands the entry names here.

use vstd::prelude::*;

use crate::scan::{contains_chars_in, lower_extension, lower_extension_exec};
use crate::text::{chars_eq_str, chars_of, string_of, strings_view};

verus! {

/// Archive and disc-image container extensions.
pub open spec fn is_container(e: Seq<char>) -> bool {
    e == "zip"@ || e == "7z"@ || e == "chd"@
}

fn is_container_exec(e: &str) -> (b: bool)
    ensures
        b == is_container(e@),
{
    let c = chars_of(e);
    chars_eq_str(c.as_slice(), "zip") || chars_eq_str(c.as_slice(), "7z") || chars_eq_str(
        c.as_slice(),
        "chd",
    )
}

/// Whether a system's zips are opened for inner ROM entries: `zip` is one
/// of its extensions and so is something that is not a container. For a
/// system of containers only (arcade) the zip itself is the game.
pub open spec fn should_enumerate_spec(exts: Seq<Seq<char>>) -> bool {
    &&& exts.contains("zip"@)
    &&& exists|i: int| 0 <= i < exts.len() && !is_container(#[trigger] exts[i])
}

pub fn should_enumerate(extensions: &[String]) -> (b: bool)
    ensures
        b == should_enumerate_spec(strings_view(extensions@)),
{
    let zip = chars_of("zip");
    let has_zip = contains_chars_in(extensions, zip.as_slice());
    let mut i: usize = 0;
    while i < extensions.len()
        invariant
            i <= extensions@.len(),
            has_zip == strings_view(extensions@).contains("zip"@),
            forall|k: int| 0 <= k < i ==> is_container(#[trigger] strings_view(extensions@)[k]),
        decreases extensions.len() - i,
    {
        if !is_container_exec(extensions[i].as_str()) {
            proof {
                assert(!is_container(strings_view(extensions@)[i as int]));
                assert(exists|j: int|
                    0 <= j < strings_view(extensions@).len() && !is_container(
                        #[trigger] strings_view(extensions@)[j],
                    ));
            }
            return has_zip;
        }
        i += 1;
    }
    false
}

/// The extensions of `exts` that are not containers, in order.
pub open spec fn rom_extensions_spec(exts: Seq<Seq<char>>) -> Seq<Seq<char>>
    decreases exts.len(),
{
    if exts.len() == 0 {
        Seq::empty()
    } else {
        rom_extensions_spec(exts.drop_last()) + if is_container(exts.last()) {
            Seq::empty()
        } else {
            seq![exts.last()]
        }
    }
}

/// A system's real ROM extensions: its list without `zip`, `7z`, `chd`.
pub fn rom_extensions(extensions: &[String]) -> (r: Vec<String>)
    ensures
        strings_view(r@) == rom_extensions_spec(strings_view(extensions@)),
{
    let mut r: Vec<String> = Vec::new();
    let mut i: usize = 0;
    while i < extensions.len()
        invariant
            i <= extensions@.len(),
            strings_view(r@) == rom_extensions_spec(strings_view(extensions@).take(i as int)),
        decreases extensions.len() - i,
    {
        let ghost prev = r@;
        proof {
            let t = strings_view(extensions@).take(i + 1);
            assert(t.drop_last() =~= strings_view(extensions@).take(i as int));
            assert(t.last() == extensions@[i as int]@);
        }
        if !is_container_exec(extensions[i].as_str()) {
            r.push(string_of(&chars_of(extensions[i].as_str())));
            proof {
                assert(strings_view(r@) =~= strings_view(prev).push(extensions@[i as int]@));
            }
        } else {
            proof {
                assert(strings_view(prev) + Seq::<Seq<char>>::empty() =~= strings_view(prev));
            }
        }
        i += 1;
    }
    proof {
        assert(strings_view(extensions@).take(extensions@.len() as int) =~= strings_view(
            extensions@,
        ));
    }
    r
}

/// One entry of a zip's central directory.
pub struct ZipEntry {
    pub name: String,
    pub is_dir: bool,
}

/// The names of the entries that are ROMs: not directories, and with a
/// lowercase extension among `allowed`.
pub open spec fn rom_entries_spec(entries: Seq<ZipEntry>, allowed: Seq<Seq<char>>) -> Seq<Seq<char>>
    decreases entries.len(),
{
    if entries.len() == 0 {
        Seq::empty()
    } else {
        let e = entries.last();
        rom_entries_spec(entries.drop_last(), allowed) + if !e.is_dir && allowed.contains(
            lower_extension(e.name@),
        ) {
            seq![e.name@]
        } else {
            Seq::empty()
        }
    }
}

/// The ROM entries of a zip, in directory order. `allowed` should be a
/// system's [`rom_extensions`].
pub fn select_rom_entries(entries: &[ZipEntry], allowed: &[String]) -> (r: Vec<String>)
    ensures
        strings_view(r@) == rom_entries_spec(entries@, strings_view(allowed@)),
{
    let mut r: Vec<String> = Vec::new();
    let mut i: usize = 0;
    while i < entries.len()
        invariant
            i <= entries@.len(),
            strings_view(r@) == rom_entries_spec(entries@.take(i as int), strings_view(allowed@)),
        decreases entries.len() - i,
    {
        let ghost prev = r@;
        proof {
            let t = entries@.take(i + 1);
            assert(t.drop_last() =~= entries@.take(i as int));
        }
        let keep = !entries[i].is_dir && {
            let ext = lower_extension_exec(entries[i].name.as_str());
            contains_chars_in(allowed, ext.as_slice())
        };
        if keep {
            r.push(string_of(&chars_of(entries[i].name.as_str())));
            proof {
                assert(strings_view(r@) =~= strings_view(prev).push(entries@[i as int].name@));
            }
        } else {
            proof {
                assert(strings_view(prev) + Seq::<Seq<char>>::empty() =~= strings_view(prev));
            }
        }
        i += 1;
    }
    proof {
        assert(entries@.take(entries@.len() as int) =~= entries@);
    }
    r
}

} // verus!
