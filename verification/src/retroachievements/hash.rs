//! Reading the digest the RetroAchievements hashing engine writes: a
//! NUL-terminated buffer of at most 32 hex characters.

use vstd::prelude::*;

use crate::text::opt_view;

verus! {

/// The bytes of `buf` before its first NUL (all of them when it has none).
pub open spec fn before_nul(buf: Seq<u8>) -> Seq<u8>
    decreases buf.len(),
{
    if buf.len() == 0 || buf[0] == 0 {
        Seq::empty()
    } else {
        seq![buf[0]] + before_nul(buf.drop_first())
    }
}

/// The text that `bytes` encode in UTF-8, when they are valid UTF-8.
pub uninterp spec fn utf8_decoding(bytes: Seq<u8>) -> Option<Seq<char>>;

/// Whether every byte is ASCII.
pub open spec fn all_ascii(bytes: Seq<u8>) -> bool {
    forall|i: int| 0 <= i < bytes.len() ==> #[trigger] bytes[i] < 0x80
}

/// `String::from_utf8(bytes).ok()`: the decoded text when `bytes` are
/// valid UTF-8. ASCII bytes decode one character each, of the same code.
#[verifier::external_body]
fn decode_utf8(bytes: Vec<u8>) -> (r: Option<String>)
    ensures
        opt_view(r) == utf8_decoding(bytes@),
        all_ascii(bytes@) ==> opt_view(r) == Some(bytes@.map_values(|b: u8| b as char)),
{
    String::from_utf8(bytes).ok()
}

/// The digest in the engine's output buffer: `None` when the engine
/// reported failure (`ok == 0`), else the text before the first NUL, when
/// it is valid UTF-8.
pub fn read_hash(ok: i32, out: &[u8]) -> (r: Option<String>)
    ensures
        ok == 0 ==> r is None,
        ok != 0 ==> opt_view(r) == utf8_decoding(before_nul(out@)),
        ok != 0 && all_ascii(before_nul(out@)) ==> opt_view(r) == Some(
            before_nul(out@).map_values(|b: u8| b as char),
        ),
{
    if ok == 0 {
        return None;
    }
    let mut bytes: Vec<u8> = Vec::new();
    let mut i: usize = 0;
    proof {
        assert(out@.skip(0) =~= out@);
        assert(before_nul(out@) =~= bytes@ + before_nul(out@.skip(0)));
    }
    while i < out.len() && out[i] != 0
        invariant
            i <= out@.len(),
            before_nul(out@) == bytes@ + before_nul(out@.skip(i as int)),
        decreases out.len() - i,
    {
        proof {
            let rest = out@.skip(i as int);
            assert(rest.drop_first() =~= out@.skip(i + 1));
            assert(before_nul(rest) == seq![out@[i as int]] + before_nul(out@.skip(i + 1)));
        }
        let ghost prev = bytes@;
        bytes.push(out[i]);
        proof {
            assert(bytes@ + before_nul(out@.skip(i + 1)) =~= prev + (seq![out@[i as int]] + before_nul(
                out@.skip(i + 1),
            )));
        }
        i += 1;
    }
    proof {
        let rest = out@.skip(i as int);
        assert(before_nul(rest) =~= Seq::<u8>::empty());
        assert(bytes@ =~= before_nul(out@));
    }
    decode_utf8(bytes)
}

} // verus!
