//! Content hashing: CRC32 and MD5 of a file, filled in lazily after a
//! scan (a scan itself only records the cheap quick key).
//!
//! The application reads a file and hands its bytes to [`hash_bytes`];
//! [`Crc32Hasher`] also takes them chunk by chunk. The checksums are
//! written as lowercase hex, 8 digits for the CRC32 and two per MD5 digest
//! byte.

use vstd::prelude::*;

use crate::text::string_of;

verus! {

/// Counts of one lazy hashing run.
#[derive(Debug, Clone, Copy, Default, PartialEq, Eq)]
pub struct HashStats {
    pub hashed: u64,
    /// Reserved for a size-cap policy; always 0.
    pub skipped: u64,
    pub failed: u64,
}

/// The CRC32 state reached from state `prev` after `data`.
pub uninterp spec fn crc32_extend(prev: u32, data: Seq<u8>) -> u32;

/// `crc32fast::Hasher::new_with_initial(prev)` fed `data`, then
/// `finalize`: the CRC32 state after `data` starting from `prev`; it
/// depends on `prev` and `data` alone. The state is a running fold over
/// the bytes (`Hasher::update` steps it byte by byte from `prev`), so
/// continuing from the result is continuing from `prev` over `data`
/// followed by the new bytes, and continuing over no bytes keeps it.
#[verifier::external_body]
fn crc32_continue(prev: u32, data: &[u8]) -> (r: u32)
    ensures
        r == crc32_extend(prev, data@),
        crc32_extend(r, Seq::empty()) == r,
        forall|more: Seq<u8>| #[trigger] crc32_extend(r, more) == crc32_extend(prev, data@ + more),
{
    let mut h = crc32fast::Hasher::new_with_initial(prev);
    h.update(data);
    h.finalize()
}

/// The bytes of the chunks, in order.
pub open spec fn concat(chunks: Seq<Seq<u8>>) -> Seq<u8>
    decreases chunks.len(),
{
    if chunks.len() == 0 {
        Seq::empty()
    } else {
        concat(chunks.drop_last()) + chunks.last()
    }
}

/// The CRC32 of some bytes.
pub open spec fn crc32_of(data: Seq<u8>) -> u32 {
    crc32_extend(0, data)
}

/// The lowercase hex digit of `d` (`0..16`).
pub open spec fn hex_digit(d: int) -> char {
    if d < 10 {
        (48 + d) as char
    } else {
        (87 + d) as char
    }
}

/// `v` in lowercase hex, zero-padded to `width` digits (`{:0width$x}`
/// when `v < 16^width`).
pub open spec fn hex_fixed(v: nat, width: nat) -> Seq<char>
    decreases width,
{
    if width == 0 {
        Seq::empty()
    } else {
        hex_fixed(v / 16, (width - 1) as nat).push(hex_digit((v % 16) as int))
    }
}

/// Bytes in lowercase hex, two digits each (`{:x}` on a digest).
pub open spec fn bytes_hex(bs: Seq<u8>) -> Seq<char>
    decreases bs.len(),
{
    if bs.len() == 0 {
        Seq::empty()
    } else {
        bytes_hex(bs.drop_last()) + seq![
            hex_digit((bs.last() / 16) as int),
            hex_digit((bs.last() % 16) as int),
        ]
    }
}

fn hex_digit_exec(d: u32) -> (c: char)
    requires
        d < 16,
    ensures
        c == hex_digit(d as int),
{
    if d < 10 {
        ((d as u8) + 48u8) as char
    } else {
        ((d as u8) + 87u8) as char
    }
}

/// Appends `v` as `width` lowercase hex digits.
fn push_hex_fixed(out: &mut Vec<char>, v: u32, width: u32)
    ensures
        final(out)@ == old(out)@ + hex_fixed(v as nat, width as nat),
    decreases width,
{
    if width > 0 {
        push_hex_fixed(out, v / 16, width - 1);
        out.push(hex_digit_exec(v % 16));
        proof {
            assert(out@ =~= old(out)@ + hex_fixed(v as nat, width as nat));
        }
    } else {
        proof {
            assert(out@ =~= old(out)@ + hex_fixed(v as nat, width as nat));
        }
    }
}

/// `format!("{:08x}", v)`.
pub fn hex8(v: u32) -> (r: String)
    ensures
        r@ == hex_fixed(v as nat, 8),
{
    let mut out: Vec<char> = Vec::new();
    push_hex_fixed(&mut out, v, 8);
    proof {
        assert(out@ =~= hex_fixed(v as nat, 8));
    }
    string_of(&out)
}

/// Bytes as lowercase hex.
pub fn bytes_to_hex(bs: &[u8]) -> (r: String)
    ensures
        r@ == bytes_hex(bs@),
        r@.len() == 2 * bs@.len(),
{
    let mut out: Vec<char> = Vec::new();
    let mut i: usize = 0;
    while i < bs.len()
        invariant
            i <= bs@.len(),
            out@ == bytes_hex(bs@.take(i as int)),
            out@.len() == 2 * i,
        decreases bs.len() - i,
    {
        let b = bs[i];
        out.push(hex_digit_exec((b / 16) as u32));
        out.push(hex_digit_exec((b % 16) as u32));
        proof {
            assert(bs@.take(i + 1).drop_last() =~= bs@.take(i as int));
            assert(out@ =~= bytes_hex(bs@.take(i + 1)));
        }
        i += 1;
    }
    proof {
        assert(bs@.take(bs@.len() as int) =~= bs@);
    }
    string_of(&out)
}

/// A streaming CRC32 computation over the chunks of one file.
pub struct Crc32Hasher {
    crc: u32,
    chunks: Ghost<Seq<Seq<u8>>>,
}

impl Crc32Hasher {
    /// The chunks fed so far.
    pub closed spec fn fed(&self) -> Seq<Seq<u8>> {
        self.chunks@
    }

    /// The state is the CRC32 of the bytes fed so far, and continuing
    /// from it is continuing from the start over those bytes.
    pub closed spec fn inv(&self) -> bool {
        &&& self.crc == crc32_of(concat(self.chunks@))
        &&& forall|more: Seq<u8>| #[trigger] crc32_extend(self.crc, more) == crc32_extend(
            0,
            concat(self.chunks@) + more,
        )
    }

    pub fn new() -> (h: Crc32Hasher)
        ensures
            h.inv(),
            h.fed() == Seq::<Seq<u8>>::empty(),
    {
        let zero = crc32_continue(0, &[]);
        let h = Crc32Hasher { crc: zero, chunks: Ghost(Seq::empty()) };
        proof {
            assert forall|more: Seq<u8>| #[trigger] crc32_extend(h.crc, more) == crc32_extend(
                0,
                concat(h.chunks@) + more,
            ) by {
                assert(Seq::<u8>::empty() + more =~= more);
                assert(concat(h.chunks@) + more =~= more);
            }
            assert(crc32_extend(zero, Seq::empty()) == crc32_extend(0, Seq::<u8>::empty() + Seq::empty()));
            assert(Seq::<u8>::empty() + Seq::<u8>::empty() =~= Seq::<u8>::empty());
            assert(concat(h.chunks@) =~= Seq::<u8>::empty());
        }
        h
    }

    /// Feeds the next chunk of the file.
    pub fn update(&mut self, data: &[u8])
        requires
            old(self).inv(),
        ensures
            final(self).inv(),
            final(self).fed() == old(self).fed().push(data@),
    {
        let prev_crc = self.crc;
        let ghost before = concat(self.chunks@);
        self.crc = crc32_continue(self.crc, data);
        let ghost prev = self.chunks@;
        self.chunks = Ghost(prev.push(data@));
        proof {
            assert(self.chunks@.drop_last() =~= prev);
            assert(concat(self.chunks@) == before + data@);
            assert forall|more: Seq<u8>| #[trigger] crc32_extend(self.crc, more) == crc32_extend(
                0,
                concat(self.chunks@) + more,
            ) by {
                assert(crc32_extend(self.crc, more) == crc32_extend(prev_crc, data@ + more));
                assert(crc32_extend(prev_crc, data@ + more) == crc32_extend(0, before + (data@ + more)));
                assert(before + (data@ + more) =~= concat(self.chunks@) + more);
            }
            assert(self.crc == crc32_extend(self.crc, Seq::empty()));
            assert(concat(self.chunks@) + Seq::<u8>::empty() =~= concat(self.chunks@));
        }
    }

    /// The CRC32 of every byte fed, however it was split into chunks, as 8
    /// lowercase hex digits.
    pub fn finish(&self) -> (r: String)
        requires
            self.inv(),
        ensures
            r@ == hex_fixed(crc32_of(concat(self.fed())) as nat, 8),
    {
        hex8(self.crc)
    }
}

/// The MD5 digest of some bytes.
pub uninterp spec fn md5_of(data: Seq<u8>) -> Seq<u8>;

/// `md5::Md5::digest` (the `md-5` package): the 16-byte MD5 digest of
/// `data`, which depends on `data` alone.
#[verifier::external_body]
fn md5_digest(data: &[u8]) -> (r: [u8; 16])
    ensures
        r@ == md5_of(data@),
{
    <md5::Md5 as md5::Digest>::digest(data).into()
}

/// The MD5 of a file's bytes as 32 lowercase hex digits.
pub fn content_md5(data: &[u8]) -> (r: String)
    ensures
        r@ == bytes_hex(md5_of(data@)),
        r@.len() == 32,
{
    let d = md5_digest(data);
    assert(d@.len() == 16);
    bytes_to_hex(&d)
}

proof fn lemma_hex_fixed_len(v: nat, width: nat)
    ensures
        hex_fixed(v, width).len() == width,
    decreases width,
{
    if width > 0 {
        lemma_hex_fixed_len(v / 16, (width - 1) as nat);
    }
}

/// `(crc32, md5)` of a file's bytes, in lowercase hex (8 and 32 digits).
pub fn hash_bytes(data: &[u8]) -> (r: (String, String))
    ensures
        r.0@ == hex_fixed(crc32_of(data@) as nat, 8),
        r.1@ == bytes_hex(md5_of(data@)),
        r.0@.len() == 8,
        r.1@.len() == 32,
{
    proof {
        lemma_hex_fixed_len(crc32_of(data@) as nat, 8);
    }
    let mut crc = Crc32Hasher::new();
    crc.update(data);
    proof {
        assert(crc.fed() =~= seq![data@]);
        assert(concat(crc.fed()) =~= data@) by {
            assert(crc.fed().drop_last() =~= Seq::<Seq<u8>>::empty());
            assert(Seq::<u8>::empty() + data@ =~= data@);
        }
    }
    (crc.finish(), content_md5(data))
}

/// The counts of a hashing run from each candidate's outcome (`true` when
/// its file could be read and hashed).
pub fn tally(outcomes: &[bool]) -> (s: HashStats)
    ensures
        s.hashed + s.failed == outcomes@.len(),
        s.hashed == outcomes@.filter(|b: bool| b).len(),
        s.skipped == 0,
{
    let mut hashed: u64 = 0;
    let mut failed: u64 = 0;
    let mut i: usize = 0;
    while i < outcomes.len()
        invariant
            i <= outcomes@.len(),
            hashed + failed == i,
            hashed == outcomes@.take(i as int).filter(|b: bool| b).len(),
        decreases outcomes.len() - i,
    {
        proof {
            assert(outcomes@.take(i + 1).drop_last() =~= outcomes@.take(i as int));
            reveal_with_fuel(Seq::filter, 1);
        }
        if outcomes[i] {
            hashed = hashed + 1;
        } else {
            failed = failed + 1;
        }
        i += 1;
    }
    proof {
        assert(outcomes@.take(outcomes@.len() as int) =~= outcomes@);
    }
    HashStats { hashed, skipped: 0, failed }
}

} // verus!
