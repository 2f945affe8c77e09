//! Content hashing: SHA-256 (from the `sha2` crate) rendered as lower-case hex.

use sha2::Digest;
use vstd::prelude::*;

verus! {

/// The SHA-256 digest of the UTF-8 encoding of a text, as `sha2` computes it.
pub uninterp spec fn sha256_of_text(text: Seq<char>) -> Seq<u8>;

/// Calls `sha2::Sha256::digest` on the UTF-8 bytes of `text`.
/// Trusted claim: the returned bytes are the digest named by `sha256_of_text`
/// for this text, and there are 32 of them (SHA-256's fixed output size).
#[verifier::external_body]
fn sha256_text(text: &str) -> (digest: Vec<u8>)
    ensures
        digest@ == sha256_of_text(text@),
        digest@.len() == 32,
{
    sha2::Sha256::digest(text.as_bytes()).to_vec()
}

/// The lower-case hexadecimal digit for a nibble value `0..16`.
pub open spec fn hex_digit(n: int) -> char {
    if n == 0 { '0' } else if n == 1 { '1' } else if n == 2 { '2' } else if n == 3 { '3' }
    else if n == 4 { '4' } else if n == 5 { '5' } else if n == 6 { '6' } else if n == 7 { '7' }
    else if n == 8 { '8' } else if n == 9 { '9' } else if n == 10 { 'a' } else if n == 11 { 'b' }
    else if n == 12 { 'c' } else if n == 13 { 'd' } else if n == 14 { 'e' } else { 'f' }
}

/// Lower-case hex encoding: two digits per byte, high nibble first.
pub open spec fn hex_lower(bytes: Seq<u8>) -> Seq<char>
    decreases bytes.len(),
{
    if bytes.len() == 0 {
        Seq::empty()
    } else {
        let b = bytes.last();
        hex_lower(bytes.drop_last()) + seq![hex_digit((b / 16) as int), hex_digit((b % 16) as int)]
    }
}

/// What content hashing gives for a text: the lower-case hex of its SHA-256.
pub open spec fn content_hash(text: Seq<char>) -> Seq<char> {
    hex_lower(sha256_of_text(text))
}

pub(crate) fn hex_digit_str(n: u8) -> (s: &'static str)
    requires
        n < 16,
    ensures
        s@ == seq![hex_digit(n as int)],
{
    let s = match n {
        0 => { proof { reveal_strlit("0"); } "0" },
        1 => { proof { reveal_strlit("1"); } "1" },
        2 => { proof { reveal_strlit("2"); } "2" },
        3 => { proof { reveal_strlit("3"); } "3" },
        4 => { proof { reveal_strlit("4"); } "4" },
        5 => { proof { reveal_strlit("5"); } "5" },
        6 => { proof { reveal_strlit("6"); } "6" },
        7 => { proof { reveal_strlit("7"); } "7" },
        8 => { proof { reveal_strlit("8"); } "8" },
        9 => { proof { reveal_strlit("9"); } "9" },
        10 => { proof { reveal_strlit("a"); } "a" },
        11 => { proof { reveal_strlit("b"); } "b" },
        12 => { proof { reveal_strlit("c"); } "c" },
        13 => { proof { reveal_strlit("d"); } "d" },
        14 => { proof { reveal_strlit("e"); } "e" },
        _ => { proof { reveal_strlit("f"); } "f" },
    };
    assert(s@ =~= seq![hex_digit(n as int)]);
    s
}

/// Encode bytes as lower-case hex.
pub fn to_hex_lower(bytes: &Vec<u8>) -> (s: String)
    ensures
        s@ == hex_lower(bytes@),
{
    let mut out = String::new();
    let n = bytes.len();
    for i in 0..n
        invariant
            n == bytes@.len(),
            out@ == hex_lower(bytes@.take(i as int)),
    {
        let b = bytes[i];
        out.append(hex_digit_str(b / 16));
        out.append(hex_digit_str(b % 16));
        assert(bytes@.take(i + 1).drop_last() =~= bytes@.take(i as int));
    }
    assert(bytes@.take(n as int) =~= bytes@);
    out
}

/// Hash a text: lower-case hex of the SHA-256 of its UTF-8 bytes.
pub fn hash_content(text: &str) -> (h: String)
    ensures
        h@ == content_hash(text@),
        h@.len() == 64,
{
    let digest = sha256_text(text);
    proof { lemma_hex_lower_len(digest@); }
    to_hex_lower(&digest)
}

/// Hex encoding doubles the length.
pub proof fn lemma_hex_lower_len(bytes: Seq<u8>)
    ensures
        hex_lower(bytes).len() == 2 * bytes.len(),
    decreases bytes.len(),
{
    if bytes.len() > 0 {
        lemma_hex_lower_len(bytes.drop_last());
    }
}


/// The big-endian unsigned value of a byte sequence.
pub open spec fn be_value(bytes: Seq<u8>) -> nat
    decreases bytes.len(),
{
    if bytes.len() == 0 {
        0
    } else {
        be_value(bytes.drop_last()) * 256 + (bytes.last() as nat)
    }
}

/// `256` to the power `n`.
pub open spec fn pow256(n: nat) -> nat
    decreases n,
{
    if n == 0 { 1 } else { 256 * pow256((n - 1) as nat) }
}

/// The advisory-lock key of a chain scope: the first 64 bits (16 hex digits)
/// of the scope's SHA-256, read as an unsigned big-endian number and
/// reinterpreted as a signed 64-bit integer.
pub open spec fn advisory_key_of(scope: Seq<char>) -> i64 {
    (be_value(sha256_of_text(scope).take(8)) as u64) as i64
}

/// Derive a stable 64-bit advisory-lock key from a chain scope string, the
/// same in every process and build: SHA-256 of the scope truncated to 64 bits.
pub fn advisory_key(scope: &str) -> (k: i64)
    ensures
        k == advisory_key_of(scope@),
{
    let digest = sha256_text(scope);
    let mut v: u64 = 0;
    proof {
        reveal_with_fuel(pow256, 9);
        assert(pow256(8) == 0x1_0000_0000_0000_0000);
    }
    for i in 0..8
        invariant
            digest@.len() == 32,
            v == be_value(digest@.take(i as int)),
            v < pow256(i as nat),
            pow256(8) == 0x1_0000_0000_0000_0000,
    {
        proof {
            assert(pow256((i + 1) as nat) == 256 * pow256(i as nat));
            if i < 7 {
                lemma_pow256_monotone(i as nat + 1, 8);
            }
            assert(digest@.take(i + 1).drop_last() =~= digest@.take(i as int));
        }
        v = v * 256 + digest[i] as u64;
    }
    v as i64
}

proof fn lemma_pow256_monotone(a: nat, b: nat)
    requires
        a <= b,
    ensures
        pow256(a) <= pow256(b),
    decreases b - a,
{
    if a < b {
        lemma_pow256_monotone(a, (b - 1) as nat);
    }
}

} // verus!
