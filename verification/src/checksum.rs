//! The integrity stamp of the artifact: the SHA-256 digest of its bytes,
//! written as lowercase hexadecimal.

use sha2::{Digest, Sha256};
use vstd::prelude::*;
use vstd::string::*;
use crate::text::Text;

verus! {

/// The SHA-256 digest of `data`, as the `sha2` crate computes it.
pub uninterp spec fn sha256(data: Seq<u8>) -> Seq<u8>;

/// Calls `sha2::Sha256::digest` on `data` and copies the digest out of its
/// fixed-size array. The digest is not specified here beyond its name: it is
/// a function of the bytes alone, and it is 32 bytes long, the output size
/// that `sha2` declares for SHA-256.
#[verifier::external_body]
fn sha256_digest(data: &[u8]) -> (digest: Vec<u8>)
    ensures
        digest@ == sha256(data@),
        digest@.len() == 32,
{
    Sha256::digest(data).to_vec()
}

/// The lowercase hexadecimal digit that stands for `d`, for `d` below 16.
pub open spec fn hex_digit(d: nat) -> char {
    if d < 10 {
        crate::text::digit_char(d)
    } else if d == 10 {
        'a'
    } else if d == 11 {
        'b'
    } else if d == 12 {
        'c'
    } else if d == 13 {
        'd'
    } else if d == 14 {
        'e'
    } else {
        'f'
    }
}

/// The bytes written as lowercase hexadecimal: two digits per byte, the high
/// half first.
pub open spec fn hex_lower(bytes: Seq<u8>) -> Text {
    Seq::new(
        2 * bytes.len(),
        |i: int|
            if i % 2 == 0 {
                hex_digit((bytes[i / 2] / 16) as nat)
            } else {
                hex_digit((bytes[i / 2] % 16) as nat)
            },
    )
}

/// The integrity stamp of `bytes`.
pub open spec fn checksum_of(bytes: Seq<u8>) -> Text {
    hex_lower(sha256(bytes))
}

/// The one-character text of the hexadecimal digit `d`.
fn hex_digit_text(d: u8) -> (text: &'static str)
    requires
        d < 16,
    ensures
        text@ == seq![hex_digit(d as nat)],
{
    proof {
        reveal_strlit("a");
        reveal_strlit("b");
        reveal_strlit("c");
        reveal_strlit("d");
        reveal_strlit("e");
        reveal_strlit("f");
    }
    let text: &'static str = if d < 10 {
        crate::text::digit_text(d as u64)
    } else if d == 10 {
        "a"
    } else if d == 11 {
        "b"
    } else if d == 12 {
        "c"
    } else if d == 13 {
        "d"
    } else if d == 14 {
        "e"
    } else {
        "f"
    };
    assert(text@ =~= seq![hex_digit(d as nat)]);
    text
}

/// Writes `bytes` as lowercase hexadecimal.
pub fn to_hex(bytes: &[u8]) -> (text: String)
    ensures
        text@ == hex_lower(bytes@),
{
    let mut text: String = String::new();
    let mut i: usize = 0;
    while i < bytes.len()
        invariant
            i <= bytes.len(),
            text@.len() == 2 * i,
            forall|k: int| 0 <= k < 2 * i ==> #[trigger] text@[k] == hex_lower(bytes@)[k],
        decreases bytes.len() - i,
    {
        let byte: u8 = bytes[i];
        text.append(hex_digit_text(byte / 16));
        text.append(hex_digit_text(byte % 16));
        i += 1;
    }
    assert(text@ =~= hex_lower(bytes@));
    text
}

/// Computes the integrity stamp of `bytes`: the SHA-256 digest, as 64
/// lowercase hexadecimal digits.
pub fn checksum(bytes: &[u8]) -> (stamp: String)
    ensures
        stamp@ == checksum_of(bytes@),
        stamp@.len() == 64,
{
    let digest = sha256_digest(bytes);
    to_hex(digest.as_slice())
}

/// Hashes `bytes` again and compares the result with `stamp`.
pub fn verify_checksum(bytes: &[u8], stamp: &str) -> (intact: bool)
    ensures
        intact == (stamp@ == checksum_of(bytes@)),
{
    let expected: String = String::from_str(stamp);
    let actual: String = checksum(bytes);
    actual == expected
}

/// No two hexadecimal digits are written alike.
proof fn lemma_hex_digit_injective(c: nat, d: nat)
    requires
        c < 16,
        d < 16,
        hex_digit(c) == hex_digit(d),
    ensures
        c == d,
{
}

/// Checksum integrity: two stamps are equal exactly when the digests behind
/// them are. A change to the bytes therefore shows in the stamp whenever it
/// shows in the SHA-256 digest.
pub proof fn lemma_stamp_tells_digests_apart(bytes: Seq<u8>, other: Seq<u8>)
    ensures
        checksum_of(bytes) == checksum_of(other) <==> sha256(bytes) == sha256(other),
{
    let a = sha256(bytes);
    let b = sha256(other);
    if hex_lower(a) == hex_lower(b) {
        assert(hex_lower(a).len() == 2 * a.len());
        assert(hex_lower(b).len() == 2 * b.len());
        assert forall|i: int| 0 <= i < a.len() implies a[i] == b[i] by {
            assert(hex_lower(a)[2 * i] == hex_digit((a[i] / 16) as nat));
            assert(hex_lower(b)[2 * i] == hex_digit((b[i] / 16) as nat));
            assert(hex_lower(a)[2 * i + 1] == hex_digit((a[i] % 16) as nat));
            assert(hex_lower(b)[2 * i + 1] == hex_digit((b[i] % 16) as nat));
            lemma_hex_digit_injective((a[i] / 16) as nat, (b[i] / 16) as nat);
            lemma_hex_digit_injective((a[i] % 16) as nat, (b[i] % 16) as nat);
        }
        assert(a =~= b);
    }
}

} // verus!
