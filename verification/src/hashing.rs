//! Content digests.
//!
//! Content equality between two files is decided by comparing SHA-256
//! digests of their complete byte streams. The digest computation itself is
//! done by the `sha2` crate; everything around it — hex rendering and the
//! batch form that digests many contents in input order — is verified here.

use vstd::prelude::*;

verus! {

/// The SHA-256 digest of a byte sequence, as the 32 output bytes.
///
/// The algorithm itself is not restated here; the digest of given bytes is a
/// fixed function of those bytes alone, which is all the engine relies on.
pub uninterp spec fn sha256_of(data: Seq<u8>) -> Seq<u8>;

/// Relies on `sha2::Sha256` through `Digest::digest`: the result is the
/// SHA-256 digest of `data`, a function of those bytes alone, 32 bytes long.
#[verifier::external_body]
pub(crate) fn sha256_bytes(data: &[u8]) -> (r: Vec<u8>)
    ensures
        r@ == sha256_of(data@),
        r@.len() == 32,
{
    <sha2::Sha256 as sha2::Digest>::digest(data).to_vec()
}

/// The sixteen hexadecimal digit characters, in value order.
pub open spec fn hex_digits() -> Seq<char> {
    "0123456789abcdef"@
}

/// The lowercase hexadecimal rendering of a byte sequence: two digit
/// characters per byte, high nibble first.
pub open spec fn hex_of(data: Seq<u8>) -> Seq<char>
    decreases data.len(),
{
    if data.len() == 0 {
        Seq::empty()
    } else {
        hex_of(data.drop_last())
            + seq![hex_digits()[data.last() as int / 16], hex_digits()[data.last() as int % 16]]
    }
}

/// Renders bytes as a lowercase hexadecimal string.
pub fn to_hex(data: &[u8]) -> (r: String)
    ensures
        r@ == hex_of(data@),
{
    let table: &str = "0123456789abcdef";
    proof {
        reveal_strlit("0123456789abcdef");
        assert(table@.len() == 16);
    }
    let mut r = String::new();
    let mut i: usize = 0;
    assert(data@.subrange(0, 0) =~= Seq::<u8>::empty());
    while i < data.len()
        invariant
            i <= data@.len(),
            table@ == hex_digits(),
            table@.len() == 16,
            r@ == hex_of(data@.subrange(0, i as int)),
        decreases data@.len() - i,
    {
        let b = data[i];
        let hi = (b / 16) as usize;
        let lo = (b % 16) as usize;
        r.append(table.substring_char(hi, hi + 1));
        r.append(table.substring_char(lo, lo + 1));
        proof {
            let prefix = data@.subrange(0, i + 1);
            assert(prefix.drop_last() =~= data@.subrange(0, i as int));
            assert(prefix.last() == data@[i as int]);
            assert(r@ =~= hex_of(prefix));
        }
        i = i + 1;
    }
    assert(data@.subrange(0, data@.len() as int) =~= data@);
    r
}

/// Computes the lowercase hex digest of one content, read to its end.
pub fn calculate_hash(content: &[u8]) -> (r: String)
    ensures
        r@ == hex_of(sha256_of(content@)),
{
    let d = sha256_bytes(content);
    to_hex(d.as_slice())
}

/// Digests are deterministic: a digest depends on the bytes alone, so the
/// same content read from two different places yields the same digest.
/// That two different contents yield different digests holds only with
/// overwhelming probability and is not provable here.
pub proof fn lemma_digest_deterministic(a: Seq<u8>, b: Seq<u8>)
    requires
        a == b,
    ensures
        sha256_of(a) == sha256_of(b),
{
}

/// Whether two byte slices hold the same bytes.
pub fn bytes_equal(a: &[u8], b: &[u8]) -> (r: bool)
    ensures
        r == (a@ == b@),
{
    if a.len() != b.len() {
        return false;
    }
    let mut i: usize = 0;
    while i < a.len()
        invariant
            a@.len() == b@.len(),
            i <= a@.len(),
            forall|j: int| 0 <= j < i ==> a@[j] == b@[j],
        decreases a@.len() - i,
    {
        if a[i] != b[i] {
            return false;
        }
        i = i + 1;
    }
    proof {
        assert(a@ =~= b@);
    }
    true
}

} // verus!
