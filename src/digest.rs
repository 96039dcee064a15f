use sha1::Digest;
use vstd::prelude::*;

verus! {

/// The SHA-1 digest of a byte sequence.
pub uninterp spec fn sha1_of(content: Seq<u8>) -> Seq<u8>;

/// Relies on `sha1::Sha1::digest` (through `digest::Digest`): the 20-byte
/// SHA-1 digest of the given bytes, a function of the bytes alone.
#[verifier::external_body]
fn sha1_digest(content: &[u8]) -> (r: [u8; 20])
    ensures
        r@ == sha1_of(content@),
{
    sha1::Sha1::digest(content).into()
}

/// The digest of `content`.
pub fn sha1(content: &[u8]) -> (r: [u8; 20])
    ensures
        r@ == sha1_of(content@),
        r@.len() == 20,
{
    sha1_digest(content)
}

/// Two digests are equal byte for byte.
pub fn digest_eq(a: &[u8; 20], b: &[u8; 20]) -> (r: bool)
    ensures
        r == (a@ == b@),
{
    let mut i: usize = 0;
    while i < 20
        invariant
            0 <= i <= 20,
            a@.len() == 20,
            b@.len() == 20,
            forall|k: int| 0 <= k < i ==> a@[k] == b@[k],
        decreases 20 - i,
    {
        if a[i] != b[i] {
            return false;
        }
        i = i + 1;
    }
    assert(a@ =~= b@);
    true
}

} // verus!
