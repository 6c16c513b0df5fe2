use vstd::prelude::*;

verus! {

broadcast use vstd::array::group_array_axioms;

/// The 32-byte BLAKE3 digest of a byte string.
pub uninterp spec fn blake3_of(data: Seq<u8>) -> Seq<u8>;

/// Relies on `blake3::hash`: the default 32-byte BLAKE3 digest of the input,
/// a function of the input bytes alone.
#[verifier::external_body]
pub(crate) fn blake3_hash(data: &[u8]) -> (r: [u8; 32])
    ensures
        r@ == blake3_of(data@),
{
    blake3::hash(data).into()
}

/// Two rounds of mixing: the digest of the input, then the digest of that digest alone.
pub open spec fn mixed(bundle: Seq<u8>) -> Seq<u8> {
    blake3_of(blake3_of(bundle))
}

/// The first round of mixing: the digest of the whole entropy bundle.
pub fn first_round(bundle: &Vec<u8>) -> (r: [u8; 32])
    ensures
        r@ == blake3_of(bundle@),
{
    blake3_hash(bundle.as_slice())
}

/// Both rounds of mixing over an entropy bundle.
pub fn mix(bundle: &Vec<u8>) -> (r: [u8; 32])
    ensures
        r@ == mixed(bundle@),
{
    let h1 = first_round(bundle);
    blake3_hash(&h1)
}

} // verus!
