//! Trusted bindings to the hash permutation of the `miden-crypto`
//! crate.
//!
//! The hasher chiplet's cryptographic work — the state permutation and
//! the digests built from it — is done by the outside crate; each entry
//! point is named by an uninterpreted function of its inputs, and the
//! library's own contracts speak of those names. Values cross the
//! boundary as plain canonical integers.

use crate::felt::P;
use vstd::prelude::*;

verus! {

/// The state permutation applied to twelve field elements, named: the
/// result depends on the input elements alone.
pub uninterp spec fn rpo_permutation(state: Seq<u64>) -> Seq<u64>;

/// The digest of two four-element digests, named.
pub uninterp spec fn rpo_merge_digests(left: Seq<u64>, right: Seq<u64>) -> Seq<u64>;

/// The digest of two four-element digests under a domain separator,
/// named.
pub uninterp spec fn rpo_merge_in_domain(left: Seq<u64>, right: Seq<u64>, domain: u64) -> Seq<u64>;

/// The digest of an arbitrary sequence of field elements, named.
pub uninterp spec fn rpo_hash_elements(elements: Seq<u64>) -> Seq<u64>;

/// All values are canonical field representatives.
pub open spec fn all_canonical(s: Seq<u64>) -> bool {
    forall|i: int| 0 <= i < s.len() ==> #[trigger] s[i] < P
}

/// Relies on miden_crypto's `Rpo256::apply_permutation`: a permutation
/// of the twelve-element state, a function of the state alone;
/// `as_int` returns canonical representatives.
#[verifier::external_body]
pub(crate) fn rpo_permute_raw(state: &Vec<u64>) -> (r: Vec<u64>)
    requires
        state@.len() == 12,
    ensures
        r@ == rpo_permutation(state@),
        r@.len() == 12,
        all_canonical(r@),
{
    let mut st: [miden_crypto::Felt; 12] =
        core::array::from_fn(|i| miden_crypto::Felt::new(state[i]));
    miden_crypto::hash::rpo::Rpo256::apply_permutation(&mut st);
    st.iter().map(|f| f.as_int()).collect()
}

/// Relies on miden_crypto's `Rpo256::merge`: the parent digest of two
/// child digests, a function of the eight elements alone.
#[verifier::external_body]
pub(crate) fn rpo_merge_raw(left: &Vec<u64>, right: &Vec<u64>) -> (r: Vec<u64>)
    requires
        left@.len() == 4,
        right@.len() == 4,
    ensures
        r@ == rpo_merge_digests(left@, right@),
        r@.len() == 4,
        all_canonical(r@),
{
    let l = miden_crypto::hash::rpo::RpoDigest::new(
        core::array::from_fn(|i| miden_crypto::Felt::new(left[i])),
    );
    let rr = miden_crypto::hash::rpo::RpoDigest::new(
        core::array::from_fn(|i| miden_crypto::Felt::new(right[i])),
    );
    let d = miden_crypto::hash::rpo::Rpo256::merge(&[l, rr]);
    d.as_elements().iter().map(|f| f.as_int()).collect()
}

/// Relies on miden_crypto's `Rpo256::merge_in_domain`: the parent
/// digest of two child digests under a domain separator, a function of
/// its nine inputs alone.
#[verifier::external_body]
pub(crate) fn rpo_merge_in_domain_raw(left: &Vec<u64>, right: &Vec<u64>, domain: u64) -> (r: Vec<
    u64,
>)
    requires
        left@.len() == 4,
        right@.len() == 4,
    ensures
        r@ == rpo_merge_in_domain(left@, right@, domain),
        r@.len() == 4,
        all_canonical(r@),
{
    let l = miden_crypto::hash::rpo::RpoDigest::new(
        core::array::from_fn(|i| miden_crypto::Felt::new(left[i])),
    );
    let rr = miden_crypto::hash::rpo::RpoDigest::new(
        core::array::from_fn(|i| miden_crypto::Felt::new(right[i])),
    );
    let d = miden_crypto::hash::rpo::Rpo256::merge_in_domain(
        &[l, rr],
        miden_crypto::Felt::new(domain),
    );
    d.as_elements().iter().map(|f| f.as_int()).collect()
}

/// Relies on miden_crypto's `Rpo256::hash_elements`: the digest of a
/// sequence of field elements, a function of the elements alone.
#[verifier::external_body]
pub(crate) fn rpo_hash_elements_raw(elements: &Vec<u64>) -> (r: Vec<u64>)
    ensures
        r@ == rpo_hash_elements(elements@),
        r@.len() == 4,
        all_canonical(r@),
{
    let felts: std::vec::Vec<miden_crypto::Felt> = elements.iter().map(
        |v| miden_crypto::Felt::new(*v),
    ).collect();
    let d = miden_crypto::hash::rpo::Rpo256::hash_elements(&felts);
    d.as_elements().iter().map(|f| f.as_int()).collect()
}

} // verus!
