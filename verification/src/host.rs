//! The host interface: the responses a host returns to the machine,
//! and the default host built around an advice provider.

use crate::felt::Felt;
use crate::word::Word;
use vstd::prelude::*;

verus! {

/// Response returned by the host upon a successful request.
pub enum HostResponse {
    MerklePath(Vec<Word>),
    DoubleWord(Word, Word),
    Single(Word),
    Element(Felt),
    Empty,
}

/// A default host implementation: it owns an advice provider and
/// forwards the machine's advice requests to it.
pub struct DefaultHost<A> {
    pub adv_provider: A,
}

impl<A> DefaultHost<A> {
    pub fn new(adv_provider: A) -> (r: DefaultHost<A>)
        ensures
            r.adv_provider == adv_provider,
    {
        DefaultHost { adv_provider }
    }

    /// The advice provider this host serves requests from.
    pub fn advice_provider(&self) -> (r: &A)
        ensures
            r == &self.adv_provider,
    {
        &self.adv_provider
    }

    /// Mutable access to the advice provider.
    pub fn advice_provider_mut(&mut self) -> (r: &mut A)
        ensures
            *r == old(self).adv_provider,
            *final(self) == (DefaultHost { adv_provider: *final(r) }),
    {
        &mut self.adv_provider
    }

    /// Consumes the host and returns its advice provider.
    pub fn into_inner(self) -> (r: A)
        ensures
            r == self.adv_provider,
    {
        self.adv_provider
    }
}

} // verus!
