//! The table that binds each currency to its connector.

use crate::common::{Currency, GatewayError};
use crate::connector::Connector;
use std::collections::HashMap;
use vstd::prelude::*;

verus! {

broadcast use vstd::std_specs::hash::group_hash_axioms;

/// At most one connector per currency. The table is built by registering
/// connectors one by one and is only read afterwards.
pub struct Registry<C: Connector> {
    inner: HashMap<u8, C>,
}

impl<C: Connector> View for Registry<C> {
    type V = Map<Currency, C>;

    /// The connector bound to each currency that has one.
    closed spec fn view(&self) -> Map<Currency, C> {
        Map::new(
            |cur: Currency| self.inner@.contains_key(cur.spec_index()),
            |cur: Currency| self.inner@[cur.spec_index()],
        )
    }
}

impl<C: Connector> Registry<C> {
    /// Every connector is bound to the currency that it serves.
    #[verifier::type_invariant]
    spec fn keyed_by_currency(self) -> bool {
        forall|k: u8| #[trigger]
            self.inner@.contains_key(k) ==> self.inner@[k].spec_currency().spec_index() == k
    }

    /// The table without any connector.
    pub fn new() -> (reg: Self)
        ensures
            reg@ == Map::<Currency, C>::empty(),
    {
        let reg = Registry { inner: HashMap::new() };
        assert(reg@ =~= Map::<Currency, C>::empty());
        reg
    }

    /// Binds `c` to the currency that it serves, in place of the connector
    /// that the currency had, if any.
    pub fn with(self, c: C) -> (reg: Self)
        ensures
            reg@ == self@.insert(c.spec_currency(), c),
    {
        proof {
            use_type_invariant(&self);
        }
        let mut inner = self.inner;
        let key = c.currency().index();
        inner.insert(key, c);
        let reg = Registry { inner };
        assert(reg@ =~= self@.insert(c.spec_currency(), c));
        reg
    }

    /// The connector for `cur`, or the error that names `cur` as a currency
    /// without one.
    pub fn get(&self, cur: Currency) -> (r: Result<&C, GatewayError>)
        ensures
            r is Ok <==> self@.contains_key(cur),
            r matches Ok(c) ==> *c == self@[cur] && c.spec_currency() == cur,
            r matches Err(e) ==> e.is_unsupported(cur),
    {
        proof {
            use_type_invariant(self);
        }
        match self.inner.get(&cur.index()) {
            Some(c) => Ok(c),
            None => Err(GatewayError::unsupported(cur)),
        }
    }
}

impl<C: Connector> Default for Registry<C> {
    /// The table without any connector.
    fn default() -> (reg: Self)
        ensures
            reg@ == Map::<Currency, C>::empty(),
    {
        Registry::new()
    }
}

/// Registering a connector binds the currency that it serves and leaves
/// every other currency as it was; before any registration no currency has
/// a connector.
pub proof fn lemma_registration<C: Connector>(before: Map<Currency, C>, c: C, other: Currency)
    requires
        other != c.spec_currency(),
    ensures
        !Map::<Currency, C>::empty().contains_key(other),
        before.insert(c.spec_currency(), c).contains_key(c.spec_currency()),
        before.insert(c.spec_currency(), c)[c.spec_currency()] == c,
        before.insert(c.spec_currency(), c).contains_key(other) <==> before.contains_key(other),
        before.contains_key(other) ==> before.insert(c.spec_currency(), c)[other] == before[other],
{
}

} // verus!
