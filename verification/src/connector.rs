//! The capability contract that a chain backend fulfils for one currency.

use crate::common::{Address, Amount, Currency, GatewayError, TxId, TxStatus};
use std::sync::Arc;
use vstd::prelude::*;

verus! {

/// A backend for exactly one currency. Every operation may fail on its own;
/// the gateway neither retries nor recovers.
pub trait Connector: Send + Sync {
    /// The currency that this connector serves, as the contracts speak of
    /// it. An implementation that is not verified gives it the body of
    /// [`Connector::currency`].
    spec fn spec_currency(&self) -> Currency;

    /// The currency that this connector serves.
    fn currency(&self) -> (cur: Currency)
        ensures
            cur == self.spec_currency(),
    ;

    /// Whether `addr` is a valid address on this chain. An address that is
    /// merely invalid is no error: only trouble on the way to the chain is.
    fn validate_address(&self, addr: &str) -> (r: Result<bool, GatewayError>)
        ensures
            r matches Err(e) ==> e is Network,
    ;

    /// Reserves a fresh receiving address, on this connector's chain.
    fn new_deposit_address(&self) -> (r: Result<Address, GatewayError>)
        ensures
            r matches Ok(addr) ==> addr.currency == self.spec_currency(),
    ;

    /// Issues an address together with the identifier of an invoice for
    /// `amount`. An amount in another currency is refused.
    fn create_payment_request(&self, amount: Amount) -> (r: Result<(Address, String), GatewayError>)
        ensures
            amount.currency != self.spec_currency() ==> (r matches Err(e) && (e is InvalidAddress
                || e is Unknown)),
            r matches Ok(issued) ==> issued.0.currency == self.spec_currency(),
    ;

    /// What the chain says of `tx` at this moment.
    fn tx_status(&self, tx: &TxId) -> (r: Result<TxStatus, GatewayError>)
    ;

    /// The balance of `addr`, in this connector's currency.
    fn balance(&self, addr: &Address) -> (r: Result<Amount, GatewayError>)
        ensures
            r matches Ok(amount) ==> amount.currency == self.spec_currency(),
    ;

    /// Starts a transfer of `amount` from `from` to `to`. An amount of zero
    /// or less is refused.
    fn send(&self, from: &str, to: &Address, amount: Amount) -> (r: Result<TxId, GatewayError>)
        ensures
            amount.value.is_nonpositive() ==> (r matches Err(e) && e is Unknown),
    ;
}

/// A shared connector serves as the connector that it shares: a table of
/// `Arc<dyn Connector>` holds backends of different kinds side by side.
///
/// Every operation is the shared connector's own: what it returns is what
/// that connector's contract admits for the same arguments.
impl<C: Connector + ?Sized> Connector for Arc<C> {
    open spec fn spec_currency(&self) -> Currency {
        (**self).spec_currency()
    }

    fn currency(&self) -> (cur: Currency) {
        (**self).currency()
    }

    fn validate_address(&self, addr: &str) -> (r: Result<bool, GatewayError>)
        ensures
            call_ensures(C::validate_address, (&**self, addr), r),
    {
        (**self).validate_address(addr)
    }

    fn new_deposit_address(&self) -> (r: Result<Address, GatewayError>)
        ensures
            call_ensures(C::new_deposit_address, (&**self,), r),
    {
        (**self).new_deposit_address()
    }

    fn create_payment_request(&self, amount: Amount) -> (r: Result<(Address, String), GatewayError>)
        ensures
            call_ensures(C::create_payment_request, (&**self, amount), r),
    {
        (**self).create_payment_request(amount)
    }

    fn tx_status(&self, tx: &TxId) -> (r: Result<TxStatus, GatewayError>)
        ensures
            call_ensures(C::tx_status, (&**self, tx), r),
    {
        (**self).tx_status(tx)
    }

    fn balance(&self, addr: &Address) -> (r: Result<Amount, GatewayError>)
        ensures
            call_ensures(C::balance, (&**self, addr), r),
    {
        (**self).balance(addr)
    }

    fn send(&self, from: &str, to: &Address, amount: Amount) -> (r: Result<TxId, GatewayError>)
        ensures
            call_ensures(C::send, (&**self, from, to, amount), r),
    {
        (**self).send(from, to, amount)
    }
}

} // verus!
