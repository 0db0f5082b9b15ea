//! The gateway: fee computation, volume accounting and connector dispatch,
//! in that order, for each operation asked of it.

use crate::common::{Address, Amount, ClientId, Currency, GatewayError, Scalar, TxId, TxStatus};
use crate::config::FeeTier;
use crate::connector::Connector;
use crate::engine::FeeEngine;
use crate::registry::Registry;
use vstd::prelude::*;

verus! {

/// What an invoice is made of: the address to pay to, the identifier of the
/// invoice, and the tier whose rate applies to it.
pub type Invoice = (Address, String, FeeTier);

/// The invoice for what a connector issued, at the tier `fee`; the
/// connector's error where it issued nothing.
pub open spec fn spec_invoice_of(
    fee: FeeTier,
    issued: Result<(Address, String), GatewayError>,
) -> Result<Invoice, GatewayError> {
    match issued {
        Ok((addr, invoice_id)) => Ok((addr, invoice_id, fee)),
        Err(e) => Err(e),
    }
}

/// The invoice for what a connector issued, at the tier `fee`. An error of
/// the connector is handed on as it is.
pub fn invoice_of(fee: FeeTier, issued: Result<(Address, String), GatewayError>) -> (r: Result<
    Invoice,
    GatewayError,
>)
    ensures
        r == spec_invoice_of(fee, issued),
{
    match issued {
        Ok((addr, invoice_id)) => Ok((addr, invoice_id, fee)),
        Err(e) => Err(e),
    }
}

/// A registry and a fee engine, composed. The gateway has no state of its
/// own.
pub struct Gateway<C: Connector> {
    reg: Registry<C>,
    fee: FeeEngine,
}

impl<C: Connector> Gateway<C> {
    /// The connector bound to each currency that has one.
    pub closed spec fn connectors(&self) -> Map<Currency, C> {
        self.reg@
    }

    /// The fee engine.
    pub closed spec fn spec_fees(&self) -> FeeEngine {
        self.fee
    }

    /// The gateway over `reg` and `fee`.
    pub fn new(reg: Registry<C>, fee: FeeEngine) -> (gw: Self)
        ensures
            gw.connectors() == reg@,
            gw.spec_fees() == fee,
    {
        Gateway { reg, fee }
    }

    /// The fee engine.
    pub fn fees(&self) -> (fee: &FeeEngine)
        ensures
            *fee == self.spec_fees(),
    {
        &self.fee
    }

    /// Creates an invoice over `amount` of `cur` for `client`.
    ///
    /// Without a connector for `cur` the call fails at once: no fee is
    /// computed and nothing is recorded. Else the tier is taken at the
    /// client's count before this transaction, the transaction is recorded,
    /// and only then the connector is asked; where it fails, its error is
    /// returned and the transaction stays recorded.
    pub fn create_invoice(&self, client: ClientId, cur: Currency, amount: Scalar) -> (r: Result<
        Invoice,
        GatewayError,
    >)
        requires
            self.spec_fees().tiers().len() > 0,
        ensures
            !self.connectors().contains_key(cur) ==> (r matches Err(e) && e.is_unsupported(cur)),
            self.connectors().contains_key(cur) ==> exists|
                count: u64,
                issued: Result<(Address, String), GatewayError>,
            |
                call_ensures(
                    C::create_payment_request,
                    (&self.connectors()[cur], (Amount { value: amount, currency: cur })),
                    issued,
                ) && r == #[trigger] spec_invoice_of(self.spec_fees().tier_at(count), issued),
            r matches Ok(invoice) ==> {
                &&& self.connectors().contains_key(cur)
                &&& invoice.0.currency == cur
                &&& exists|count: u64| invoice.2 == #[trigger] self.spec_fees().tier_at(count)
            },
    {
        let connector = match self.reg.get(cur) {
            Ok(connector) => connector,
            Err(e) => {
                return Err(e);
            },
        };
        let fee = self.fee.fee_for(&client);
        self.fee.record_tx(&client);
        let issued = connector.create_payment_request(Amount { value: amount, currency: cur });
        let r = invoice_of(fee, issued);
        proof {
            let count = choose|count: u64| fee == #[trigger] self.spec_fees().tier_at(count);
            assert(r == spec_invoice_of(self.spec_fees().tier_at(count), issued));
        }
        r
    }

    /// What the connector of `cur` says of `tx`, as it says it; the error
    /// that names `cur` where it has no connector.
    pub fn check_tx(&self, cur: Currency, tx: &TxId) -> (r: Result<TxStatus, GatewayError>)
        ensures
            !self.connectors().contains_key(cur) ==> (r matches Err(e) && e.is_unsupported(cur)),
            self.connectors().contains_key(cur) ==> call_ensures(
                C::tx_status,
                (&self.connectors()[cur], tx),
                r,
            ),
    {
        match self.reg.get(cur) {
            Ok(connector) => connector.tx_status(tx),
            Err(e) => Err(e),
        }
    }

    /// The balance of `addr` as the connector of its currency gives it, or
    /// that connector's error; the error that names the currency of `addr`
    /// where it has no connector.
    pub fn balance(&self, addr: &Address) -> (r: Result<Amount, GatewayError>)
        ensures
            !self.connectors().contains_key(addr.currency) ==> (r matches Err(e)
                && e.is_unsupported(addr.currency)),
            self.connectors().contains_key(addr.currency) ==> call_ensures(
                C::balance,
                (&self.connectors()[addr.currency], addr),
                r,
            ),
            r matches Ok(amount) ==> self.connectors().contains_key(addr.currency)
                && amount.currency == addr.currency,
    {
        match self.reg.get(addr.currency) {
            Ok(connector) => connector.balance(addr),
            Err(e) => Err(e),
        }
    }
}

} // verus!
