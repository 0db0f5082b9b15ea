//! A connector that stands in for a chain: it talks to no network and makes
//! up what a chain would answer.

use crate::common::{Address, Amount, Currency, GatewayError, Scalar, TxId, TxStatus};
use crate::connector::Connector;
use crate::text::{chars_of, contains, occurs, occurs_at, starts_with};
use vstd::prelude::*;
use vstd::string::StringExecFns;

verus! {

/// The balance 1.2345, which every address has that does not say otherwise.
pub const MOCK_BALANCE: u64 = 0x3FF3_C083_126E_978D;

/// The length of an identifier in its hyphenated form.
pub const ID_LEN: usize = 36;

/// `uuid::Uuid::new_v4`, written out by the identifier's `Display`: a random
/// identifier in its hyphenated form, which has 36 characters. Nothing else
/// is claimed of it. The call panics where the system has no random bytes
/// to give.
#[verifier::external_body]
fn fresh_id() -> (id: String)
    ensures
        id@.len() == ID_LEN,
{
    uuid::Uuid::new_v4().to_string()
}

/// A stand-in connector for the currency `cur`.
#[derive(Debug, Clone)]
pub struct MockConnector {
    pub cur: Currency,
}

impl Connector for MockConnector {
    open spec fn spec_currency(&self) -> Currency {
        self.cur
    }

    fn currency(&self) -> (cur: Currency) {
        self.cur
    }

    /// An address is valid where it begins with `mock_`.
    fn validate_address(&self, addr: &str) -> (r: Result<bool, GatewayError>)
        ensures
            r matches Ok(valid) && valid == occurs_at(addr@, "mock_"@, 0),
    {
        let text = chars_of(addr);
        let prefix = chars_of("mock_");
        Ok(starts_with(text.as_slice(), prefix.as_slice()))
    }

    /// A fresh address: `mock_`, then a random identifier.
    fn new_deposit_address(&self) -> (r: Result<Address, GatewayError>)
        ensures
            r matches Ok(addr) && addr.currency == self.cur && occurs_at(
                addr.address@,
                "mock_"@,
                0,
            ) && addr.address@.len() == "mock_"@.len() + ID_LEN,
    {
        let id = fresh_id();
        let address = String::from_str("mock_").concat(id.as_str());
        assert(address@.subrange(0, "mock_"@.len() as int) =~= "mock_"@);
        Ok(Address { address, currency: self.cur })
    }

    /// A fresh address and a random invoice identifier, for an amount in
    /// this connector's currency.
    fn create_payment_request(&self, amount: Amount) -> (r: Result<(Address, String), GatewayError>)
        ensures
            amount.currency == self.cur ==> (r matches Ok(issued) && issued.0.currency == self.cur
                && occurs_at(issued.0.address@, "mock_"@, 0) && issued.1@.len() == ID_LEN),
            amount.currency != self.cur ==> (r matches Err(GatewayError::Unknown(detail))
                && detail@ == "amount is in another currency"@),
    {
        if amount.currency != self.cur {
            return Err(GatewayError::Unknown(String::from_str("amount is in another currency")));
        }
        match self.new_deposit_address() {
            Ok(addr) => Ok((addr, fresh_id())),
            Err(e) => Err(e),
        }
    }

    /// Every transaction is confirmed, one block deep.
    fn tx_status(&self, tx: &TxId) -> (r: Result<TxStatus, GatewayError>)
        ensures
            r matches Ok(TxStatus::Confirmed(depth)) && depth == 1,
    {
        Ok(TxStatus::Confirmed(1))
    }

    /// An address that holds `zero` has the balance 0, every other one
    /// 1.2345.
    fn balance(&self, addr: &Address) -> (r: Result<Amount, GatewayError>)
        ensures
            r matches Ok(amount) && amount.currency == self.cur && amount.value.bits == (if occurs(
                addr.address@,
                "zero"@,
            ) {
                0
            } else {
                MOCK_BALANCE
            }),
    {
        let text = chars_of(addr.address.as_str());
        let zero = chars_of("zero");
        let bits = if contains(text.as_slice(), zero.as_slice()) {
            0
        } else {
            MOCK_BALANCE
        };
        Ok(Amount { value: Scalar { bits }, currency: self.cur })
    }

    /// A random transaction identifier, for an amount above zero.
    fn send(&self, from: &str, to: &Address, amount: Amount) -> (r: Result<TxId, GatewayError>)
        ensures
            amount.value.is_nonpositive() ==> (r matches Err(GatewayError::Unknown(detail))
                && detail@ == "amount must be > 0"@),
            !amount.value.is_nonpositive() ==> (r matches Ok(tx) && tx.0@.len() == ID_LEN),
    {
        if amount.value.is_nonpositive() {
            return Err(GatewayError::Unknown(String::from_str("amount must be > 0")));
        }
        Ok(TxId(fresh_id()))
    }
}

} // verus!
