use gateway_core::common::{Currency, GatewayError};
use gateway_core::connector::Connector;
use gateway_core::mock::MockConnector;
use gateway_core::registry::Registry;

const ALL: [Currency; 5] =
    [Currency::BTC, Currency::ETH, Currency::SOL, Currency::SUI, Currency::XRP];

#[test]
fn empty_registry_supports_nothing() {
    let reg: Registry<MockConnector> = Registry::new();
    for cur in ALL {
        assert_eq!(reg.get(cur).err(), Some(GatewayError::unsupported(cur)));
    }
}

#[test]
fn unsupported_error_names_the_currency() {
    let reg: Registry<MockConnector> = Registry::new();
    assert_eq!(
        reg.get(Currency::ETH).err(),
        Some(GatewayError::Unknown("no connector for ETH".to_string()))
    );
}

#[test]
fn one_registration_binds_one_currency() {
    let reg = Registry::new().with(MockConnector { cur: Currency::BTC });
    assert_eq!(reg.get(Currency::BTC).unwrap().currency(), Currency::BTC);
    assert_eq!(reg.get(Currency::ETH).err(), Some(GatewayError::unsupported(Currency::ETH)));
    assert!(reg.get(Currency::SOL).is_err());
    assert!(reg.get(Currency::SUI).is_err());
    assert!(reg.get(Currency::XRP).is_err());
}

#[test]
fn every_currency_can_be_bound() {
    let mut reg: Registry<MockConnector> = Registry::new();
    for cur in ALL {
        reg = reg.with(MockConnector { cur });
    }
    for cur in ALL {
        assert_eq!(reg.get(cur).unwrap().cur, cur);
    }
}

#[derive(Debug)]
struct Tagged {
    cur: Currency,
    tag: u32,
}

impl Connector for Tagged {
    fn spec_currency(&self) -> Currency {
        self.cur
    }

    fn currency(&self) -> Currency {
        self.cur
    }

    fn validate_address(&self, _addr: &str) -> Result<bool, GatewayError> {
        Err(GatewayError::Network("offline".to_string()))
    }

    fn new_deposit_address(
        &self,
    ) -> Result<gateway_core::common::Address, GatewayError> {
        Err(GatewayError::NotImplemented)
    }

    fn create_payment_request(
        &self,
        _amount: gateway_core::common::Amount,
    ) -> Result<(gateway_core::common::Address, String), GatewayError> {
        Err(GatewayError::NotImplemented)
    }

    fn tx_status(
        &self,
        _tx: &gateway_core::common::TxId,
    ) -> Result<gateway_core::common::TxStatus, GatewayError> {
        Err(GatewayError::NotImplemented)
    }

    fn balance(
        &self,
        _addr: &gateway_core::common::Address,
    ) -> Result<gateway_core::common::Amount, GatewayError> {
        Err(GatewayError::NotImplemented)
    }

    fn send(
        &self,
        _from: &str,
        _to: &gateway_core::common::Address,
        _amount: gateway_core::common::Amount,
    ) -> Result<gateway_core::common::TxId, GatewayError> {
        Err(GatewayError::Unknown("offline".to_string()))
    }
}

#[test]
fn later_registration_replaces_the_earlier() {
    let reg = Registry::new()
        .with(Tagged { cur: Currency::BTC, tag: 1 })
        .with(Tagged { cur: Currency::ETH, tag: 2 })
        .with(Tagged { cur: Currency::BTC, tag: 3 });
    assert_eq!(reg.get(Currency::BTC).unwrap().tag, 3);
    assert_eq!(reg.get(Currency::ETH).unwrap().tag, 2);
    assert!(reg.get(Currency::SOL).is_err());
}
