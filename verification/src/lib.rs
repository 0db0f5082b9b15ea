//! Orchestration core of a multi-chain payment gateway.
//!
//! The crate holds the connector capability contract, the registry that maps
//! a currency to its connector, the fee engine with its trailing 30-day
//! transaction window, and the gateway that sequences the three.
//!
//! Amounts and rates are double-precision numbers. The crate carries them by
//! their bit patterns ([`common::Scalar`]) and does no arithmetic on them:
//! it decides which tier applies, and leaves the product of amount and rate
//! to its caller.

pub mod common;
pub mod config;
pub mod connector;
pub mod engine;
pub mod gateway;
pub mod ledger;
pub mod mock;
pub mod registry;
pub mod text;
pub mod tier_text;

pub use common::{Address, Amount, ClientId, Currency, GatewayError, Scalar, TxId, TxStatus};
pub use config::{FeeConfig, FeeTier};
pub use connector::Connector;
pub use engine::FeeEngine;
pub use gateway::Gateway;
pub use ledger::TxLog;
pub use mock::MockConnector;
pub use registry::Registry;
