//! Value types shared by every component of the gateway.

use vstd::prelude::*;
use vstd::string::StringExecFns;

verus! {

/// The chains the gateway can serve. The set is closed.
#[derive(Debug, Clone, Copy, PartialEq, Eq, Hash, Structural)]
pub enum Currency {
    BTC,
    ETH,
    SOL,
    SUI,
    XRP,
}

impl Currency {
    /// Position of the currency in the declaration order.
    pub open spec fn spec_index(self) -> u8 {
        match self {
            Currency::BTC => 0,
            Currency::ETH => 1,
            Currency::SOL => 2,
            Currency::SUI => 3,
            Currency::XRP => 4,
        }
    }

    /// The uppercase token that stands for the currency in text.
    pub open spec fn spec_code(self) -> Seq<char> {
        match self {
            Currency::BTC => seq!['B', 'T', 'C'],
            Currency::ETH => seq!['E', 'T', 'H'],
            Currency::SOL => seq!['S', 'O', 'L'],
            Currency::SUI => seq!['S', 'U', 'I'],
            Currency::XRP => seq!['X', 'R', 'P'],
        }
    }

    /// Position of the currency in the declaration order; distinct
    /// currencies have distinct positions.
    #[verifier::when_used_as_spec(spec_index)]
    pub fn index(self) -> (i: u8)
        ensures
            i == self.spec_index(),
            i < 5,
    {
        match self {
            Currency::BTC => 0,
            Currency::ETH => 1,
            Currency::SOL => 2,
            Currency::SUI => 3,
            Currency::XRP => 4,
        }
    }

    /// The uppercase token that stands for the currency in text.
    pub fn code(self) -> (s: &'static str)
        ensures
            s@ == self.spec_code(),
    {
        proof {
            reveal_strlit("BTC");
            reveal_strlit("ETH");
            reveal_strlit("SOL");
            reveal_strlit("SUI");
            reveal_strlit("XRP");
        }
        let s = match self {
            Currency::BTC => "BTC",
            Currency::ETH => "ETH",
            Currency::SOL => "SOL",
            Currency::SUI => "SUI",
            Currency::XRP => "XRP",
        };
        assert(s@ =~= self.spec_code());
        s
    }
}

/// A double-precision number carried by its bit pattern.
///
/// The gateway stores, selects and forwards such numbers; it never does
/// arithmetic on them. Equality is equality of bit patterns.
#[derive(Debug, Clone, Copy, PartialEq, Eq, Structural)]
pub struct Scalar {
    pub bits: u64,
}

/// The bit that carries the sign of a [`Scalar`].
pub const SIGN_BIT: u64 = 0x8000_0000_0000_0000;

/// The magnitude bits of positive infinity; every larger magnitude is not a
/// number.
pub const INFINITY_BITS: u64 = 0x7FF0_0000_0000_0000;

impl Scalar {
    /// The bit pattern without its sign.
    pub open spec fn magnitude(self) -> int {
        if self.bits >= SIGN_BIT {
            self.bits - SIGN_BIT
        } else {
            self.bits as int
        }
    }

    /// Whether the pattern encodes no number at all.
    pub open spec fn is_nan(self) -> bool {
        self.magnitude() > INFINITY_BITS
    }

    /// Whether the number is zero or below: either zero of either sign, or a
    /// negative number, negative infinity included. What is not a number is
    /// not below zero.
    pub open spec fn spec_is_nonpositive(self) -> bool {
        !self.is_nan() && (self.magnitude() == 0 || self.bits >= SIGN_BIT)
    }

    /// Whether the number is zero or below.
    #[verifier::when_used_as_spec(spec_is_nonpositive)]
    pub fn is_nonpositive(self) -> (b: bool)
        ensures
            b == self.spec_is_nonpositive(),
    {
        let negative = self.bits >= SIGN_BIT;
        let magnitude = if negative {
            self.bits - SIGN_BIT
        } else {
            self.bits
        };
        magnitude <= INFINITY_BITS && (magnitude == 0 || negative)
    }
}

/// A quantity of one currency. Nothing ties the value to the currency but
/// the caller's care.
#[derive(Debug, Clone, PartialEq, Eq)]
pub struct Amount {
    pub value: Scalar,
    pub currency: Currency,
}

/// A receiving address on one chain. Its text is opaque to the gateway.
#[derive(Debug, Clone, PartialEq, Eq)]
pub struct Address {
    pub address: String,
    pub currency: Currency,
}

/// The identifier a chain gave to a transaction.
#[derive(Debug, Clone, PartialEq, Eq)]
pub struct TxId(pub String);

/// What a connector saw of a transaction at the moment it was asked.
#[derive(Debug, Clone, PartialEq, Eq)]
pub enum TxStatus {
    Pending,
    Confirmed(u32),
    Failed(String),
}

/// A merchant account. Distinct texts are distinct clients.
#[derive(Debug, Clone, PartialEq, Eq, Hash)]
pub struct ClientId(pub String);

/// Every way an operation of the gateway can fail.
#[derive(Debug, Clone, PartialEq, Eq)]
pub enum GatewayError {
    InvalidAddress(String),
    Network(String),
    NotImplemented,
    Unknown(String),
}

impl GatewayError {
    /// The text of the error: a fixed prefix for its kind, then the detail.
    pub open spec fn spec_message(self) -> Seq<char> {
        match self {
            GatewayError::InvalidAddress(d) => "invalid address: "@ + d@,
            GatewayError::Network(d) => "network error: "@ + d@,
            GatewayError::NotImplemented => "not implemented"@,
            GatewayError::Unknown(d) => "unknown: "@ + d@,
        }
    }

    /// The text of an unknown-kind error that reports a currency without a
    /// connector.
    pub open spec fn unsupported_detail(cur: Currency) -> Seq<char> {
        "no connector for "@ + cur.spec_code()
    }

    /// Whether the error reports that `cur` has no connector.
    pub open spec fn is_unsupported(self, cur: Currency) -> bool {
        self matches GatewayError::Unknown(d) && d@ == Self::unsupported_detail(cur)
    }

    /// The text of the error.
    pub fn message(&self) -> (s: String)
        ensures
            s@ == self.spec_message(),
    {
        match self {
            GatewayError::InvalidAddress(d) => String::from_str("invalid address: ").concat(
                d.as_str(),
            ),
            GatewayError::Network(d) => String::from_str("network error: ").concat(d.as_str()),
            GatewayError::NotImplemented => String::from_str("not implemented"),
            GatewayError::Unknown(d) => String::from_str("unknown: ").concat(d.as_str()),
        }
    }

    /// The error for a currency that no connector serves.
    pub fn unsupported(cur: Currency) -> (e: GatewayError)
        ensures
            e.is_unsupported(cur),
    {
        GatewayError::Unknown(String::from_str("no connector for ").concat(cur.code()))
    }
}

} // verus!
