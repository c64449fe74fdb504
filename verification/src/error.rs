//! Errors of the contract, with the text each one reads as.
use vstd::prelude::*;
use crate::text::{decimal, u128_to_decimal, u64_to_decimal};

verus! {

/// The arithmetic operation that overflowed.
#[derive(Debug, Clone, Copy, PartialEq, Eq)]
pub enum OverflowOperation {
    Add,
    Sub,
    Mul,
    Pow,
    Shr,
    Shl,
}

/// The standard errors that the contract's storage and arithmetic report.
#[derive(Debug, Clone, PartialEq, Eq)]
pub enum StdError {
    /// Whenever there is no specific error type available
    GenericErr { msg: String },
    /// UTF-8 bytes could not be decoded into a string.
    InvalidUtf8 { msg: String },
    /// A value was looked up and is not stored.
    NotFound { kind: String },
    /// Bytes could not be parsed into a value of `target_type`.
    ParseErr { target_type: String, msg: String },
    /// A value of `source_type` could not be serialized.
    SerializeErr { source_type: String, msg: String },
    /// An arithmetic operation on two amounts overflowed.
    Overflow { operation: OverflowOperation, operand1: String, operand2: String },
}

/// Errors in the funds that come with a message.
#[derive(Debug, Clone, PartialEq, Eq)]
pub enum PaymentError {
    MissingDenom(String),
    ExtraDenom(String),
    MultipleDenoms {},
    NoFunds {},
    NonPayable {},
}

/// The errors of the contract.
#[derive(Debug, Clone, PartialEq, Eq)]
pub enum ContractError {
    Std(StdError),
    Payment(PaymentError),
    NoSuchChannel { id: String },
    NoFunds {},
    AmountOverflow {},
    InvalidIbcVersion { version: String },
    OnlyOrderedChannel {},
    InsufficientFunds {},
    NoForeignTokens {},
    FromOtherPort { port: String },
    FromOtherChannel { channel: String },
    CannotMigrate { previous_contract: String },
    UnknownReplyId { id: u64 },
    InvalidPacket {},
    InvalidCoin {},
    NotAnIcaChan { channel_id: String },
}

/// Kinds of errors.
#[derive(Clone, Debug, PartialEq, Eq)]
pub enum Error {
    /// Invalid account.
    AccountId {
        /// Malformed account ID
        id: String,
    },
    /// Cryptographic errors.
    Crypto,
    /// Invalid decimal value.
    Decimal {
        /// Invalid decimal value
        value: String,
    },
    /// Invalid denomination.
    Denom {
        /// Invalid name
        name: String,
    },
    /// Protobuf is missing a field.
    MissingField {
        /// Name of the missing field
        name: &'static str,
    },
    /// Unexpected message type.
    MsgType {
        /// Expected type URL.
        expected: &'static str,
        /// Actual type URL found in the `Any` message.
        found: String,
    },
    /// Invalid proto enum value.
    InvalidEnumValue {
        /// Name of the enum field
        name: &'static str,
        /// Actual value of the field found
        found_value: i32,
    },
}

/// The name of an overflowing operation.
pub open spec fn operation_name(op: OverflowOperation) -> Seq<char> {
    match op {
        OverflowOperation::Add => "Add"@,
        OverflowOperation::Sub => "Sub"@,
        OverflowOperation::Mul => "Mul"@,
        OverflowOperation::Pow => "Pow"@,
        OverflowOperation::Shr => "Shr"@,
        OverflowOperation::Shl => "Shl"@,
    }
}

/// The text of a standard error.
pub open spec fn std_error_text(e: StdError) -> Seq<char> {
    match e {
        StdError::GenericErr { msg } => "Generic error: "@ + msg@,
        StdError::InvalidUtf8 { msg } => "Cannot decode UTF8 bytes into string: "@ + msg@,
        StdError::NotFound { kind } => kind@ + " not found"@,
        StdError::ParseErr { target_type, msg } => "Error parsing into type "@ + target_type@ + ": "@
            + msg@,
        StdError::SerializeErr { source_type, msg } => "Error serializing type "@ + source_type@
            + ": "@ + msg@,
        StdError::Overflow { operation, operand1, operand2 } => "Overflow: Cannot "@
            + operation_name(operation) + " with "@ + operand1@ + " and "@ + operand2@,
    }
}

/// The text of a payment error.
pub open spec fn payment_error_text(e: PaymentError) -> Seq<char> {
    match e {
        PaymentError::MissingDenom(d) => "Must send reserve token '"@ + d@ + "'"@,
        PaymentError::ExtraDenom(d) => "Received unsupported denom '"@ + d@ + "'"@,
        PaymentError::MultipleDenoms {  } => "Sent more than one denomination"@,
        PaymentError::NoFunds {  } => "No funds sent"@,
        PaymentError::NonPayable {  } => "This message does no accept funds"@,
    }
}

/// The text of a contract error, as it appears in acknowledgements and attributes.
pub open spec fn contract_error_text(e: ContractError) -> Seq<char> {
    match e {
        ContractError::Std(s) => std_error_text(s),
        ContractError::Payment(p) => payment_error_text(p),
        ContractError::NoSuchChannel { id } => "Channel doesn't exist: "@ + id@,
        ContractError::NoFunds {  } => "Didn't send any funds"@,
        ContractError::AmountOverflow {  } => "Amount larger than 2**64, not supported by ics20 packets"@,
        ContractError::InvalidIbcVersion { version } => "Only supports channel with ibc version ics20-1, got "@
            + version@,
        ContractError::OnlyOrderedChannel {  } => "Only supports unordered channel"@,
        ContractError::InsufficientFunds {  } => "Insufficient funds to redeem voucher on channel"@,
        ContractError::NoForeignTokens {  } => "Only accepts tokens that originate on this chain, not native tokens of remote chain"@,
        ContractError::FromOtherPort { port } => "Parsed port from denom ("@ + port@
            + ") doesn't match packet"@,
        ContractError::FromOtherChannel { channel } => "Parsed channel from denom ("@ + channel@
            + ") doesn't match packet"@,
        ContractError::CannotMigrate { previous_contract } => "Cannot migrate from different contract type: "@
            + previous_contract@,
        ContractError::UnknownReplyId { id } => "Got a submessage reply with unknown id: "@ + decimal(
            id as nat,
        ),
        ContractError::InvalidPacket {  } => "Invalid packet"@,
        ContractError::InvalidCoin {  } => "Invalid coin"@,
        ContractError::NotAnIcaChan { channel_id } => "Not an interchain account channel: "@ + channel_id@,
    }
}

fn text(s: &str) -> (r: String)
    ensures
        r@ == s@,
{
    String::from_str(s)
}

impl OverflowOperation {
    /// The name of the operation.
    pub fn name(&self) -> (r: String)
        ensures
            r@ == operation_name(*self),
    {
        match self {
            OverflowOperation::Add => text("Add"),
            OverflowOperation::Sub => text("Sub"),
            OverflowOperation::Mul => text("Mul"),
            OverflowOperation::Pow => text("Pow"),
            OverflowOperation::Shr => text("Shr"),
            OverflowOperation::Shl => text("Shl"),
        }
    }
}

impl StdError {
    /// The error for subtracting `operand2` from `operand1` when it does not fit.
    pub fn sub_overflow(operand1: u128, operand2: u128) -> (r: StdError)
        ensures
            r matches StdError::Overflow { operation, operand1: a, operand2: b } && operation
                == OverflowOperation::Sub && a@ == decimal(operand1 as nat) && b@ == decimal(
                operand2 as nat,
            ),
    {
        StdError::Overflow {
            operation: OverflowOperation::Sub,
            operand1: u128_to_decimal(operand1),
            operand2: u128_to_decimal(operand2),
        }
    }

    /// The error for a value of `kind` that is not stored.
    pub fn not_found(kind: &str) -> (r: StdError)
        ensures
            r matches StdError::NotFound { kind: k } && k@ == kind@,
    {
        StdError::NotFound { kind: text(kind) }
    }

    /// The text of the error.
    pub fn message(&self) -> (r: String)
        ensures
            r@ == std_error_text(*self),
    {
        match self {
            StdError::GenericErr { msg } => text("Generic error: ").concat(msg.as_str()),
            StdError::InvalidUtf8 { msg } => text("Cannot decode UTF8 bytes into string: ").concat(
                msg.as_str(),
            ),
            StdError::NotFound { kind } => text(kind.as_str()).concat(" not found"),
            StdError::ParseErr { target_type, msg } => text("Error parsing into type ").concat(
                target_type.as_str(),
            ).concat(": ").concat(msg.as_str()),
            StdError::SerializeErr { source_type, msg } => text("Error serializing type ").concat(
                source_type.as_str(),
            ).concat(": ").concat(msg.as_str()),
            StdError::Overflow { operation, operand1, operand2 } => {
                let op = operation.name();
                text("Overflow: Cannot ").concat(op.as_str()).concat(" with ").concat(
                    operand1.as_str(),
                ).concat(" and ").concat(operand2.as_str())
            },
        }
    }
}

impl PaymentError {
    /// The text of the error.
    pub fn message(&self) -> (r: String)
        ensures
            r@ == payment_error_text(*self),
    {
        match self {
            PaymentError::MissingDenom(d) => text("Must send reserve token '").concat(d.as_str()).concat(
                "'",
            ),
            PaymentError::ExtraDenom(d) => text("Received unsupported denom '").concat(d.as_str()).concat(
                "'",
            ),
            PaymentError::MultipleDenoms {  } => text("Sent more than one denomination"),
            PaymentError::NoFunds {  } => text("No funds sent"),
            PaymentError::NonPayable {  } => text("This message does no accept funds"),
        }
    }
}

impl ContractError {
    /// The text of the error, as it appears in acknowledgements and attributes.
    pub fn message(&self) -> (r: String)
        ensures
            r@ == contract_error_text(*self),
    {
        match self {
            ContractError::Std(s) => s.message(),
            ContractError::Payment(p) => p.message(),
            ContractError::NoSuchChannel { id } => text("Channel doesn't exist: ").concat(id.as_str()),
            ContractError::NoFunds {  } => text("Didn't send any funds"),
            ContractError::AmountOverflow {  } => text(
                "Amount larger than 2**64, not supported by ics20 packets",
            ),
            ContractError::InvalidIbcVersion { version } => text(
                "Only supports channel with ibc version ics20-1, got ",
            ).concat(version.as_str()),
            ContractError::OnlyOrderedChannel {  } => text("Only supports unordered channel"),
            ContractError::InsufficientFunds {  } => text(
                "Insufficient funds to redeem voucher on channel",
            ),
            ContractError::NoForeignTokens {  } => text(
                "Only accepts tokens that originate on this chain, not native tokens of remote chain",
            ),
            ContractError::FromOtherPort { port } => text("Parsed port from denom (").concat(
                port.as_str(),
            ).concat(") doesn't match packet"),
            ContractError::FromOtherChannel { channel } => text("Parsed channel from denom (").concat(
                channel.as_str(),
            ).concat(") doesn't match packet"),
            ContractError::CannotMigrate { previous_contract } => text(
                "Cannot migrate from different contract type: ",
            ).concat(previous_contract.as_str()),
            ContractError::UnknownReplyId { id } => {
                let n = u64_to_decimal(*id);
                text("Got a submessage reply with unknown id: ").concat(n.as_str())
            },
            ContractError::InvalidPacket {  } => text("Invalid packet"),
            ContractError::InvalidCoin {  } => text("Invalid coin"),
            ContractError::NotAnIcaChan { channel_id } => text(
                "Not an interchain account channel: ",
            ).concat(channel_id.as_str()),
        }
    }
}

} // verus!
