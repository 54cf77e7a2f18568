//! Error taxonomy: wallet-level, transaction-level and configuration
//! errors, and the top-level error that unifies them with RPC failures.
//! Local validation errors are distinguished from failures reported by the
//! external wallet service so that callers can tell a protocol violation
//! from a transport problem.

use vstd::prelude::*;

verus! {

/// Errors specific to wallet setup and key exchange operations.
#[derive(Debug, Clone)]
pub enum WalletError {
    /// The requested multisig parameters are invalid; carries a description.
    InvalidParams(String),
    /// No wallet record exists at the named directory.
    NotFound(String),
    /// A wallet record already exists at the named directory, or the wallet
    /// is already fully set up; carries a description.
    AlreadyExists(String),
    /// The external service failed a key exchange round; carries its message.
    KeyExchangeFailed(String),
    /// The wallet has not completed key exchange, so transaction
    /// operations are not available.
    NotReady,
}

/// Errors specific to transaction construction, signing and submission.
#[derive(Debug, Clone)]
pub enum TransactionError {
    /// The wallet cannot cover the requested amount.
    InsufficientBalance { need: u64, have: u64 },
    /// The destination address failed validation; carries a description.
    InvalidAddress(String),
    /// Signing failed or the signature count could not be determined.
    SigningFailed(String),
    /// Fewer co-signatures have been collected than the quorum requires.
    InsufficientSignatures { have: u32, need: u32 },
    /// The network daemon rejected the transaction; carries its message.
    Rejected(String),
}

/// Errors from loading or decoding configuration and persisted records.
#[derive(Debug, Clone)]
pub enum ConfigError {
    /// A file could not be read; carries a description.
    ReadError(String),
    /// A record exists but cannot be decoded; carries a description.
    ParseError(String),
    /// A required field is absent; carries its name.
    MissingField(String),
}

/// Top-level error type for the multisig wallet tool.
#[derive(Debug, Clone)]
pub enum MultisigError {
    /// A wallet setup or key exchange error.
    Wallet(WalletError),
    /// A transaction construction, signing or submission error.
    Transaction(TransactionError),
    /// A configuration or persisted-record error.
    Config(ConfigError),
    /// A transport or application-level failure reported by the external
    /// wallet service; carries the failure message.
    Rpc(String),
    /// Any other failure; carries a description.
    Other(String),
}

} // verus!
