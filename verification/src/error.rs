use vstd::prelude::*;

verus! {

/// Failure codes of the custody module, one per rule that an instruction can break.
#[derive(Clone, Copy, Debug, PartialEq, Eq, Structural)]
pub enum BridgeError {
    /// Caller is not authorized to perform this action.
    Unauthorized,
    /// The bridge is currently paused.
    BridgePaused,
    /// The supplied nonce does not match the targeted lock record.
    InvalidNonce,
    /// Fewer matching validator signatures than the configured threshold.
    ThresholdNotMet,
    /// The config storage already exists.
    AlreadyInitialized,
    /// Arithmetic overflow in fee or amount math.
    Overflow,
    /// The targeted storage was not created by this module.
    IncorrectOwner,
    /// The targeted storage is not writable.
    AccountNotWritable,
    /// A required signer did not sign.
    MissingRequiredSignature,
    /// Fee basis points above 10000.
    InvalidFee,
    /// The lock record is not in the status this operation needs.
    InvalidStatus,
    /// Balance too small, zero amount, or wrong token for this vault.
    InsufficientFunds,
    /// Destination chain id outside the supported range.
    InvalidDestination,
    /// A derived custody address does not match the supplied one.
    InvalidPDA,
    /// The lock record was already released.
    AlreadyUnlocked,
}

/// What a custody instruction can fail with: a bridge rule, or a malformed
/// payload or argument that never reaches the rules.
#[derive(Clone, Copy, Debug, PartialEq, Eq, Structural)]
pub enum VaultError {
    /// A bridge rule failed.
    Custom(BridgeError),
    /// The instruction payload could not be decoded.
    InvalidInstructionData,
    /// An argument is outside its allowed range.
    InvalidArgument,
    /// Referenced storage holds no decodable value.
    InvalidAccountData,
}

/// Failures of the off-chain relay pipeline.
#[derive(Debug)]
pub enum RelayerError {
    ConfigError(String),
    DatabaseError(String),
    SolanaRpcError(String),
    EthereumRpcError(String),
    InvalidSignature(String),
    InsufficientSignatures { expected: usize, got: usize },
    TransactionAlreadyProcessed(u64),
    TransactionSubmissionFailed(String),
    InvalidChain(String),
    SerializationError(String),
    ParseError(String),
    NetworkError(String),
    TimeoutError,
    Unknown(String),
}

} // verus!
