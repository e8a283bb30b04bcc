use vstd::prelude::*;

verus! {

/// Why an operation on the registry was refused.
#[derive(Clone, Copy, Debug, PartialEq, Eq, Structural)]
pub enum StakingError {
    /// The participant already holds as many stakes as the configuration allows.
    MaxStakeLimitReached,
    /// The stake has not been held for the minimum lock duration yet.
    FreezePeriodNotOver,
    /// The configuration has already been created.
    AlreadyInitialized,
    /// The participant already has an account.
    AlreadyRegistered,
    /// No configuration has been created yet.
    NotInitialized,
    /// The participant has no account.
    NotRegistered,
    /// A stake record already exists for the asset.
    StakeAlreadyExists,
    /// No stake record exists for the asset.
    StakeNotFound,
    /// The caller is not the owner of the stake record.
    Unauthorized,
    /// The asset is not a verified member of the expected collection.
    InvalidCollection,
    /// The custody subsystem refused to delegate, freeze, thaw or revoke.
    CustodyDelegationFailed,
    /// A counter would leave the range of its type.
    ArithmeticOverflow,
}

impl StakingError {
    /// A short human-readable description of the error.
    pub fn message(&self) -> (r: &'static str) {
        match self {
            StakingError::MaxStakeLimitReached => "Max stake limit reached",
            StakingError::FreezePeriodNotOver => "Freeze period not over",
            StakingError::AlreadyInitialized => "Configuration already initialized",
            StakingError::AlreadyRegistered => "Participant already registered",
            StakingError::NotInitialized => "Configuration not initialized",
            StakingError::NotRegistered => "Participant not registered",
            StakingError::StakeAlreadyExists => "Stake record already exists for this asset",
            StakingError::StakeNotFound => "No stake record for this asset",
            StakingError::Unauthorized => "Caller does not own this stake",
            StakingError::InvalidCollection => "Asset is not a verified collection member",
            StakingError::CustodyDelegationFailed => "Custody delegation failed",
            StakingError::ArithmeticOverflow => "Arithmetic overflow",
        }
    }
}

} // verus!
