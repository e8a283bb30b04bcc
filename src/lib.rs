//! A custodial staking registry for non-fungible assets.
//!
//! Participants lock an asset for a minimum duration and accrue points when
//! they release it. The registry holds one configuration, one account per
//! participant and one stake record per staked asset; every operation either
//! applies completely or leaves the registry untouched.
//!
//! `rules` states each operation as a transition of the abstract state,
//! `instructions` carries the operations out on a `Registry`, and `laws`
//! proves what holds across operations.
pub mod error;
pub mod instructions;
pub mod laws;
pub mod nft_staking;
pub mod rules;
pub mod state;

pub use error::StakingError;
pub use instructions::{AddStake, InitConfig, InitConfigArgs, RegisterUser, RemoveStake};
pub use state::{Address, Config, Registry, Stake, User};
