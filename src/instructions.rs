use vstd::prelude::*;

use crate::error::StakingError;
use crate::rules::{
    add_stake_check, add_stake_step, init_config_step, lemma_add_stake_keeps_inv,
    lemma_init_config_keeps_inv, lemma_register_user_keeps_inv, lemma_remove_stake_keeps_inv,
    register_user_step, remove_stake_check, remove_stake_step,
};
use crate::state::{Address, Config, Registry, Stake, User};

verus! {

/// The parameters of a new configuration.
#[derive(Clone, Copy, Debug, PartialEq, Eq, Structural)]
pub struct InitConfigArgs {
    pub points_per_stake: u8,
    pub max_stake: u8,
    pub freeze_period: i64,
}

/// A request to create the configuration, signed by `admin`.
#[derive(Clone, Copy, Debug, PartialEq, Eq, Structural)]
pub struct InitConfig {
    pub admin: Address,
}

/// A request to open an account, signed by `authority`.
#[derive(Clone, Copy, Debug, PartialEq, Eq, Structural)]
pub struct RegisterUser {
    pub authority: Address,
}

/// A request by `authority` to stake asset `mint` at ledger time `now`.
///
/// `collection_verified` is the attestation that the asset is a verified
/// member of the expected collection. `custody_granted` tells whether the
/// custody subsystem delegated one unit of the holding to the stake record
/// and froze it.
#[derive(Clone, Copy, Debug, PartialEq, Eq, Structural)]
pub struct AddStake {
    pub authority: Address,
    pub mint: Address,
    pub now: i64,
    pub collection_verified: bool,
    pub custody_granted: bool,
}

/// A request by `authority` to release asset `mint` at ledger time `now`.
///
/// `custody_released` tells whether the custody subsystem thawed the holding
/// and revoked the stake record's delegation.
#[derive(Clone, Copy, Debug, PartialEq, Eq, Structural)]
pub struct RemoveStake {
    pub authority: Address,
    pub mint: Address,
    pub now: i64,
    pub custody_released: bool,
}

impl InitConfig {
    /// Creates the registry's configuration from `args`, with the caller as
    /// administrator; refused with `AlreadyInitialized` if one exists.
    pub fn init_config(&self, registry: &mut Registry, args: InitConfigArgs) -> (r: Result<
        (),
        StakingError,
    >)
        requires
            old(registry).wf(),
        ensures
            final(registry).wf(),
            (final(registry)@, r) == init_config_step(old(registry)@, *self, args),
    {
        if registry.config().is_some() {
            return Err(StakingError::AlreadyInitialized);
        }
        let ghost s0 = registry@;
        proof {
            registry.lemma_wf_inv();
            registry.lemma_wf_consistent();
            lemma_init_config_keeps_inv(s0, *self, args);
        }
        registry.set_config(
            Config {
                points_per_stake: args.points_per_stake,
                max_stake: args.max_stake,
                freeze_period: args.freeze_period,
                admin: self.admin,
            },
        );
        proof {
            registry.lemma_wf_from_inv();
        }
        Ok(())
    }
}

impl RegisterUser {
    /// Opens an account for the caller with no points and no stakes; refused
    /// with `AlreadyRegistered` if the caller has one.
    pub fn register_user(&self, registry: &mut Registry) -> (r: Result<(), StakingError>)
        requires
            old(registry).wf(),
        ensures
            final(registry).wf(),
            (final(registry)@, r) == register_user_step(old(registry)@, *self),
    {
        if registry.user(self.authority).is_some() {
            return Err(StakingError::AlreadyRegistered);
        }
        let ghost s0 = registry@;
        proof {
            registry.lemma_wf_inv();
            registry.lemma_wf_consistent();
            lemma_register_user_keeps_inv(s0, *self);
        }
        registry.insert_user(User { owner: self.authority, points: 0, amount_staked: 0 });
        proof {
            registry.lemma_wf_from_inv();
        }
        Ok(())
    }
}

impl AddStake {
    /// Decides whether the stake may begin, before custody is asked for.
    pub fn validate(&self, registry: &Registry) -> (r: Result<(), StakingError>)
        requires
            registry.wf(),
        ensures
            r == add_stake_check(registry@, *self),
    {
        if registry.stake(self.mint).is_some() {
            return Err(StakingError::StakeAlreadyExists);
        }
        let user = match registry.user(self.authority) {
            Some(u) => u,
            None => { return Err(StakingError::NotRegistered); },
        };
        let config = match registry.config() {
            Some(c) => c,
            None => { return Err(StakingError::NotInitialized); },
        };
        if !self.collection_verified {
            return Err(StakingError::InvalidCollection);
        }
        if user.amount_staked >= config.max_stake {
            return Err(StakingError::MaxStakeLimitReached);
        }
        Ok(())
    }

    /// Begins the stake: records the asset with start time `now` and gives
    /// the caller one more active stake. Refused, with nothing changed, when
    /// a check fails or custody was not granted.
    pub fn add_stake(&self, registry: &mut Registry) -> (r: Result<(), StakingError>)
        requires
            old(registry).wf(),
        ensures
            final(registry).wf(),
            (final(registry)@, r) == add_stake_step(old(registry)@, *self),
    {
        match self.validate(registry) {
            Err(e) => { return Err(e); },
            Ok(_) => {},
        }
        if !self.custody_granted {
            return Err(StakingError::CustodyDelegationFailed);
        }
        let ghost s0 = registry@;
        proof {
            registry.lemma_wf_inv();
            registry.lemma_wf_consistent();
            lemma_add_stake_keeps_inv(s0, *self);
        }
        let user = registry.user(self.authority).unwrap();
        registry.update_user(User { amount_staked: user.amount_staked + 1, ..user });
        registry.insert_stake(Stake { start_stake: self.now, authority: self.authority, mint: self.mint });
        proof {
            registry.lemma_wf_from_inv();
        }
        Ok(())
    }
}

impl RemoveStake {
    /// Decides whether the stake may end, before custody is asked for.
    pub fn validate(&self, registry: &Registry) -> (r: Result<(), StakingError>)
        requires
            registry.wf(),
        ensures
            r == remove_stake_check(registry@, *self),
    {
        let stake = match registry.stake(self.mint) {
            Some(st) => st,
            None => { return Err(StakingError::StakeNotFound); },
        };
        if stake.authority != self.authority {
            return Err(StakingError::Unauthorized);
        }
        let user = match registry.user(self.authority) {
            Some(u) => u,
            None => { return Err(StakingError::NotRegistered); },
        };
        let config = match registry.config() {
            Some(c) => c,
            None => { return Err(StakingError::NotInitialized); },
        };
        if (self.now as i128) - (stake.start_stake as i128) < config.freeze_period as i128 {
            return Err(StakingError::FreezePeriodNotOver);
        }
        if user.amount_staked == 0 {
            return Err(StakingError::ArithmeticOverflow);
        }
        if user.points.checked_add(config.points_per_stake as u32).is_none() {
            return Err(StakingError::ArithmeticOverflow);
        }
        Ok(())
    }

    /// Ends the stake: the caller has one active stake less and the
    /// configured points more, and the asset's record is deleted. Refused,
    /// with nothing changed, when a check fails or custody was not released.
    pub fn remove_stake(&self, registry: &mut Registry) -> (r: Result<(), StakingError>)
        requires
            old(registry).wf(),
        ensures
            final(registry).wf(),
            (final(registry)@, r) == remove_stake_step(old(registry)@, *self),
    {
        match self.validate(registry) {
            Err(e) => { return Err(e); },
            Ok(_) => {},
        }
        if !self.custody_released {
            return Err(StakingError::CustodyDelegationFailed);
        }
        let ghost s0 = registry@;
        proof {
            registry.lemma_wf_inv();
            registry.lemma_wf_consistent();
            lemma_remove_stake_keeps_inv(s0, *self);
        }
        let user = registry.user(self.authority).unwrap();
        let config = registry.config().unwrap();
        registry.update_user(
            User {
                amount_staked: user.amount_staked - 1,
                points: user.points + config.points_per_stake as u32,
                ..user
            },
        );
        registry.remove_stake_record(self.mint);
        proof {
            registry.lemma_wf_from_inv();
        }
        Ok(())
    }
}

} // verus!
