use vstd::prelude::*;

use crate::error::StakingError;
use crate::instructions::{AddStake, InitConfig, InitConfigArgs, RegisterUser, RemoveStake};
use crate::state::{owned_by, Address, Config, RegistryModel, Stake, User};

verus! {

/// Creating the configuration: refused once one exists; otherwise it records
/// the parameters and the administrator.
pub open spec fn init_config_step(s: RegistryModel, ctx: InitConfig, args: InitConfigArgs) -> (
    RegistryModel,
    Result<(), StakingError>,
) {
    if s.config is Some {
        (s, Err(StakingError::AlreadyInitialized))
    } else {
        let c = Config {
            points_per_stake: args.points_per_stake,
            max_stake: args.max_stake,
            freeze_period: args.freeze_period,
            admin: ctx.admin,
        };
        (RegistryModel { config: Some(c), ..s }, Ok(()))
    }
}

/// The account that registration opens: no points and no stakes.
pub open spec fn fresh_user(owner: Address) -> User {
    User { owner, points: 0, amount_staked: 0 }
}

/// Opening an account: refused when the participant has one; otherwise the
/// participant gets a fresh account.
pub open spec fn register_user_step(s: RegistryModel, ctx: RegisterUser) -> (
    RegistryModel,
    Result<(), StakingError>,
) {
    if s.users.contains_key(ctx.authority) {
        (s, Err(StakingError::AlreadyRegistered))
    } else {
        (
            RegistryModel { users: s.users.insert(ctx.authority, fresh_user(ctx.authority)), ..s },
            Ok(()),
        )
    }
}

/// Whether a stake may begin, before custody is asked for, and if not why:
/// the asset must have no record, the caller an account, the registry a
/// configuration, the asset a verified collection, and the caller room for
/// one more stake.
pub open spec fn add_stake_check(s: RegistryModel, ctx: AddStake) -> Result<(), StakingError> {
    if s.stakes.contains_key(ctx.mint) {
        Err(StakingError::StakeAlreadyExists)
    } else if !s.users.contains_key(ctx.authority) {
        Err(StakingError::NotRegistered)
    } else if s.config is None {
        Err(StakingError::NotInitialized)
    } else if !ctx.collection_verified {
        Err(StakingError::InvalidCollection)
    } else if s.users[ctx.authority].amount_staked >= s.config->Some_0.max_stake {
        Err(StakingError::MaxStakeLimitReached)
    } else {
        Ok(())
    }
}

/// Beginning a stake: when the checks pass and custody is granted, the asset
/// gets a record started at `now` and the caller one more active stake;
/// otherwise nothing changes.
pub open spec fn add_stake_step(s: RegistryModel, ctx: AddStake) -> (
    RegistryModel,
    Result<(), StakingError>,
) {
    match add_stake_check(s, ctx) {
        Err(e) => (s, Err(e)),
        Ok(_) => if !ctx.custody_granted {
            (s, Err(StakingError::CustodyDelegationFailed))
        } else {
            let u = s.users[ctx.authority];
            let st = Stake { start_stake: ctx.now, authority: ctx.authority, mint: ctx.mint };
            (
                RegistryModel {
                    users: s.users.insert(
                        ctx.authority,
                        User { amount_staked: (u.amount_staked + 1) as u8, ..u },
                    ),
                    stakes: s.stakes.insert(ctx.mint, st),
                    ..s
                },
                Ok(()),
            )
        },
    }
}

/// Whether a stake may end, before custody is asked for, and if not why: the
/// asset must have a record owned by the caller, the caller an account, the
/// registry a configuration, the lock duration must have elapsed, and the
/// counters must stay in range.
pub open spec fn remove_stake_check(s: RegistryModel, ctx: RemoveStake) -> Result<(), StakingError> {
    if !s.stakes.contains_key(ctx.mint) {
        Err(StakingError::StakeNotFound)
    } else if s.stakes[ctx.mint].authority != ctx.authority {
        Err(StakingError::Unauthorized)
    } else if !s.users.contains_key(ctx.authority) {
        Err(StakingError::NotRegistered)
    } else if s.config is None {
        Err(StakingError::NotInitialized)
    } else if ctx.now - s.stakes[ctx.mint].start_stake < s.config->Some_0.freeze_period {
        Err(StakingError::FreezePeriodNotOver)
    } else if s.users[ctx.authority].amount_staked == 0 {
        Err(StakingError::ArithmeticOverflow)
    } else if s.users[ctx.authority].points + s.config->Some_0.points_per_stake > u32::MAX {
        Err(StakingError::ArithmeticOverflow)
    } else {
        Ok(())
    }
}

/// Ending a stake: when the checks pass and custody is released, the caller
/// has one active stake less and `points_per_stake` points more, and the
/// asset's record is gone; otherwise nothing changes.
pub open spec fn remove_stake_step(s: RegistryModel, ctx: RemoveStake) -> (
    RegistryModel,
    Result<(), StakingError>,
) {
    match remove_stake_check(s, ctx) {
        Err(e) => (s, Err(e)),
        Ok(_) => if !ctx.custody_released {
            (s, Err(StakingError::CustodyDelegationFailed))
        } else {
            let u = s.users[ctx.authority];
            let c = s.config->Some_0;
            (
                RegistryModel {
                    users: s.users.insert(
                        ctx.authority,
                        User {
                            amount_staked: (u.amount_staked - 1) as u8,
                            points: (u.points + c.points_per_stake) as u32,
                            ..u
                        },
                    ),
                    stakes: s.stakes.remove(ctx.mint),
                    ..s
                },
                Ok(()),
            )
        },
    }
}

/// Adding the record of a new asset adds it to its owner's stakes and to
/// no one else's.
pub proof fn lemma_owned_by_insert(stakes: Map<Address, Stake>, st: Stake, a: Address)
    requires
        stakes.dom().finite(),
        !stakes.contains_key(st.mint),
    ensures
        owned_by(stakes, a).finite(),
        owned_by(stakes.insert(st.mint, st), a).len() == owned_by(stakes, a).len() + (if st.authority
            == a {
            1int
        } else {
            0int
        }),
{
    let old_set = owned_by(stakes, a);
    let new_set = owned_by(stakes.insert(st.mint, st), a);
    stakes.dom().lemma_len_filter(|m: Address| stakes[m].authority == a);
    if st.authority == a {
        assert(new_set =~= old_set.insert(st.mint));
    } else {
        assert(new_set =~= old_set);
    }
}

/// Deleting the record of an asset removes it from its owner's stakes and
/// from no one else's.
pub proof fn lemma_owned_by_remove(stakes: Map<Address, Stake>, mint: Address, a: Address)
    requires
        stakes.dom().finite(),
        stakes.contains_key(mint),
    ensures
        owned_by(stakes, a).finite(),
        owned_by(stakes.remove(mint), a).len() == owned_by(stakes, a).len() - (if stakes[mint].authority
            == a {
            1int
        } else {
            0int
        }),
{
    let old_set = owned_by(stakes, a);
    let new_set = owned_by(stakes.remove(mint), a);
    stakes.dom().lemma_len_filter(|m: Address| stakes[m].authority == a);
    if stakes[mint].authority == a {
        assert(new_set =~= old_set.remove(mint));
    } else {
        assert(new_set =~= old_set);
    }
}

/// Creating the configuration keeps the invariant.
pub proof fn lemma_init_config_keeps_inv(s: RegistryModel, ctx: InitConfig, args: InitConfigArgs)
    requires
        s.inv(),
    ensures
        init_config_step(s, ctx, args).0.inv(),
{
}

/// Opening an account keeps the invariant.
pub proof fn lemma_register_user_keeps_inv(s: RegistryModel, ctx: RegisterUser)
    requires
        s.inv(),
    ensures
        register_user_step(s, ctx).0.inv(),
{
    if register_user_step(s, ctx).1 is Ok {
        let t = register_user_step(s, ctx).0;
        assert(t.stakes_of(ctx.authority) =~= Set::empty());
    }
}

/// Beginning a stake keeps the invariant.
pub proof fn lemma_add_stake_keeps_inv(s: RegistryModel, ctx: AddStake)
    requires
        s.inv(),
    ensures
        add_stake_step(s, ctx).0.inv(),
{
    let t = add_stake_step(s, ctx).0;
    if add_stake_step(s, ctx).1 is Ok {
        let st = Stake { start_stake: ctx.now, authority: ctx.authority, mint: ctx.mint };
        assert(t.stakes == s.stakes.insert(ctx.mint, st));
        assert forall|a: Address| #[trigger] t.users.contains_key(a) implies t.users[a].owner == a
            && t.users[a].amount_staked <= t.stake_limit() && t.users[a].amount_staked
            == t.stakes_of(a).len() by {
            lemma_owned_by_insert(s.stakes, st, a);
        }
    }
}

/// Ending a stake keeps the invariant.
pub proof fn lemma_remove_stake_keeps_inv(s: RegistryModel, ctx: RemoveStake)
    requires
        s.inv(),
    ensures
        remove_stake_step(s, ctx).0.inv(),
{
    let t = remove_stake_step(s, ctx).0;
    if remove_stake_step(s, ctx).1 is Ok {
        assert forall|a: Address| #[trigger] t.users.contains_key(a) implies t.users[a].owner == a
            && t.users[a].amount_staked <= t.stake_limit() && t.users[a].amount_staked
            == t.stakes_of(a).len() by {
            lemma_owned_by_remove(s.stakes, ctx.mint, a);
        }
        assert forall|m: Address| #[trigger] t.stakes.contains_key(m) implies t.stakes[m].mint == m
            && t.users.contains_key(t.stakes[m].authority) && t.config is Some by {
            assert(s.stakes.contains_key(m));
        }
    }
}

} // verus!
