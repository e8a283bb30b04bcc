use vstd::prelude::*;

use crate::error::StakingError;
use crate::instructions::{AddStake, InitConfig, InitConfigArgs, RegisterUser, RemoveStake};
use crate::rules::{add_stake_step, init_config_step, register_user_step, remove_stake_step};
use crate::state::Registry;

verus! {

/// Entry point: creates the configuration.
pub fn init_config(registry: &mut Registry, ctx: InitConfig, args: InitConfigArgs) -> (r: Result<
    (),
    StakingError,
>)
    requires
        old(registry).wf(),
    ensures
        final(registry).wf(),
        (final(registry)@, r) == init_config_step(old(registry)@, ctx, args),
{
    ctx.init_config(registry, args)
}

/// Entry point: opens the caller's account.
pub fn register_user(registry: &mut Registry, ctx: RegisterUser) -> (r: Result<(), StakingError>)
    requires
        old(registry).wf(),
    ensures
        final(registry).wf(),
        (final(registry)@, r) == register_user_step(old(registry)@, ctx),
{
    ctx.register_user(registry)
}

/// Entry point: begins a stake.
pub fn add_stake(registry: &mut Registry, ctx: AddStake) -> (r: Result<(), StakingError>)
    requires
        old(registry).wf(),
    ensures
        final(registry).wf(),
        (final(registry)@, r) == add_stake_step(old(registry)@, ctx),
{
    ctx.add_stake(registry)
}

/// Entry point: ends a stake.
pub fn remove_stake(registry: &mut Registry, ctx: RemoveStake) -> (r: Result<(), StakingError>)
    requires
        old(registry).wf(),
    ensures
        final(registry).wf(),
        (final(registry)@, r) == remove_stake_step(old(registry)@, ctx),
{
    ctx.remove_stake(registry)
}

} // verus!
