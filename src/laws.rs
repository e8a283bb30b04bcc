use vstd::prelude::*;

use crate::error::StakingError;
use crate::instructions::{AddStake, InitConfig, InitConfigArgs, RegisterUser, RemoveStake};
use crate::rules::{
    add_stake_step, init_config_step, lemma_add_stake_keeps_inv, lemma_init_config_keeps_inv,
    lemma_register_user_keeps_inv, lemma_remove_stake_keeps_inv, register_user_step,
    remove_stake_step,
};
use crate::state::{Address, RegistryModel, User};

verus! {

/// Every operation keeps the registry's invariant, so after any sequence of
/// operations each participant's active stakes lie between zero and the
/// configured maximum.
pub proof fn lemma_active_stakes_bounded(
    s: RegistryModel,
    ic: InitConfig,
    args: InitConfigArgs,
    ru: RegisterUser,
    ad: AddStake,
    rm: RemoveStake,
)
    requires
        s.inv(),
    ensures
        init_config_step(s, ic, args).0.inv(),
        register_user_step(s, ru).0.inv(),
        add_stake_step(s, ad).0.inv(),
        remove_stake_step(s, rm).0.inv(),
        forall|a: Address| #[trigger]
            s.users.contains_key(a) ==> 0 <= s.users[a].amount_staked <= s.stake_limit(),
{
    lemma_init_config_keeps_inv(s, ic, args);
    lemma_register_user_keeps_inv(s, ru);
    lemma_add_stake_keeps_inv(s, ad);
    lemma_remove_stake_keeps_inv(s, rm);
}

/// Once an asset is staked, a second stake of it fails with
/// `StakeAlreadyExists` and changes nothing, whoever asks.
pub proof fn lemma_no_double_stake(s: RegistryModel, first: AddStake, second: AddStake)
    requires
        add_stake_step(s, first).1 is Ok,
        second.mint == first.mint,
    ensures
        add_stake_step(add_stake_step(s, first).0, second) == (
            add_stake_step(s, first).0,
            Err::<(), StakingError>(StakingError::StakeAlreadyExists),
        ),
{
}

/// A stake record survives every operation but a successful end of that
/// very stake; while it stands, every attempt to stake the asset again fails
/// with `StakeAlreadyExists` and changes nothing.
pub proof fn lemma_stake_record_persists(
    s: RegistryModel,
    ic: InitConfig,
    args: InitConfigArgs,
    ru: RegisterUser,
    ad: AddStake,
    rm: RemoveStake,
    m: Address,
)
    requires
        s.stakes.contains_key(m),
    ensures
        init_config_step(s, ic, args).0.stakes.contains_key(m),
        register_user_step(s, ru).0.stakes.contains_key(m),
        add_stake_step(s, ad).0.stakes.contains_key(m),
        !(rm.mint == m && remove_stake_step(s, rm).1 is Ok) ==> remove_stake_step(
            s,
            rm,
        ).0.stakes.contains_key(m),
        ad.mint == m ==> add_stake_step(s, ad) == (s, Err::<(), StakingError>(StakingError::StakeAlreadyExists)),
{
}

/// A stake ends successfully only if it exists, belongs to the caller, and
/// has been held at least the minimum lock duration.
pub proof fn lemma_release_needs_lock(s: RegistryModel, ctx: RemoveStake)
    requires
        remove_stake_step(s, ctx).1 is Ok,
    ensures
        s.stakes.contains_key(ctx.mint),
        s.stakes[ctx.mint].authority == ctx.authority,
        s.config is Some,
        ctx.now - s.stakes[ctx.mint].start_stake >= s.config->Some_0.freeze_period,
{
}

/// The owner of a stake record always has at least one active stake, so
/// ending a stake never finds its owner's count at zero.
pub proof fn lemma_owner_count_positive(s: RegistryModel, m: Address)
    requires
        s.inv(),
        s.stakes.contains_key(m),
    ensures
        s.users.contains_key(s.stakes[m].authority),
        s.users[s.stakes[m].authority].amount_staked >= 1,
{
    let a = s.stakes[m].authority;
    s.stakes.dom().lemma_len_filter(|k: Address| s.stakes[k].authority == a);
    assert(s.stakes_of(a).contains(m));
    if s.stakes_of(a).len() == 0 {
        vstd::set_lib::lemma_set_empty_equivalency_len(s.stakes_of(a));
        assert(!s.stakes_of(a).contains(m));
    }
}

/// No operation removes an account or lowers its points.
pub proof fn lemma_points_monotone(
    s: RegistryModel,
    ic: InitConfig,
    args: InitConfigArgs,
    ru: RegisterUser,
    ad: AddStake,
    rm: RemoveStake,
    a: Address,
)
    requires
        s.users.contains_key(a),
    ensures
        init_config_step(s, ic, args).0.users.contains_key(a),
        init_config_step(s, ic, args).0.users[a].points >= s.users[a].points,
        register_user_step(s, ru).0.users.contains_key(a),
        register_user_step(s, ru).0.users[a].points >= s.users[a].points,
        add_stake_step(s, ad).0.users.contains_key(a),
        add_stake_step(s, ad).0.users[a].points >= s.users[a].points,
        remove_stake_step(s, rm).0.users.contains_key(a),
        remove_stake_step(s, rm).0.users[a].points >= s.users[a].points,
{
}

/// Beginning a stake and ending it once the lock duration has passed, with
/// custody released, succeeds and leaves the participant with the active
/// stakes it had before, `points_per_stake` more points, and no record for
/// the asset. The points must not overflow.
pub proof fn lemma_stake_round_trip(s: RegistryModel, begin: AddStake, end: RemoveStake)
    requires
        s.inv(),
        add_stake_step(s, begin).1 is Ok,
        end.authority == begin.authority,
        end.mint == begin.mint,
        end.now - begin.now >= s.config->Some_0.freeze_period,
        end.custody_released,
        s.users[begin.authority].points + s.config->Some_0.points_per_stake <= u32::MAX,
    ensures
        ({
            let (t, r) = remove_stake_step(add_stake_step(s, begin).0, end);
            &&& r is Ok
            &&& t.users.contains_key(begin.authority)
            &&& t.users[begin.authority] == (User {
                points: (s.users[begin.authority].points + s.config->Some_0.points_per_stake) as u32,
                ..s.users[begin.authority]
            })
            &&& t.users == s.users.insert(begin.authority, t.users[begin.authority])
            &&& !t.stakes.contains_key(begin.mint)
            &&& t.stakes == s.stakes
            &&& t.config == s.config
        }),
{
    let (t, _) = remove_stake_step(add_stake_step(s, begin).0, end);
    let mid = add_stake_step(s, begin).0;
    assert(mid.stakes.remove(begin.mint) =~= s.stakes);
    assert(t.users =~= s.users.insert(begin.authority, t.users[begin.authority]));
}

} // verus!
