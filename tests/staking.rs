use nft_staking::nft_staking::{add_stake, init_config, register_user, remove_stake};
use nft_staking::{
    Address, AddStake, Config, InitConfig, InitConfigArgs, Registry, RegisterUser, RemoveStake,
    Stake, StakingError, User,
};

const DAY: i64 = 86400;

fn addr(n: u64) -> Address {
    Address::new(0, 0, 0, n)
}

fn admin() -> Address {
    Address::new(1, 2, 3, 4)
}

fn configured(points: u8, max: u8, freeze: i64) -> Registry {
    let mut r = Registry::new();
    let args = InitConfigArgs { points_per_stake: points, max_stake: max, freeze_period: freeze };
    assert_eq!(init_config(&mut r, InitConfig { admin: admin() }, args), Ok(()));
    r
}

fn standard() -> Registry {
    configured(10, 3, DAY)
}

fn begin(p: Address, mint: Address, now: i64) -> AddStake {
    AddStake { authority: p, mint, now, collection_verified: true, custody_granted: true }
}

fn end(p: Address, mint: Address, now: i64) -> RemoveStake {
    RemoveStake { authority: p, mint, now, custody_released: true }
}

fn registered(r: &mut Registry, p: Address) {
    assert_eq!(register_user(r, RegisterUser { authority: p }), Ok(()));
}

#[test]
fn init_config_records_parameters() {
    let r = standard();
    assert_eq!(
        r.config(),
        Some(Config { points_per_stake: 10, max_stake: 3, freeze_period: DAY, admin: admin() })
    );
}

#[test]
fn init_config_twice_fails() {
    let mut r = standard();
    let args = InitConfigArgs { points_per_stake: 1, max_stake: 1, freeze_period: 0 };
    assert_eq!(
        InitConfig { admin: addr(9) }.init_config(&mut r, args),
        Err(StakingError::AlreadyInitialized)
    );
    assert_eq!(r.config().unwrap().points_per_stake, 10);
    assert_eq!(r.config().unwrap().admin, admin());
}

#[test]
fn register_creates_empty_account() {
    let mut r = standard();
    let p = addr(7);
    assert_eq!(r.user(p), None);
    registered(&mut r, p);
    assert_eq!(r.user(p), Some(User { owner: p, points: 0, amount_staked: 0 }));
}

#[test]
fn register_twice_fails() {
    let mut r = standard();
    let p = addr(7);
    registered(&mut r, p);
    assert_eq!(
        RegisterUser { authority: p }.register_user(&mut r),
        Err(StakingError::AlreadyRegistered)
    );
}

#[test]
fn register_before_config_is_allowed() {
    let mut r = Registry::new();
    registered(&mut r, addr(1));
    assert_eq!(r.config(), None);
    assert_eq!(add_stake(&mut r, begin(addr(1), addr(100), 0)), Err(StakingError::NotInitialized));
}

#[test]
fn scenario_early_release_refused() {
    let mut r = standard();
    let p = addr(1);
    let x = addr(100);
    registered(&mut r, p);
    assert_eq!(add_stake(&mut r, begin(p, x, 1_000)), Ok(()));
    assert_eq!(r.stake(x), Some(Stake { start_stake: 1_000, authority: p, mint: x }));
    assert_eq!(r.user(p).unwrap().amount_staked, 1);
    assert_eq!(remove_stake(&mut r, end(p, x, 1_000)), Err(StakingError::FreezePeriodNotOver));
    assert_eq!(r.user(p).unwrap(), User { owner: p, points: 0, amount_staked: 1 });
    assert!(r.stake(x).is_some());
}

#[test]
fn scenario_stake_limit() {
    let mut r = standard();
    let p = addr(1);
    registered(&mut r, p);
    for k in 0..3u64 {
        assert_eq!(add_stake(&mut r, begin(p, addr(100 + k), 5)), Ok(()));
    }
    assert_eq!(r.user(p).unwrap().amount_staked, 3);
    assert_eq!(
        add_stake(&mut r, begin(p, addr(200), 5)),
        Err(StakingError::MaxStakeLimitReached)
    );
    assert_eq!(r.user(p).unwrap().amount_staked, 3);
    assert_eq!(r.stake(addr(200)), None);
}

#[test]
fn scenario_same_asset_twice() {
    let mut r = standard();
    let p = addr(1);
    let y = addr(101);
    registered(&mut r, p);
    let first = add_stake(&mut r, begin(p, y, 10));
    let second = add_stake(&mut r, begin(p, y, 10));
    assert_eq!(first, Ok(()));
    assert_eq!(second, Err(StakingError::StakeAlreadyExists));
    assert_eq!(r.user(p).unwrap().amount_staked, 1);
}

#[test]
fn same_asset_refused_for_another_participant() {
    let mut r = standard();
    let y = addr(101);
    registered(&mut r, addr(1));
    registered(&mut r, addr(2));
    assert_eq!(add_stake(&mut r, begin(addr(1), y, 10)), Ok(()));
    assert_eq!(add_stake(&mut r, begin(addr(2), y, 10)), Err(StakingError::StakeAlreadyExists));
    assert_eq!(r.user(addr(2)).unwrap().amount_staked, 0);
}

#[test]
fn scenario_release_after_lock() {
    let mut r = standard();
    let p = addr(1);
    let x = addr(100);
    registered(&mut r, p);
    assert_eq!(add_stake(&mut r, begin(p, x, 1_000)), Ok(()));
    assert_eq!(add_stake(&mut r, begin(p, addr(101), 1_000)), Ok(()));
    let before = r.user(p).unwrap();
    assert_eq!(remove_stake(&mut r, end(p, x, 1_000 + DAY)), Ok(()));
    let after = r.user(p).unwrap();
    assert_eq!(after.points, before.points + 10);
    assert_eq!(after.amount_staked, before.amount_staked - 1);
    assert_eq!(r.stake(x), None);
    assert!(r.stake(addr(101)).is_some());
}

#[test]
fn release_one_second_early_refused() {
    let mut r = standard();
    let p = addr(1);
    registered(&mut r, p);
    assert_eq!(add_stake(&mut r, begin(p, addr(5), 0)), Ok(()));
    assert_eq!(
        remove_stake(&mut r, end(p, addr(5), DAY - 1)),
        Err(StakingError::FreezePeriodNotOver)
    );
    assert_eq!(remove_stake(&mut r, end(p, addr(5), DAY)), Ok(()));
}

#[test]
fn release_before_start_time_refused() {
    let mut r = configured(1, 1, 0);
    let p = addr(1);
    registered(&mut r, p);
    assert_eq!(add_stake(&mut r, begin(p, addr(5), 100)), Ok(()));
    assert_eq!(remove_stake(&mut r, end(p, addr(5), 99)), Err(StakingError::FreezePeriodNotOver));
    assert_eq!(remove_stake(&mut r, end(p, addr(5), 100)), Ok(()));
}

#[test]
fn elapsed_time_near_extremes_does_not_overflow() {
    let mut r = configured(1, 1, i64::MAX);
    let p = addr(1);
    registered(&mut r, p);
    assert_eq!(add_stake(&mut r, begin(p, addr(5), i64::MIN)), Ok(()));
    assert_eq!(remove_stake(&mut r, end(p, addr(5), -2)), Err(StakingError::FreezePeriodNotOver));
    assert_eq!(remove_stake(&mut r, end(p, addr(5), -1)), Ok(()));
    assert_eq!(r.user(p).unwrap().points, 1);
}

#[test]
fn round_trip_restores_count_and_adds_points() {
    let mut r = configured(25, 2, 60);
    let p = addr(3);
    let a = addr(300);
    registered(&mut r, p);
    assert_eq!(add_stake(&mut r, begin(p, addr(301), 0)), Ok(()));
    let before = r.user(p).unwrap();
    assert_eq!(add_stake(&mut r, begin(p, a, 1_000)), Ok(()));
    assert_eq!(remove_stake(&mut r, end(p, a, 1_060)), Ok(()));
    let after = r.user(p).unwrap();
    assert_eq!(after.amount_staked, before.amount_staked);
    assert_eq!(after.points, before.points + 25);
    assert_eq!(r.stake(a), None);
}

#[test]
fn asset_can_be_staked_again_after_release() {
    let mut r = configured(4, 1, 10);
    let p = addr(1);
    registered(&mut r, p);
    for round in 0..3i64 {
        assert_eq!(add_stake(&mut r, begin(p, addr(9), round * 100)), Ok(()));
        assert_eq!(remove_stake(&mut r, end(p, addr(9), round * 100 + 10)), Ok(()));
    }
    assert_eq!(r.user(p).unwrap(), User { owner: p, points: 12, amount_staked: 0 });
}

#[test]
fn points_never_decrease() {
    let mut r = configured(7, 2, 5);
    let p = addr(1);
    registered(&mut r, p);
    let mut last = 0u32;
    let mut check = |r: &Registry| {
        let now = r.user(p).unwrap().points;
        assert!(now >= last);
        last = now;
    };
    let _ = add_stake(&mut r, begin(p, addr(1), 0));
    check(&r);
    let _ = remove_stake(&mut r, end(p, addr(1), 1));
    check(&r);
    let _ = remove_stake(&mut r, end(p, addr(1), 5));
    check(&r);
    let _ = remove_stake(&mut r, end(p, addr(1), 10));
    check(&r);
    let _ = add_stake(&mut r, begin(p, addr(2), 10));
    check(&r);
    let _ = add_stake(&mut r, begin(p, addr(3), 10));
    check(&r);
    let _ = add_stake(&mut r, begin(p, addr(4), 10));
    check(&r);
    let _ = register_user(&mut r, RegisterUser { authority: p });
    check(&r);
    let _ = remove_stake(&mut r, end(p, addr(3), 20));
    check(&r);
    assert_eq!(r.user(p).unwrap().points, 14);
}

#[test]
fn stake_count_matches_records() {
    let mut r = configured(1, 3, 0);
    let p = addr(1);
    let q = addr(2);
    registered(&mut r, p);
    registered(&mut r, q);
    assert_eq!(add_stake(&mut r, begin(p, addr(10), 0)), Ok(()));
    assert_eq!(add_stake(&mut r, begin(q, addr(11), 0)), Ok(()));
    assert_eq!(add_stake(&mut r, begin(p, addr(12), 0)), Ok(()));
    assert_eq!(r.user(p).unwrap().amount_staked, 2);
    assert_eq!(r.user(q).unwrap().amount_staked, 1);
    assert_eq!(remove_stake(&mut r, end(q, addr(11), 0)), Ok(()));
    assert_eq!(remove_stake(&mut r, end(q, addr(11), 0)), Err(StakingError::StakeNotFound));
    assert_eq!(r.user(q).unwrap().amount_staked, 0);
    assert_eq!(r.user(p).unwrap().amount_staked, 2);
}

#[test]
fn stake_count_stays_within_limit() {
    let mut r = configured(1, 2, 0);
    let p = addr(1);
    registered(&mut r, p);
    for k in 0..5u64 {
        let _ = add_stake(&mut r, begin(p, addr(10 + k), 0));
        let count = r.user(p).unwrap().amount_staked;
        assert!(count <= 2);
    }
    assert_eq!(r.user(p).unwrap().amount_staked, 2);
}

#[test]
fn add_stake_unregistered_fails() {
    let mut r = standard();
    assert_eq!(add_stake(&mut r, begin(addr(1), addr(5), 0)), Err(StakingError::NotRegistered));
    assert_eq!(r.stake(addr(5)), None);
}

#[test]
fn add_stake_unverified_collection_fails() {
    let mut r = standard();
    registered(&mut r, addr(1));
    let ctx = AddStake { collection_verified: false, ..begin(addr(1), addr(5), 0) };
    assert_eq!(ctx.validate(&r), Err(StakingError::InvalidCollection));
    assert_eq!(ctx.add_stake(&mut r), Err(StakingError::InvalidCollection));
    assert_eq!(r.stake(addr(5)), None);
}

#[test]
fn add_stake_custody_refused_changes_nothing() {
    let mut r = standard();
    let p = addr(1);
    registered(&mut r, p);
    let ctx = AddStake { custody_granted: false, ..begin(p, addr(5), 0) };
    assert_eq!(ctx.validate(&r), Ok(()));
    assert_eq!(ctx.add_stake(&mut r), Err(StakingError::CustodyDelegationFailed));
    assert_eq!(r.stake(addr(5)), None);
    assert_eq!(r.user(p).unwrap().amount_staked, 0);
}

#[test]
fn remove_stake_custody_refused_changes_nothing() {
    let mut r = standard();
    let p = addr(1);
    registered(&mut r, p);
    assert_eq!(add_stake(&mut r, begin(p, addr(5), 0)), Ok(()));
    let ctx = RemoveStake { custody_released: false, ..end(p, addr(5), DAY) };
    assert_eq!(ctx.validate(&r), Ok(()));
    assert_eq!(ctx.remove_stake(&mut r), Err(StakingError::CustodyDelegationFailed));
    assert!(r.stake(addr(5)).is_some());
    assert_eq!(r.user(p).unwrap(), User { owner: p, points: 0, amount_staked: 1 });
}

#[test]
fn remove_missing_stake_fails() {
    let mut r = standard();
    registered(&mut r, addr(1));
    assert_eq!(remove_stake(&mut r, end(addr(1), addr(5), DAY)), Err(StakingError::StakeNotFound));
}

#[test]
fn remove_someone_elses_stake_fails() {
    let mut r = standard();
    registered(&mut r, addr(1));
    registered(&mut r, addr(2));
    assert_eq!(add_stake(&mut r, begin(addr(1), addr(5), 0)), Ok(()));
    assert_eq!(remove_stake(&mut r, end(addr(2), addr(5), DAY)), Err(StakingError::Unauthorized));
    assert_eq!(r.stake(addr(5)).unwrap().authority, addr(1));
    assert_eq!(r.user(addr(2)).unwrap().points, 0);
}

#[test]
fn zero_stake_limit_refuses_every_stake() {
    let mut r = configured(1, 0, 0);
    registered(&mut r, addr(1));
    assert_eq!(
        add_stake(&mut r, begin(addr(1), addr(5), 0)),
        Err(StakingError::MaxStakeLimitReached)
    );
}

#[test]
fn largest_limits() {
    let mut r = configured(255, 255, 0);
    let p = addr(1);
    registered(&mut r, p);
    for k in 0..255u64 {
        assert_eq!(add_stake(&mut r, begin(p, addr(1000 + k), 0)), Ok(()));
    }
    assert_eq!(r.user(p).unwrap().amount_staked, 255);
    assert_eq!(
        add_stake(&mut r, begin(p, addr(5000), 0)),
        Err(StakingError::MaxStakeLimitReached)
    );
    assert_eq!(remove_stake(&mut r, end(p, addr(1000), 0)), Ok(()));
    assert_eq!(r.user(p).unwrap(), User { owner: p, points: 255, amount_staked: 254 });
}

#[test]
fn addresses_differ_in_any_word() {
    let mut r = standard();
    registered(&mut r, Address::new(1, 0, 0, 0));
    registered(&mut r, Address::new(0, 1, 0, 0));
    registered(&mut r, Address::new(0, 0, 1, 0));
    registered(&mut r, Address::new(0, 0, 0, 1));
    assert_eq!(r.user(Address::new(0, 0, 0, 0)), None);
}

#[test]
fn error_messages() {
    assert_eq!(StakingError::MaxStakeLimitReached.message(), "Max stake limit reached");
    assert_eq!(StakingError::FreezePeriodNotOver.message(), "Freeze period not over");
}
