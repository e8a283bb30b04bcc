use vstd::prelude::*;

verus! {

/// A 256-bit ledger identity: a participant, an administrator or an asset.
#[derive(Clone, Copy, Debug, PartialEq, Eq, Structural)]
pub struct Address {
    pub w0: u64,
    pub w1: u64,
    pub w2: u64,
    pub w3: u64,
}

impl Address {
    /// The address made of four 64-bit words, most significant first.
    pub fn new(w0: u64, w1: u64, w2: u64, w3: u64) -> (r: Address)
        ensures
            r == (Address { w0, w1, w2, w3 }),
    {
        Address { w0, w1, w2, w3 }
    }
}

/// The registry's singleton parameters, fixed when it is created.
#[derive(Clone, Copy, Debug, PartialEq, Eq, Structural)]
pub struct Config {
    /// Points granted for each completed stake.
    pub points_per_stake: u8,
    /// The most stakes a participant may hold at once.
    pub max_stake: u8,
    /// Seconds an asset must stay staked before it may be released.
    pub freeze_period: i64,
    /// The identity that created the configuration.
    pub admin: Address,
}

/// A participant's account.
#[derive(Clone, Copy, Debug, PartialEq, Eq, Structural)]
pub struct User {
    /// The participant this account belongs to.
    pub owner: Address,
    /// Points accrued by completed stakes.
    pub points: u32,
    /// Stakes the participant currently holds.
    pub amount_staked: u8,
}

/// The record of one staked asset.
#[derive(Clone, Copy, Debug, PartialEq, Eq, Structural)]
pub struct Stake {
    /// Ledger time at which the stake began.
    pub start_stake: i64,
    /// The participant who staked the asset.
    pub authority: Address,
    /// The staked asset.
    pub mint: Address,
}

/// The assets whose stake record in `stakes` belongs to `a`.
pub open spec fn owned_by(stakes: Map<Address, Stake>, a: Address) -> Set<Address> {
    stakes.dom().filter(|m: Address| stakes[m].authority == a)
}

/// The abstract state of a registry: the configuration, if created, the
/// accounts keyed by participant and the stake records keyed by asset.
pub ghost struct RegistryModel {
    pub config: Option<Config>,
    pub users: Map<Address, User>,
    pub stakes: Map<Address, Stake>,
}

impl RegistryModel {
    /// The bound on each participant's active stakes: the configured maximum,
    /// or zero before the configuration exists.
    pub open spec fn stake_limit(self) -> int {
        match self.config {
            Some(c) => c.max_stake as int,
            None => 0,
        }
    }

    /// The assets that participant `a` has staked.
    pub open spec fn stakes_of(self, a: Address) -> Set<Address> {
        owned_by(self.stakes, a)
    }

    /// What every reachable state satisfies: each record sits under its own
    /// key, each stake belongs to a registered participant, each participant's
    /// count of active stakes is the number of records it owns, and no
    /// participant holds more stakes than the limit.
    pub open spec fn inv(self) -> bool {
        &&& self.users.dom().finite()
        &&& self.stakes.dom().finite()
        &&& forall|a: Address| #[trigger]
            self.users.contains_key(a) ==> self.users[a].owner == a
                && self.users[a].amount_staked <= self.stake_limit()
                && self.users[a].amount_staked == self.stakes_of(a).len()
        &&& forall|m: Address| #[trigger]
            self.stakes.contains_key(m) ==> self.stakes[m].mint == m
                && self.users.contains_key(self.stakes[m].authority)
                && self.config is Some
    }

    /// The state of a registry that holds nothing yet.
    pub open spec fn empty() -> RegistryModel {
        RegistryModel { config: None, users: Map::empty(), stakes: Map::empty() }
    }
}

/// The registry: the configuration, the participant accounts and the stake
/// records, with creation of an account or a record an insert-if-absent.
pub struct Registry {
    config: Option<Config>,
    users: Vec<User>,
    stakes: Vec<Stake>,
    user_index: Ghost<Map<Address, User>>,
    stake_index: Ghost<Map<Address, Stake>>,
}

impl View for Registry {
    type V = RegistryModel;

    closed spec fn view(&self) -> RegistryModel {
        RegistryModel { config: self.config, users: self.user_index@, stakes: self.stake_index@ }
    }
}

/// `users` holds one account per participant, and `index` maps each
/// participant to exactly the account that `users` holds for it.
spec fn users_indexed(users: Seq<User>, index: Map<Address, User>) -> bool {
    &&& forall|i: int, j: int|
        0 <= i < j < users.len() ==> #[trigger] users[i].owner != #[trigger] users[j].owner
    &&& forall|i: int|
        0 <= i < users.len() ==> index.contains_key(#[trigger] users[i].owner) && index[users[i].owner]
            == users[i]
    &&& forall|a: Address| #[trigger]
        index.contains_key(a) ==> exists|i: int| 0 <= i < users.len() && #[trigger] users[i].owner == a
}

/// `stakes` holds one record per asset, and `index` maps each asset to
/// exactly the record that `stakes` holds for it.
spec fn stakes_indexed(stakes: Seq<Stake>, index: Map<Address, Stake>) -> bool {
    &&& forall|i: int, j: int|
        0 <= i < j < stakes.len() ==> #[trigger] stakes[i].mint != #[trigger] stakes[j].mint
    &&& forall|i: int|
        0 <= i < stakes.len() ==> index.contains_key(#[trigger] stakes[i].mint) && index[stakes[i].mint]
            == stakes[i]
    &&& forall|m: Address| #[trigger]
        index.contains_key(m) ==> exists|i: int| 0 <= i < stakes.len() && #[trigger] stakes[i].mint == m
}

impl Registry {
    /// The stores agree with the model.
    pub closed spec fn consistent(&self) -> bool {
        &&& self.user_index@.dom().finite()
        &&& self.stake_index@.dom().finite()
        &&& users_indexed(self.users@, self.user_index@)
        &&& stakes_indexed(self.stakes@, self.stake_index@)
    }

    /// The registry is well formed: its stores agree with its model, and the
    /// model satisfies the registry's invariant.
    pub closed spec fn wf(&self) -> bool {
        &&& self.consistent()
        &&& self@.inv()
    }

    /// Consistent stores whose model satisfies the invariant are well formed.
    pub(crate) proof fn lemma_wf_from_inv(&self)
        requires
            self.consistent(),
            self@.inv(),
        ensures
            self.wf(),
    {
    }

    /// A well-formed registry has consistent stores.
    pub(crate) proof fn lemma_wf_consistent(&self)
        requires
            self.wf(),
        ensures
            self.consistent(),
    {
    }

    /// A well-formed registry's model satisfies the invariant.
    pub proof fn lemma_wf_inv(&self)
        requires
            self.wf(),
        ensures
            self@.inv(),
    {
    }

    /// A registry with no configuration, no accounts and no stakes.
    pub fn new() -> (r: Registry)
        ensures
            r.wf(),
            r@ == RegistryModel::empty(),
    {
        Registry {
            config: None,
            users: Vec::new(),
            stakes: Vec::new(),
            user_index: Ghost(Map::empty()),
            stake_index: Ghost(Map::empty()),
        }
    }

    /// The configuration, once created.
    pub fn config(&self) -> (r: Option<Config>)
        ensures
            r == self@.config,
    {
        self.config
    }

    fn find_user(&self, who: Address) -> (r: Option<usize>)
        requires
            self.consistent(),
        ensures
            match r {
                Some(i) => i < self.users@.len() && self.users@[i as int].owner == who,
                None => !self@.users.contains_key(who),
            },
    {
        let mut i: usize = 0;
        while i < self.users.len()
            invariant
                i <= self.users@.len(),
                forall|k: int| 0 <= k < i ==> self.users@[k].owner != who,
            decreases self.users@.len() - i,
        {
            if self.users[i].owner == who {
                return Some(i);
            }
            i = i + 1;
        }
        None
    }

    fn find_stake(&self, mint: Address) -> (r: Option<usize>)
        requires
            self.consistent(),
        ensures
            match r {
                Some(i) => i < self.stakes@.len() && self.stakes@[i as int].mint == mint,
                None => !self@.stakes.contains_key(mint),
            },
    {
        let mut i: usize = 0;
        while i < self.stakes.len()
            invariant
                i <= self.stakes@.len(),
                forall|k: int| 0 <= k < i ==> self.stakes@[k].mint != mint,
            decreases self.stakes@.len() - i,
        {
            if self.stakes[i].mint == mint {
                return Some(i);
            }
            i = i + 1;
        }
        None
    }

    /// The account of participant `who`, if registered.
    pub fn user(&self, who: Address) -> (r: Option<User>)
        requires
            self.wf(),
        ensures
            r == (if self@.users.contains_key(who) {
                Some(self@.users[who])
            } else {
                None
            }),
    {
        match self.find_user(who) {
            Some(i) => Some(self.users[i]),
            None => None,
        }
    }

    /// The stake record of asset `mint`, if staked.
    pub fn stake(&self, mint: Address) -> (r: Option<Stake>)
        requires
            self.wf(),
        ensures
            r == (if self@.stakes.contains_key(mint) {
                Some(self@.stakes[mint])
            } else {
                None
            }),
    {
        match self.find_stake(mint) {
            Some(i) => Some(self.stakes[i]),
            None => None,
        }
    }

    /// Records the configuration of a registry that has none.
    pub(crate) fn set_config(&mut self, c: Config)
        requires
            old(self).consistent(),
            old(self)@.config is None,
        ensures
            final(self).consistent(),
            final(self)@ == (RegistryModel { config: Some(c), ..old(self)@ }),
    {
        self.config = Some(c);
    }

    /// Adds the account of a participant who has none.
    pub(crate) fn insert_user(&mut self, u: User)
        requires
            old(self).consistent(),
            !old(self)@.users.contains_key(u.owner),
        ensures
            final(self).consistent(),
            final(self)@ == (RegistryModel { users: old(self)@.users.insert(u.owner, u), ..old(self)@ }),
    {
        let ghost old_users = self.users@;
        self.users.push(u);
        self.user_index = Ghost(self.user_index@.insert(u.owner, u));
        proof {
            let n = old_users.len() as int;
            assert(self.users@[n] == u);
            assert forall|a: Address| #[trigger]
                self.user_index@.contains_key(a) implies exists|i: int|
                0 <= i < self.users@.len() && #[trigger] self.users@[i].owner == a by {
                if a == u.owner {
                    assert(self.users@[n].owner == a);
                } else {
                    let i = choose|i: int| 0 <= i < old_users.len() && #[trigger] old_users[i].owner == a;
                    assert(self.users@[i] == old_users[i]);
                }
            }
        }
    }

    /// Replaces the account of a registered participant.
    pub(crate) fn update_user(&mut self, u: User)
        requires
            old(self).consistent(),
            old(self)@.users.contains_key(u.owner),
        ensures
            final(self).consistent(),
            final(self)@ == (RegistryModel { users: old(self)@.users.insert(u.owner, u), ..old(self)@ }),
    {
        let ghost old_users = self.users@;
        let i = self.find_user(u.owner);
        proof {
            if i is None {
                assert(false);
            }
        }
        let i = i.unwrap();
        self.users.set(i, u);
        self.user_index = Ghost(self.user_index@.insert(u.owner, u));
        proof {
            assert forall|j: int| 0 <= j < self.users@.len() && j != i implies #[trigger] self.users@[j]
                == old_users[j] && old_users[j].owner != u.owner by {
                if j < i {
                    assert(old_users[j].owner != old_users[i as int].owner);
                } else {
                    assert(old_users[i as int].owner != old_users[j].owner);
                }
            }
            assert forall|a: Address| #[trigger]
                self.user_index@.contains_key(a) implies exists|k: int|
                0 <= k < self.users@.len() && #[trigger] self.users@[k].owner == a by {
                if a == u.owner {
                    assert(self.users@[i as int].owner == a);
                } else {
                    let k = choose|k: int| 0 <= k < old_users.len() && #[trigger] old_users[k].owner == a;
                    assert(self.users@[k] == old_users[k]);
                }
            }
        }
    }

    /// Adds the record of an asset that has none.
    pub(crate) fn insert_stake(&mut self, st: Stake)
        requires
            old(self).consistent(),
            !old(self)@.stakes.contains_key(st.mint),
        ensures
            final(self).consistent(),
            final(self)@ == (RegistryModel { stakes: old(self)@.stakes.insert(st.mint, st), ..old(self)@ }),
    {
        let ghost old_stakes = self.stakes@;
        self.stakes.push(st);
        self.stake_index = Ghost(self.stake_index@.insert(st.mint, st));
        proof {
            let n = old_stakes.len() as int;
            assert(self.stakes@[n] == st);
            assert forall|m: Address| #[trigger]
                self.stake_index@.contains_key(m) implies exists|i: int|
                0 <= i < self.stakes@.len() && #[trigger] self.stakes@[i].mint == m by {
                if m == st.mint {
                    assert(self.stakes@[n].mint == m);
                } else {
                    let i = choose|i: int| 0 <= i < old_stakes.len() && #[trigger] old_stakes[i].mint == m;
                    assert(self.stakes@[i] == old_stakes[i]);
                }
            }
        }
    }

    /// Deletes the record of a staked asset.
    pub(crate) fn remove_stake_record(&mut self, mint: Address)
        requires
            old(self).consistent(),
            old(self)@.stakes.contains_key(mint),
        ensures
            final(self).consistent(),
            final(self)@ == (RegistryModel { stakes: old(self)@.stakes.remove(mint), ..old(self)@ }),
    {
        let ghost old_stakes = self.stakes@;
        let i = self.find_stake(mint);
        proof {
            if i is None {
                assert(false);
            }
        }
        let i = i.unwrap();
        self.stakes.remove(i);
        self.stake_index = Ghost(self.stake_index@.remove(mint));
        proof {
            let ii = i as int;
            old_stakes.remove_ensures(ii);
            assert forall|k: int| 0 <= k < self.stakes@.len() implies #[trigger] self.stakes@[k]
                == old_stakes[if k < ii { k } else { k + 1 }] && self.stakes@[k].mint != mint by {
                if k < ii {
                    assert(old_stakes[k].mint != old_stakes[ii].mint);
                } else {
                    assert(old_stakes[ii].mint != old_stakes[k + 1].mint);
                }
            }
            assert forall|a: int, b: int| 0 <= a < b < self.stakes@.len() implies #[trigger] self.stakes@[a].mint
                != #[trigger] self.stakes@[b].mint by {
                let oa = if a < ii { a } else { a + 1 };
                let ob = if b < ii { b } else { b + 1 };
                assert(self.stakes@[a] == old_stakes[oa]);
                assert(self.stakes@[b] == old_stakes[ob]);
                assert(old_stakes[oa].mint != old_stakes[ob].mint);
            }
            assert forall|m: Address| #[trigger]
                self.stake_index@.contains_key(m) implies exists|k: int|
                0 <= k < self.stakes@.len() && #[trigger] self.stakes@[k].mint == m by {
                let j = choose|j: int| 0 <= j < old_stakes.len() && #[trigger] old_stakes[j].mint == m;
                assert(j != ii);
                let k = if j < ii { j } else { j - 1 };
                assert(self.stakes@[k] == old_stakes[j]);
            }
        }
    }
}

} // verus!