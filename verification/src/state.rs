use vstd::prelude::*;

verus! {

/// The airdrop's configuration and the bookkeeping of its reward pool.
#[derive(Debug)]
pub struct State {
    /// The only address allowed to administer the airdrop.
    pub owner: String,
    /// The addresses entitled to a share of the pool.
    pub claim_drop_addrs: Vec<String>,
    /// Timestamp from which tokens start to vest.
    pub from_timestamp: u64,
    /// Timestamp at which the whole share has vested.
    pub to_timestamp: u64,
    /// Base amount granted to each listed address.
    pub claim_amount: u64,
    pub airdrop_has_ended: bool,
    pub denom: String,
    /// Number of listed users that have not yet fully claimed.
    pub num_active_users: u64,
    /// Tokens still reserved for the active users.
    pub total_reward_pool: u128,
}

/// The mathematical value of a [`State`].
pub struct StateView {
    pub owner: Seq<char>,
    pub claim_drop_addrs: Seq<Seq<char>>,
    pub from_timestamp: u64,
    pub to_timestamp: u64,
    pub claim_amount: u64,
    pub airdrop_has_ended: bool,
    pub denom: Seq<char>,
    pub num_active_users: u64,
    pub total_reward_pool: u128,
}

impl View for State {
    type V = StateView;

    open spec fn view(&self) -> StateView {
        StateView {
            owner: self.owner@,
            claim_drop_addrs: self.claim_drop_addrs.deep_view(),
            from_timestamp: self.from_timestamp,
            to_timestamp: self.to_timestamp,
            claim_amount: self.claim_amount,
            airdrop_has_ended: self.airdrop_has_ended,
            denom: self.denom@,
            num_active_users: self.num_active_users,
            total_reward_pool: self.total_reward_pool,
        }
    }
}

/// The configuration as stored before the token denomination and the pool
/// bookkeeping were kept.
#[derive(Debug)]
pub struct OldState {
    pub owner: String,
    pub claim_drop_addrs: Vec<String>,
    pub from_timestamp: u64,
    pub to_timestamp: u64,
    pub claim_amount: u64,
    pub airdrop_has_ended: bool,
}

/// The mathematical value of an [`OldState`].
pub struct OldStateView {
    pub owner: Seq<char>,
    pub claim_drop_addrs: Seq<Seq<char>>,
    pub from_timestamp: u64,
    pub to_timestamp: u64,
    pub claim_amount: u64,
    pub airdrop_has_ended: bool,
}

impl View for OldState {
    type V = OldStateView;

    open spec fn view(&self) -> OldStateView {
        OldStateView {
            owner: self.owner@,
            claim_drop_addrs: self.claim_drop_addrs.deep_view(),
            from_timestamp: self.from_timestamp,
            to_timestamp: self.to_timestamp,
            claim_amount: self.claim_amount,
            airdrop_has_ended: self.airdrop_has_ended,
        }
    }
}

/// What the contract records about one listed address.
#[derive(Clone, Copy, Debug, PartialEq, Eq, Structural)]
pub struct UserInfo {
    /// Tokens the user has received so far.
    pub claimed_amount: u128,
    pub total_claimable_amount: u128,
    pub current_claimable_amount: u128,
    pub has_fully_claimed: bool,
}

/// The record of an address the contract has never written.
pub open spec fn default_user() -> UserInfo {
    UserInfo {
        claimed_amount: 0,
        total_claimable_amount: 0,
        current_claimable_amount: 0,
        has_fully_claimed: false,
    }
}

impl Default for UserInfo {
    fn default() -> (r: UserInfo)
        ensures
            r == default_user(),
    {
        UserInfo {
            claimed_amount: 0,
            total_claimable_amount: 0,
            current_claimable_amount: 0,
            has_fully_claimed: false,
        }
    }
}

/// The record of `addr` in `users`, or the default record when there is none.
pub open spec fn user_of(users: Map<Seq<char>, UserInfo>, addr: Seq<char>) -> UserInfo {
    if users.contains_key(addr) {
        users[addr]
    } else {
        default_user()
    }
}

/// The number of distinct addresses of `addrs` whose record in `users` is
/// not marked as fully claimed (an address without a record counts as not
/// fully claimed).
pub open spec fn active_count(users: Map<Seq<char>, UserInfo>, addrs: Seq<Seq<char>>) -> nat
    decreases addrs.len(),
{
    if addrs.len() == 0 {
        0
    } else {
        let prev = active_count(users, addrs.drop_last());
        if addrs.drop_last().contains(addrs.last()) || user_of(users, addrs.last()).has_fully_claimed {
            prev
        } else {
            prev + 1
        }
    }
}

/// The number of distinct addresses in `addrs`.
pub open spec fn distinct_count(addrs: Seq<Seq<char>>) -> nat {
    active_count(Map::empty(), addrs)
}

/// There are never more active addresses than addresses.
pub proof fn lemma_active_count_bound(users: Map<Seq<char>, UserInfo>, addrs: Seq<Seq<char>>)
    ensures
        active_count(users, addrs) <= addrs.len(),
    decreases addrs.len(),
{
    if addrs.len() > 0 {
        lemma_active_count_bound(users, addrs.drop_last());
    }
}

/// The count depends only on the fully-claimed marks of the listed addresses.
pub proof fn lemma_active_count_same_marks(
    u1: Map<Seq<char>, UserInfo>,
    u2: Map<Seq<char>, UserInfo>,
    addrs: Seq<Seq<char>>,
)
    requires
        forall|a: Seq<char>|
            #[trigger] addrs.contains(a) ==> user_of(u1, a).has_fully_claimed == user_of(
                u2,
                a,
            ).has_fully_claimed,
    ensures
        active_count(u1, addrs) == active_count(u2, addrs),
    decreases addrs.len(),
{
    if addrs.len() > 0 {
        let init = addrs.drop_last();
        assert forall|a: Seq<char>| #[trigger] init.contains(a) implies user_of(
            u1,
            a,
        ).has_fully_claimed == user_of(u2, a).has_fully_claimed by {
            let j = choose|j: int| 0 <= j < init.len() && init[j] == a;
            assert(addrs[j] == a);
            assert(addrs.contains(a));
        }
        lemma_active_count_same_marks(u1, u2, init);
        assert(addrs[addrs.len() - 1] == addrs.last());
        assert(addrs.contains(addrs.last()));
    }
}

/// Appending one address adds one to the count exactly when the address is
/// new to the sequence and its record is not marked as fully claimed.
pub proof fn lemma_active_count_push(
    users: Map<Seq<char>, UserInfo>,
    addrs: Seq<Seq<char>>,
    a: Seq<char>,
)
    ensures
        active_count(users, addrs.push(a)) == active_count(users, addrs) + (if addrs.contains(a)
            || user_of(users, a).has_fully_claimed {
            0int
        } else {
            1int
        }),
{
    assert(addrs.push(a).drop_last() =~= addrs);
}

/// Marking one listed, not yet finished address as fully claimed lowers the
/// count by exactly one.
pub proof fn lemma_active_count_finish(
    users: Map<Seq<char>, UserInfo>,
    addrs: Seq<Seq<char>>,
    k: Seq<char>,
    v: UserInfo,
)
    requires
        addrs.contains(k),
        !user_of(users, k).has_fully_claimed,
        v.has_fully_claimed,
    ensures
        active_count(users.insert(k, v), addrs) + 1 == active_count(users, addrs),
    decreases addrs.len(),
{
    let init = addrs.drop_last();
    let x = addrs.last();
    let users2 = users.insert(k, v);
    if init.contains(k) {
        lemma_active_count_finish(users, init, k, v);
        if x == k {
        } else {
            assert(user_of(users2, x) == user_of(users, x));
        }
    } else {
        assert(x == k) by {
            let j = choose|j: int| 0 <= j < addrs.len() && addrs[j] == k;
            if j < addrs.len() - 1 {
                assert(init[j] == k);
            }
        }
        assert forall|a: Seq<char>| #[trigger] init.contains(a) implies user_of(
            users2,
            a,
        ).has_fully_claimed == user_of(users, a).has_fully_claimed by {
            assert(a != k);
        }
        lemma_active_count_same_marks(users2, users, init);
        assert(user_of(users2, k) == v);
    }
}

/// One stored user record.
#[derive(Debug)]
pub struct UserEntry {
    pub addr: String,
    pub info: UserInfo,
}

/// The user records of the contract, keyed by address.
#[derive(Debug)]
pub struct UserBook {
    entries: Vec<UserEntry>,
}

impl UserBook {
    #[verifier::type_invariant]
    spec fn keys_distinct(self) -> bool {
        forall|i: int, j: int|
            0 <= i < self.entries@.len() && 0 <= j < self.entries@.len() && i != j
                ==> self.entries@[i].addr@ != self.entries@[j].addr@
    }

    spec fn has_key(self, k: Seq<char>) -> bool {
        exists|i: int| 0 <= i < self.entries@.len() && self.entries@[i].addr@ == k
    }

    spec fn index_of(self, k: Seq<char>) -> int {
        choose|i: int| 0 <= i < self.entries@.len() && self.entries@[i].addr@ == k
    }

    /// The records as a map from address to record.
    pub closed spec fn view(&self) -> Map<Seq<char>, UserInfo> {
        Map::new(|k: Seq<char>| self.has_key(k), |k: Seq<char>| self.entries@[self.index_of(k)].info)
    }

    proof fn lemma_entry(self, i: int)
        requires
            self.keys_distinct(),
            0 <= i < self.entries@.len(),
        ensures
            self.view().contains_key(self.entries@[i].addr@),
            self.view()[self.entries@[i].addr@] == self.entries@[i].info,
    {
        let k = self.entries@[i].addr@;
        assert(self.has_key(k));
        let j = self.index_of(k);
        assert(self.entries@[j].addr@ == k);
    }

    /// A book without records.
    pub fn new() -> (b: UserBook)
        ensures
            b@ == Map::<Seq<char>, UserInfo>::empty(),
    {
        let b = UserBook { entries: Vec::new() };
        assert(b@ =~= Map::<Seq<char>, UserInfo>::empty());
        b
    }

    fn find(&self, addr: &String) -> (r: Option<usize>)
        ensures
            match r {
                Some(i) => i < self.entries@.len() && self.entries@[i as int].addr@ == addr@,
                None => !self.has_key(addr@),
            },
    {
        let n = self.entries.len();
        for i in 0..n
            invariant
                n == self.entries@.len(),
                forall|j: int| 0 <= j < i ==> self.entries@[j].addr@ != addr@,
        {
            if self.entries[i].addr == *addr {
                return Some(i);
            }
        }
        None
    }

    /// The record of `addr`, if the book holds one.
    pub fn get(&self, addr: &String) -> (r: Option<UserInfo>)
        ensures
            r == (if self@.contains_key(addr@) {
                Some(self@[addr@])
            } else {
                None::<UserInfo>
            }),
    {
        proof {
            use_type_invariant(self);
        }
        match self.find(addr) {
            Some(i) => {
                proof {
                    self.lemma_entry(i as int);
                }
                Some(self.entries[i].info)
            },
            None => None,
        }
    }

    /// The record of `addr`, or the default record when there is none.
    pub fn load_or_default(&self, addr: &String) -> (r: UserInfo)
        ensures
            r == user_of(self@, addr@),
    {
        match self.get(addr) {
            Some(u) => u,
            None => UserInfo::default(),
        }
    }

    /// Writes the record of `addr`, replacing any earlier one.
    pub fn insert(&mut self, addr: String, info: UserInfo)
        ensures
            final(self)@ == old(self)@.insert(addr@, info),
    {
        proof {
            use_type_invariant(&*self);
        }
        let ghost before = *self;
        let ghost key = addr@;
        match self.find(&addr) {
            Some(i) => {
                let mut entries = Vec::new();
                std::mem::swap(&mut entries, &mut self.entries);
                entries.set(i, UserEntry { addr, info });
                self.entries = entries;
                proof {
                    use_type_invariant(&*self);
                    assert(before.entries@[i as int].addr@ == key);
                    assert forall|k: Seq<char>|
                        #[trigger] self.has_key(k) == before.has_key(k) by {
                        if before.has_key(k) {
                            let j = before.index_of(k);
                            assert(self.entries@[j].addr@ == k);
                        }
                        if self.has_key(k) {
                            let j = self.index_of(k);
                            assert(before.entries@[j].addr@ == k);
                        }
                    }
                    assert forall|k: Seq<char>| #[trigger] self.has_key(k) implies
                        self@[k] == before@.insert(key, info)[k] by {
                        let j = self.index_of(k);
                        self.lemma_entry(j);
                        if j != i {
                            before.lemma_entry(j);
                        }
                    }
                    assert(self@ =~= before@.insert(key, info));
                }
            },
            None => {
                let mut entries = Vec::new();
                std::mem::swap(&mut entries, &mut self.entries);
                entries.push(UserEntry { addr, info });
                self.entries = entries;
                proof {
                    use_type_invariant(&*self);
                    let n = before.entries@.len() as int;
                    assert forall|k: Seq<char>|
                        #[trigger] self.has_key(k) == (before.has_key(k) || k == key) by {
                        if before.has_key(k) {
                            let j = before.index_of(k);
                            assert(self.entries@[j].addr@ == k);
                        }
                        if k == key {
                            assert(self.entries@[n].addr@ == k);
                        }
                        if self.has_key(k) && k != key {
                            let j = self.index_of(k);
                            assert(j != n);
                            assert(before.entries@[j].addr@ == k);
                        }
                    }
                    assert forall|k: Seq<char>| #[trigger] self.has_key(k) implies
                        self@[k] == before@.insert(key, info)[k] by {
                        let j = self.index_of(k);
                        self.lemma_entry(j);
                        if j != n {
                            before.lemma_entry(j);
                        }
                    }
                    assert(self@ =~= before@.insert(key, info));
                }
            },
        }
    }

    /// All records of the book, one per address.
    pub fn entries(&self) -> (r: &Vec<UserEntry>)
        ensures
            forall|i: int|
                0 <= i < r@.len() ==> #[trigger] self@.contains_key(r@[i].addr@)
                    && self@[r@[i].addr@] == r@[i].info,
            forall|k: Seq<char>|
                #[trigger] self@.contains_key(k) ==> exists|i: int|
                    0 <= i < r@.len() && r@[i].addr@ == k,
            forall|i: int, j: int|
                0 <= i < r@.len() && 0 <= j < r@.len() && i != j ==> r@[i].addr@ != r@[j].addr@,
    {
        proof {
            use_type_invariant(self);
            assert forall|i: int| 0 <= i < self.entries@.len() implies
                #[trigger] self@.contains_key(self.entries@[i].addr@)
                && self@[self.entries@[i].addr@] == self.entries@[i].info by {
                self.lemma_entry(i);
            }
        }
        &self.entries
    }
}

/// Everything the contract keeps: its configuration and its user records.
#[derive(Debug)]
pub struct Store {
    pub state: State,
    pub users: UserBook,
}

/// The mathematical value of a [`Store`].
pub struct StoreView {
    pub state: StateView,
    pub users: Map<Seq<char>, UserInfo>,
}

impl View for Store {
    type V = StoreView;

    open spec fn view(&self) -> StoreView {
        StoreView { state: self.state@, users: self.users@ }
    }
}

} // verus!
