//! The gateway's registry: who is known, where they listen, which
//! connection carries them, and the buddy group that holds copies of their
//! messages while they are away.
use vstd::prelude::*;
use crate::wire::{bytes_eq, copy_all};

verus! {

/// How many addresses a buddy group holds.
pub const GROUP_SIZE: usize = 10;

/// The stable hash of a username that places it among the buddy groups.
pub uninterp spec fn seed_of(name: Seq<u8>) -> u64;

/// Relies on std's `BuildHasher::hash_one` over `BuildHasherDefault<DefaultHasher>`:
/// every `DefaultHasher` made by `default` is documented to be the same as
/// every other one made so (no per-process random keys, unlike `RandomState`),
/// so within one build the hash depends on the bytes of the name alone.
#[verifier::external_body]
fn calculate_hash(name: &[u8]) -> (h: u64)
    ensures
        h == seed_of(name@),
{
    std::hash::BuildHasher::hash_one(
        &std::hash::BuildHasherDefault::<std::collections::hash_map::DefaultHasher>::default(),
        name,
    )
}

/// A user known to the gateway.
#[derive(Debug, PartialEq, Eq)]
pub struct User {
    pub username: Vec<u8>,
    pub address: Vec<u8>,
    /// The connection that carries this user, while one does.
    pub handle: Option<u64>,
    pub group_seed: u64,
}

/// What a user record holds.
pub struct UserView {
    pub username: Seq<u8>,
    pub address: Seq<u8>,
    pub handle: Option<u64>,
    pub group_seed: u64,
}

impl View for User {
    type V = UserView;

    open spec fn view(&self) -> UserView {
        UserView {
            username: self.username@,
            address: self.address@,
            handle: self.handle,
            group_seed: self.group_seed,
        }
    }
}

/// What `register` tells the user who registered.
#[derive(Debug, PartialEq, Eq, Clone, Copy)]
pub struct GroupAssignment {
    pub group_seed: u64,
    pub population: usize,
}

/// Why no buddy group could be given.
#[derive(PartialEq, Eq, Structural, Debug, Clone, Copy)]
pub enum BuddyError {
    UnknownUser,
    /// Fewer users than one group needs.
    InsufficientPopulation,
}

/// `users[i]` is the record of `name`.
pub open spec fn is_user_at(users: Seq<UserView>, name: Seq<u8>, i: int) -> bool {
    0 <= i < users.len() && users[i].username == name
}

pub open spec fn registered(users: Seq<UserView>, name: Seq<u8>) -> bool {
    exists|i: int| is_user_at(users, name, i)
}

/// The position of the record of `name`, if there is one.
pub open spec fn position_of(users: Seq<UserView>, name: Seq<u8>) -> Option<int> {
    if registered(users, name) {
        Some(choose|i: int| is_user_at(users, name, i))
    } else {
        None
    }
}

/// Usernames are unique, each seed is the hash of its name, and no two
/// users are bound to one connection.
pub open spec fn registry_wf(users: Seq<UserView>) -> bool {
    &&& forall|i: int, j: int|
        0 <= i < users.len() && 0 <= j < users.len() && users[i].username == users[j].username
            ==> i == j
    &&& forall|i: int| 0 <= i < users.len() ==> users[i].group_seed == seed_of(#[trigger] users[i].username)
    &&& forall|i: int, j: int|
        0 <= i < users.len() && 0 <= j < users.len() && i != j && (#[trigger] users[i].handle) is Some
            ==> users[i].handle != #[trigger] users[j].handle
}

/// The records once connection `h` is bound to nobody.
pub open spec fn release_spec(users: Seq<UserView>, h: u64) -> Seq<UserView> {
    Seq::new(
        users.len(),
        |i: int|
            if users[i].handle == Some(h) {
                UserView { handle: None, ..users[i] }
            } else {
                users[i]
            },
    )
}

/// The records after `name` registers from `address` on connection `h`.
pub open spec fn register_spec(users: Seq<UserView>, name: Seq<u8>, address: Seq<u8>, h: u64) -> Seq<UserView> {
    let cleared = release_spec(users, h);
    let rec = UserView { username: name, address: address, handle: Some(h), group_seed: seed_of(name) };
    match position_of(users, name) {
        Some(i) => cleared.update(i, rec),
        None => cleared.push(rec),
    }
}

/// The buddy group that `seed` picks: the population is cut into
/// `t / GROUP_SIZE` groups, the seed picks one, and the group is the
/// `GROUP_SIZE` addresses from its start, wrapping at the end of the list.
pub open spec fn group_for_seed_spec(users: Seq<UserView>, seed: u64) -> Result<Seq<Seq<u8>>, BuddyError> {
    let t = users.len();
    let groups = t / (GROUP_SIZE as nat);
    if groups == 0 {
        Err(BuddyError::InsufficientPopulation)
    } else {
        let offset = seed as nat % groups;
        Ok(Seq::new(GROUP_SIZE as nat, |n: int| users[((offset + n) % (t as int))].address))
    }
}

/// The buddy group of `name`, picked by the hash of the name.
pub open spec fn buddy_group_spec(users: Seq<UserView>, name: Seq<u8>) -> Result<Seq<Seq<u8>>, BuddyError> {
    if !registered(users, name) {
        Err(BuddyError::UnknownUser)
    } else {
        group_for_seed_spec(users, seed_of(name))
    }
}

/// Buddy groups can be reproduced: two views of the population that list the
/// same users with the same addresses in the same order give every name the
/// same group, whichever connections carry the users.
pub proof fn lemma_buddy_determinism(a: Seq<UserView>, b: Seq<UserView>, name: Seq<u8>)
    requires
        a.len() == b.len(),
        forall|i: int| 0 <= i < a.len() ==> a[i].username == b[i].username && a[i].address == b[i].address,
    ensures
        buddy_group_spec(a, name) == buddy_group_spec(b, name),
{
    if registered(a, name) {
        let i = choose|i: int| is_user_at(a, name, i);
        assert(is_user_at(b, name, i));
    }
    if registered(b, name) {
        let i = choose|i: int| is_user_at(b, name, i);
        assert(is_user_at(a, name, i));
    }
    let t = a.len();
    let groups = t / (GROUP_SIZE as nat);
    if registered(a, name) && groups > 0 {
        let offset = seed_of(name) as nat % groups;
        assert(Seq::new(GROUP_SIZE as nat, |n: int| a[((offset + n) % (t as int))].address) =~= Seq::new(
            GROUP_SIZE as nat,
            |n: int| b[((offset + n) % (t as int))].address,
        ));
    }
}

/// The position of `name` once it has registered.
pub open spec fn registered_position(users: Seq<UserView>, name: Seq<u8>) -> int {
    match position_of(users, name) {
        Some(i) => i,
        None => users.len() as int,
    }
}

proof fn lemma_register_wf(users: Seq<UserView>, name: Seq<u8>, address: Seq<u8>, h: u64)
    requires
        registry_wf(users),
    ensures
        ({
            let w = register_spec(users, name, address, h);
            &&& registry_wf(w)
            &&& position_of(w, name) == Some(registered_position(users, name))
            &&& w[registered_position(users, name)] == (UserView {
                username: name,
                address,
                handle: Some(h),
                group_seed: seed_of(name),
            })
        }),
{
    let w = register_spec(users, name, address, h);
    let cleared = release_spec(users, h);
    let k = registered_position(users, name);
    assert(forall|j: int| 0 <= j < cleared.len() ==> cleared[j].username == users[j].username);
    assert(forall|j: int| 0 <= j < cleared.len() ==> cleared[j].handle != Some(h));
    assert(forall|j: int| 0 <= j < w.len() && j != k ==> w[j] == cleared[j]);
    assert forall|a: int, b: int|
        0 <= a < w.len() && 0 <= b < w.len() && w[a].username == w[b].username implies a == b by {
        if a != k && b != k {
            assert(users[a].username == users[b].username);
        } else if a != k {
            assert(is_user_at(users, name, a));
        } else if b != k {
            assert(is_user_at(users, name, b));
        }
    }
    assert forall|a: int, b: int|
        0 <= a < w.len() && 0 <= b < w.len() && a != b && (#[trigger] w[a].handle) is Some implies w[a].handle
        != #[trigger] w[b].handle by {
        if a != k && b != k {
            assert(cleared[a].handle == users[a].handle || cleared[a].handle is None);
            assert(cleared[b].handle == users[b].handle || cleared[b].handle is None);
            if cleared[b].handle is Some {
                assert(users[a].handle != users[b].handle);
            }
        }
    }
    assert(is_user_at(w, name, k));
    let c = choose|c: int| is_user_at(w, name, c);
    assert(w[c].username == w[k].username);
}

/// Registering is idempotent: registering the same user with the same
/// address on the same connection a second time changes nothing.
pub proof fn lemma_register_idempotent(users: Seq<UserView>, name: Seq<u8>, address: Seq<u8>, h: u64)
    requires
        registry_wf(users),
    ensures
        register_spec(register_spec(users, name, address, h), name, address, h) == register_spec(
            users,
            name,
            address,
            h,
        ),
{
    let once = register_spec(users, name, address, h);
    lemma_register_wf(users, name, address, h);
    let k = registered_position(users, name);
    let cleared = release_spec(once, h);
    assert forall|j: int| 0 <= j < once.len() && j != k implies once[j].handle != Some(h) by {
        assert(once[k].handle is Some);
    }
    assert(cleared.update(k, once[k]) =~= once);
}

/// Every user the gateway has seen, in the order they first registered.
pub struct Registry {
    pub users: Vec<User>,
}

impl View for Registry {
    type V = Seq<UserView>;

    open spec fn view(&self) -> Seq<UserView> {
        self.users@.map_values(|u: User| u@)
    }
}

impl Registry {
    pub open spec fn wf(&self) -> bool {
        registry_wf(self@)
    }

    /// An empty registry.
    pub fn new() -> (r: Registry)
        ensures
            r@ == Seq::<UserView>::empty(),
            r.wf(),
    {
        let r = Registry { users: Vec::new() };
        assert(r@ =~= Seq::<UserView>::empty());
        r
    }

    /// How many users are known.
    pub fn population(&self) -> (n: usize)
        ensures
            n == self@.len(),
    {
        self.users.len()
    }

    /// The position of the record of `name`.
    pub fn lookup(&self, name: &[u8]) -> (r: Option<usize>)
        requires
            self.wf(),
        ensures
            match r {
                Some(i) => position_of(self@, name@) == Some(i as int),
                None => position_of(self@, name@) is None,
            },
    {
        let mut i: usize = 0;
        while i < self.users.len()
            invariant
                0 <= i <= self.users@.len(),
                registry_wf(self@),
                forall|j: int| 0 <= j < i ==> !is_user_at(self@, name@, j),
            decreases self.users@.len() - i,
        {
            if bytes_eq(self.users[i].username.as_slice(), name) {
                assert(is_user_at(self@, name@, i as int));
                proof {
                    let k = choose|k: int| is_user_at(self@, name@, k);
                    assert(self@[k].username == self@[i as int].username);
                    assert(k == i);
                }
                return Some(i);
            }
            i = i + 1;
        }
        None
    }

    /// The address that `name` registered last, if `name` is known.
    pub fn lookup_address(&self, name: &[u8]) -> (r: Option<Vec<u8>>)
        requires
            self.wf(),
        ensures
            match position_of(self@, name@) {
                Some(i) => r is Some && r->0@ == self@[i].address,
                None => r is None,
            },
    {
        match self.lookup(name) {
            Some(i) => {
                Some(copy_all(self.users[i].address.as_slice()))
            },
            None => None,
        }
    }

    /// The connection that carries `name`, if `name` is known and connected.
    pub fn handle_of(&self, name: &[u8]) -> (r: Option<u64>)
        requires
            self.wf(),
        ensures
            r == match position_of(self@, name@) {
                Some(i) => self@[i].handle,
                None => None,
            },
    {
        match self.lookup(name) {
            Some(i) => self.users[i].handle,
            None => None,
        }
    }

    /// Binds connection `h` to nobody, as when it closes.
    pub fn release(&mut self, h: u64)
        requires
            old(self).wf(),
        ensures
            final(self)@ == release_spec(old(self)@, h),
            final(self).wf(),
            forall|i: int| 0 <= i < final(self)@.len() ==> final(self)@[i].handle != Some(h),
    {
        let ghost v = self@;
        let mut i: usize = 0;
        while i < self.users.len()
            invariant
                0 <= i <= self.users@.len(),
                self.users@.len() == v.len(),
                registry_wf(v),
                forall|j: int| 0 <= j < i ==> self@[j] == release_spec(v, h)[j],
                forall|j: int| i <= j < v.len() ==> self@[j] == v[j],
            decreases self.users@.len() - i,
        {
            if self.users[i].handle == Some(h) {
                self.users[i].handle = None;
            }
            i = i + 1;
        }
        assert(self@ =~= release_spec(v, h));
    }

    /// Records that `name` listens on `address` and is carried by connection
    /// `h`; a known user keeps their place and seed.
    pub fn register(&mut self, name: Vec<u8>, address: Vec<u8>, h: u64) -> (g: GroupAssignment)
        requires
            old(self).wf(),
            old(self)@.len() < usize::MAX,
        ensures
            final(self)@ == register_spec(old(self)@, name@, address@, h),
            final(self).wf(),
            g.group_seed == seed_of(name@),
            g.population == final(self)@.len(),
    {
        let ghost v = self@;
        let found = self.lookup(name.as_slice());
        self.release(h);
        let ghost cleared = self@;
        assert(self.users@.len() == cleared.len() && cleared.len() == v.len());
        let seed = calculate_hash(name.as_slice());
        let rec = User { username: name, address, handle: Some(h), group_seed: seed };
        match found {
            Some(i) => {
                assert(is_user_at(v, name@, i as int));
                self.users.set(i, rec);
                assert(self@ =~= cleared.update(i as int, rec@));
            },
            None => {
                self.users.push(rec);
                assert(self@ =~= cleared.push(rec@));
            },
        }
        proof {
            lemma_register_wf(v, name@, address@, h);
        }
        GroupAssignment { group_seed: seed, population: self.users.len() }
    }

    /// The buddy group of `name`.
    pub fn compute_buddy_group(&self, name: &[u8]) -> (r: Result<Vec<Vec<u8>>, BuddyError>)
        requires
            self.wf(),
        ensures
            match r {
                Ok(g) => buddy_group_spec(self@, name@) == Ok::<Seq<Seq<u8>>, BuddyError>(
                    g@.map_values(|a: Vec<u8>| a@),
                ),
                Err(e) => buddy_group_spec(self@, name@) == Err::<Seq<Seq<u8>>, BuddyError>(e),
            },
    {
        match self.lookup(name) {
            None => Err(BuddyError::UnknownUser),
            Some(i) => self.group_for_seed(self.users[i].group_seed),
        }
    }

    /// The buddy group that `seed` picks from the population.
    pub fn group_for_seed(&self, seed: u64) -> (r: Result<Vec<Vec<u8>>, BuddyError>)
        ensures
            match r {
                Ok(g) => group_for_seed_spec(self@, seed) == Ok::<Seq<Seq<u8>>, BuddyError>(
                    g@.map_values(|a: Vec<u8>| a@),
                ),
                Err(e) => group_for_seed_spec(self@, seed) == Err::<Seq<Seq<u8>>, BuddyError>(e),
            },
    {
        let t = self.users.len();
        let groups = t / GROUP_SIZE;
        if groups == 0 {
            return Err(BuddyError::InsufficientPopulation);
        }
        let offset = (seed % (groups as u64)) as usize;
        let ghost target = Seq::new(GROUP_SIZE as nat, |n: int| self@[((offset + n) % (t as int))].address);
        let mut out: Vec<Vec<u8>> = Vec::new();
        let mut n: usize = 0;
        while n < GROUP_SIZE
            invariant
                0 <= n <= GROUP_SIZE,
                t == self@.len(),
                t >= GROUP_SIZE,
                offset < groups,
                groups == t / GROUP_SIZE,
                offset == seed as nat % groups as nat,
                target == Seq::new(GROUP_SIZE as nat, |k: int| self@[((offset + k) % (t as int))].address),
                out@.map_values(|a: Vec<u8>| a@) == target.subrange(0, n as int),
            decreases GROUP_SIZE - n,
        {
            let k = (offset + n) % t;
            let copy = copy_all(self.users[k].address.as_slice());
            let ghost before = out@.map_values(|a: Vec<u8>| a@);
            out.push(copy);
            assert(out@.map_values(|a: Vec<u8>| a@) =~= before.push(target[n as int]));
            assert(target.subrange(0, n + 1) =~= target.subrange(0, n as int).push(target[n as int]));
            n = n + 1;
        }
        assert(target.subrange(0, GROUP_SIZE as int) =~= target);
        Ok(out)
    }
}

} // verus!
