//! The chat server's messages and its registry of connected sessions: each
//! session is registered under a fresh random id and leaves it on unregister.

use std::collections::HashMap;
use vstd::prelude::*;
use vstd::std_specs::iter::IteratorSpec;

verus! {

broadcast use vstd::std_specs::hash::group_hash_axioms;

/// A text message delivered to a session.
pub struct StrMessage(pub String);

/// A map request of a session: user id and friend id.
#[derive(Debug, Clone, Copy, PartialEq, Eq, Structural)]
pub struct GetMap(pub u64, pub u64);

/// A request to register a session, carrying the address the server answers to.
pub struct Register<R>(pub R);

/// A request to forget the session with the given id.
#[derive(Debug, Clone, Copy, PartialEq, Eq, Structural)]
pub struct Unregister(pub u64);

/// A registered session: its optional name and the address to reach it.
pub struct Client<R> {
    pub name: Option<String>,
    pub recipient: R,
}

/// The chat server: the registered sessions, keyed by id.
pub struct WsChatServer<R> {
    clients: HashMap<u64, Client<R>>,
}

impl<R> View for WsChatServer<R> {
    type V = Map<u64, Client<R>>;

    closed spec fn view(&self) -> Map<u64, Client<R>> {
        self.clients@
    }
}

/// How many random ids `register` draws before it falls back, deterministically,
/// to the smallest free id.
pub const RANDOM_ATTEMPTS: u32 = 64;

/// The ids below `k`.
pub open spec fn ids_below(k: nat) -> Set<u64> {
    Set::new(|i: u64| (i as nat) < k)
}

/// There are exactly `k` ids below `k`.
pub proof fn lemma_ids_below_len(k: nat)
    requires
        k <= u64::MAX + 1,
    ensures
        ids_below(k).finite(),
        ids_below(k).len() == k,
    decreases k,
{
    if k == 0 {
        assert(ids_below(0) =~= Set::<u64>::empty());
    } else {
        lemma_ids_below_len((k - 1) as nat);
        assert(ids_below(k) =~= ids_below((k - 1) as nat).insert((k - 1) as u64));
    }
}

/// A finite set of `n` ids cannot hold every id in `0..=n`.
pub proof fn lemma_some_id_free(dom: Set<u64>, n: nat)
    requires
        dom.finite(),
        dom.len() == n,
        n <= u64::MAX,
    ensures
        exists|i: u64| (i as nat) <= n && !dom.contains(i),
{
    if forall|i: u64| (i as nat) <= n ==> dom.contains(i) {
        lemma_ids_below_len(n + 1);
        assert(ids_below(n + 1).subset_of(dom));
        vstd::set_lib::lemma_len_subset(ids_below(n + 1), dom);
    }
}

/// Calls `rand::random::<u64>()`, which draws from the thread-local generator.
/// Nothing is promised of the value: any `u64` may come back, and two calls may differ.
#[verifier::external_body]
fn random_u64() -> u64 {
    rand::random::<u64>()
}

impl<R> WsChatServer<R> {
    /// A server with no session registered.
    pub fn new() -> (s: Self)
        ensures
            s@.dom().finite(),
            s@ == Map::<u64, Client<R>>::empty(),
    {
        WsChatServer { clients: HashMap::new() }
    }

    /// Whether a session is registered under `id`.
    pub fn contains(&self, id: u64) -> (b: bool)
        ensures
            self@.dom().finite(),
            b == self@.contains_key(id),
    {
        self.clients.contains_key(&id)
    }

    /// The number of registered sessions.
    pub fn len(&self) -> (n: usize)
        ensures
            self@.dom().finite(),
            n == self@.len(),
    {
        self.clients.len()
    }

    /// Registers `recipient` under `id` when that id is free, and otherwise
    /// hands the recipient back and changes nothing.
    pub fn register_as(&mut self, id: u64, recipient: R) -> (res: Result<u64, R>)
        ensures
            final(self)@.dom().finite(),
            old(self)@.contains_key(id) ==> res == Err::<u64, R>(recipient) && final(self)@ == old(
                self,
            )@,
            !old(self)@.contains_key(id) ==> res == Ok::<u64, R>(id) && final(self)@ == old(
                self,
            )@.insert(id, Client { name: None, recipient }),
    {
        if self.clients.contains_key(&id) {
            Err(recipient)
        } else {
            self.clients.insert(id, Client { name: None, recipient });
            Ok(id)
        }
    }

    /// The smallest id that no session holds.
    pub fn first_free_id(&self) -> (id: u64)
        ensures
            !self@.contains_key(id),
            forall|i: u64| i < id ==> self@.contains_key(i),
    {
        let n: u64 = self.clients.len() as u64;
        proof {
            lemma_some_id_free(self@.dom(), n as nat);
        }
        let mut candidate: u64 = 0;
        while self.clients.contains_key(&candidate)
            invariant
                n == self@.dom().len(),
                candidate <= n,
                forall|i: u64| i < candidate ==> self@.contains_key(i),
                exists|i: u64| (i as nat) <= n && !self@.dom().contains(i),
            decreases n - candidate,
        {
            if candidate == n {
                // every id up to `n` is taken, against the bound on the table's size
                assert(forall|i: u64| (i as nat) <= n ==> self@.contains_key(i));
            }
            candidate = candidate + 1;
        }
        candidate
    }

    /// The id that registration takes, given the ids drawn at random in the
    /// order they were drawn: the first drawn id that is free, or, when every
    /// drawn id is taken, the smallest free id.
    pub fn choose_id(&self, draws: &Vec<u64>) -> (id: u64)
        ensures
            !self@.contains_key(id),
            first_free_draw(self@, draws@) matches Some(d) ==> id == d,
            first_free_draw(self@, draws@) is None ==> forall|i: u64|
                i < id ==> self@.contains_key(i),
    {
        let mut i: usize = 0;
        assert(draws@.skip(0) =~= draws@);
        while i < draws.len()
            invariant
                i <= draws@.len(),
                first_free_draw(self@, draws@) == first_free_draw(self@, draws@.skip(i as int)),
            decreases draws@.len() - i,
        {
            let d = draws[i];
            assert(draws@.skip(i as int)[0] == d);
            if !self.clients.contains_key(&d) {
                return d;
            }
            assert(draws@.skip(i as int).drop_first() =~= draws@.skip(i + 1));
            i = i + 1;
        }
        assert(draws@.skip(i as int) =~= Seq::<u64>::empty());
        self.first_free_id()
    }

    /// Registers `recipient` under a fresh id and returns that id. Ids are
    /// drawn at random, one after another, until one is free or
    /// `RANDOM_ATTEMPTS` have been drawn; the id is then `choose_id` of the
    /// draws: the free draw, or, if every draw was taken, the smallest free id,
    /// chosen deterministically. (The cap keeps the loop bounded; reaching it
    /// is practically impossible.)
    pub fn register(&mut self, recipient: R) -> (id: u64)
        ensures
            !old(self)@.contains_key(id),
            final(self)@.dom().finite(),
            final(self)@ == old(self)@.insert(id, Client { name: None, recipient }),
    {
        let mut draws: Vec<u64> = Vec::new();
        let mut found = false;
        let mut attempts: u32 = 0;
        while attempts < RANDOM_ATTEMPTS && !found
            invariant
                attempts <= RANDOM_ATTEMPTS,
            decreases RANDOM_ATTEMPTS - attempts,
        {
            let candidate = random_u64();
            draws.push(candidate);
            found = !self.clients.contains_key(&candidate);
            attempts = attempts + 1;
        }
        let id = self.choose_id(&draws);
        let registered = self.register_as(id, recipient);
        proof {
            assert(registered is Ok);
        }
        id
    }

    /// Forgets the session registered under `id`, if there is one.
    pub fn unregister(&mut self, id: u64)
        ensures
            final(self)@.dom().finite(),
            final(self)@ == old(self)@.remove(id),
    {
        if self.clients.contains_key(&id) {
            self.clients.remove(&id);
        }
        proof {
            assert(final(self)@ =~= old(self)@.remove(id));
        }
    }

    /// The ids of all registered sessions, each once.
    pub fn client_ids(&self) -> (ids: Vec<u64>)
        ensures
            ids@.len() == self@.dom().len(),
            ids@.no_duplicates(),
            ids@.to_set() == self@.dom(),
    {
        let ghost keys = self.clients.keys().remaining();
        let mut ids: Vec<u64> = Vec::new();
        for k in it: self.clients.keys()
            invariant
                it.seq() == keys,
                ids@.len() == it.index(),
                forall|j: int| 0 <= j < it.index() ==> ids@[j] == *it.seq()[j],
        {
            ids.push(*k);
        }
        assert(ids@ =~= keys.unref());
        ids
    }

    /// Handles a `Register` message: the new session's id.
    pub fn handle_register(&mut self, msg: Register<R>) -> (id: u64)
        ensures
            final(self)@.dom().finite(),
            !old(self)@.contains_key(id),
            final(self)@ == old(self)@.insert(id, Client { name: None, recipient: msg.0 }),
    {
        let Register(recipient) = msg;
        self.register(recipient)
    }

    /// Handles an `Unregister` message.
    pub fn handle_unregister(&mut self, msg: Unregister)
        ensures
            final(self)@.dom().finite(),
            final(self)@ == old(self)@.remove(msg.0),
    {
        let Unregister(id) = msg;
        self.unregister(id)
    }

    /// Handles a `GetMap` message: the ids of the registered sessions, which
    /// the server reports.
    pub fn handle_get_map(&self, msg: GetMap) -> (ids: Vec<u64>)
        ensures
            ids@.no_duplicates(),
            ids@.to_set() == self@.dom(),
    {
        self.client_ids()
    }
}

impl<R> Default for WsChatServer<R> {
    fn default() -> (s: Self)
        ensures
            s@.dom().finite(),
            s@ == Map::<u64, Client<R>>::empty(),
    {
        WsChatServer::new()
    }
}

/// The first id in `draws` that `taken` does not hold, if there is one.
pub open spec fn first_free_draw<V>(taken: Map<u64, V>, draws: Seq<u64>) -> Option<u64>
    decreases draws.len(),
{
    if draws.len() == 0 {
        None
    } else if !taken.contains_key(draws[0]) {
        Some(draws[0])
    } else {
        first_free_draw(taken, draws.drop_first())
    }
}

/// A server holds finitely many sessions.
pub proof fn lemma_server_finite<R>(server: &WsChatServer<R>)
    ensures
        server@.dom().finite(),
{
}

/// Registering a session and then unregistering its id gives back the
/// registry as it was before.
pub proof fn lemma_register_then_unregister<R>(before: Map<u64, Client<R>>, id: u64, client: Client<R>)
    requires
        !before.contains_key(id),
    ensures
        before.insert(id, client).remove(id) == before,
{
    assert(before.insert(id, client).remove(id) =~= before);
}

/// Two sessions registered one after the other get different ids.
pub proof fn lemma_registered_ids_differ<R>(
    before: Map<u64, Client<R>>,
    first: u64,
    client: Client<R>,
    second: u64,
)
    requires
        !before.contains_key(first),
        !before.insert(first, client).contains_key(second),
    ensures
        first != second,
{
}

/// Unregistering an id that no session holds changes nothing.
pub proof fn lemma_unregister_absent<R>(before: Map<u64, Client<R>>, id: u64)
    requires
        !before.contains_key(id),
    ensures
        before.remove(id) == before,
{
    assert(before.remove(id) =~= before);
}

} // verus!
