//! Data model of the WebRTC signalling server: chunks, connection records and
//! the table of live peer connections, keyed by client id.

use std::collections::HashMap;
use vstd::prelude::*;
use vstd::std_specs::iter::IteratorSpec;

verus! {

broadcast use vstd::std_specs::hash::group_hash_axioms;

/// A client entry as reported by the client listing.
#[derive(Debug, Clone, Copy, PartialEq, Eq, Structural)]
pub struct Connection {
    pub id: u64,
}

/// A map chunk: sixteen cells and a position in space.
#[derive(Debug, Clone, Copy, PartialEq, Eq)]
pub struct Chunk {
    pub map: [i32; 16],
    pub position: [i32; 3],
}

impl Chunk {
    /// An empty chunk at the origin.
    pub fn new() -> (c: Chunk)
        ensures
            c.map@ == Seq::new(16, |i: int| 0i32),
            c.position@ == Seq::new(3, |i: int| 0i32),
    {
        let c = Chunk {
            map: [0, 0, 0, 0, 0, 0, 0, 0, 0, 0, 0, 0, 0, 0, 0, 0],
            position: [0, 0, 0],
        };
        assert(c.map@ =~= Seq::new(16, |i: int| 0i32));
        assert(c.position@ =~= Seq::new(3, |i: int| 0i32));
        c
    }
}

/// The table of live peer connections, keyed by client id.
pub struct WebRtcClients<C> {
    connections: HashMap<u64, C>,
}

impl<C> View for WebRtcClients<C> {
    type V = Map<u64, C>;

    closed spec fn view(&self) -> Map<u64, C> {
        self.connections@
    }
}

/// The ids that a client listing reports, taken as a set.
pub open spec fn listed_ids(list: Seq<Connection>) -> Set<u64> {
    list.map_values(|c: Connection| c.id).to_set()
}

impl<C> WebRtcClients<C> {
    /// An empty table.
    pub fn new() -> (s: Self)
        ensures
            s@.dom().finite(),
            s@ == Map::<u64, C>::empty(),
    {
        WebRtcClients { connections: HashMap::new() }
    }

    /// Records the connection of client `id`, replacing any earlier one.
    pub fn add_connection(&mut self, id: u64, connection: C)
        ensures
            final(self)@.dom().finite(),
            final(self)@ == old(self)@.insert(id, connection),
    {
        self.connections.insert(id, connection);
    }

    /// Forgets the connection of client `id`, if there is one.
    pub fn remove_connection(&mut self, id: u64)
        ensures
            final(self)@.dom().finite(),
            final(self)@ == old(self)@.remove(id),
    {
        self.connections.remove(&id);
    }

    /// One `Connection` record per connected client, each id once.
    pub fn connection_list(&self) -> (list: Vec<Connection>)
        ensures
            list@.len() == self@.dom().len(),
            list@.map_values(|c: Connection| c.id).no_duplicates(),
            listed_ids(list@) == self@.dom(),
    {
        let ghost keys = self.connections.keys().remaining();
        let mut list: Vec<Connection> = Vec::new();
        for k in it: self.connections.keys()
            invariant
                it.seq() == keys,
                list@.len() == it.index(),
                forall|j: int| 0 <= j < it.index() ==> list@[j].id == *it.seq()[j],
        {
            list.push(Connection { id: *k });
        }
        assert(list@.map_values(|c: Connection| c.id) =~= keys.unref());
        list
    }
}

/// The states of an ICE connection, as the WebRTC stack reports them.
#[derive(Debug, Clone, Copy, PartialEq, Eq, Structural)]
pub enum IceConnectionState {
    Unspecified,
    New,
    Checking,
    Connected,
    Completed,
    Disconnected,
    Failed,
    Closed,
}

/// What the server does when a client's ICE connection changes state.
#[derive(Debug, Clone, Copy, PartialEq, Eq, Structural)]
pub enum IceAction {
    /// The client is dropped from the table of live connections.
    RemoveClient,
    /// Nothing changes.
    NoAction,
}

/// The reaction to an ICE state: only a disconnection drops the client.
pub open spec fn ice_reaction(state: IceConnectionState) -> IceAction {
    if state is Disconnected {
        IceAction::RemoveClient
    } else {
        IceAction::NoAction
    }
}

/// Decides how the server reacts to an ICE state change.
pub fn ice_state_action(state: IceConnectionState) -> (action: IceAction)
    ensures
        action == ice_reaction(state),
{
    match state {
        IceConnectionState::Disconnected => IceAction::RemoveClient,
        _ => IceAction::NoAction,
    }
}

impl<C> WebRtcClients<C> {
    /// Reacts to a change of the ICE state of client `client_id`: a
    /// disconnected client leaves the table, any other state leaves it as it is.
    pub fn on_ice_state_change(&mut self, client_id: u64, state: IceConnectionState) -> (action:
        IceAction)
        ensures
            final(self)@.dom().finite(),
            action == ice_reaction(state),
            action is RemoveClient ==> final(self)@ == old(self)@.remove(client_id),
            action is NoAction ==> final(self)@ == old(self)@,
    {
        let action = ice_state_action(state);
        match action {
            IceAction::RemoveClient => self.remove_connection(client_id),
            IceAction::NoAction => {},
        }
        action
    }
}

impl<C> Default for WebRtcClients<C> {
    fn default() -> (s: Self)
        ensures
            s@.dom().finite(),
            s@ == Map::<u64, C>::empty(),
    {
        WebRtcClients::new()
    }
}

/// A table holds finitely many connections.
pub proof fn lemma_clients_finite<C>(clients: &WebRtcClients<C>)
    ensures
        clients@.dom().finite(),
{
}

/// A client whose ICE connection is reported disconnected no longer appears
/// in the client listing, whatever the table held before.
pub proof fn lemma_disconnected_client_unlisted<C>(
    before: Map<u64, C>,
    client_id: u64,
    after: Map<u64, C>,
    list: Seq<Connection>,
)
    requires
        after == before.remove(client_id),
        listed_ids(list) == after.dom(),
    ensures
        !listed_ids(list).contains(client_id),
{
}

/// A client that connects and is then reported disconnected leaves the table
/// as it was without that client.
pub proof fn lemma_connect_then_disconnect<C>(before: Map<u64, C>, client_id: u64, connection: C)
    ensures
        before.insert(client_id, connection).remove(client_id) == before.remove(client_id),
{
    assert(before.insert(client_id, connection).remove(client_id) =~= before.remove(client_id));
}

} // verus!
