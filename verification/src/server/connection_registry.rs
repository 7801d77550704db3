//! The connections that are open. What is broadcast goes to each of them.

use std::collections::HashMap;

use vstd::prelude::*;

use crate::server::session_id;

verus! {

broadcast use vstd::std_specs::hash::group_hash_axioms;

/// Stands for a connection as long as it is open.
pub type ConnId = u64;

/// The id of the next connection, by the counter of the connections there were. Ids grow until
/// there is no larger one.
pub fn next_conn_id(counter: &mut u64) -> (r: ConnId)
    ensures
        r == *old(counter),
        *final(counter) == session_id::number_after(*old(counter)),
{
    session_id::count_on(counter)
}

/// A connection: what its client calls itself, and the session, which is what it goes by. The two
/// have nothing to do with each other.
#[derive(Debug, PartialEq)]
pub struct ConnEntry {
    pub client_name: String,
    pub session_id: String,
}

/// What is known of a client.
pub struct ClientView {
    pub client_name: Seq<char>,
    pub session_id: Seq<char>,
}

impl View for ConnEntry {
    type V = ClientView;

    open spec fn view(&self) -> ClientView {
        ClientView { client_name: self.client_name@, session_id: self.session_id@ }
    }
}

/// What is known of the clients, by connection.
pub open spec fn clients_view(entries: Map<ConnId, ConnEntry>) -> Map<ConnId, ClientView> {
    entries.map_values(|e: ConnEntry| e@)
}

/// The connections that are open, by id.
#[derive(Debug)]
pub struct ConnectionRegistry {
    entries: HashMap<ConnId, ConnEntry>,
}

impl View for ConnectionRegistry {
    type V = Map<ConnId, ClientView>;

    closed spec fn view(&self) -> Map<ConnId, ClientView> {
        clients_view(self.entries@)
    }
}

impl ConnectionRegistry {
    /// No connections.
    pub fn new() -> (r: Self)
        ensures
            r@ == Map::<ConnId, ClientView>::empty(),
    {
        let r = ConnectionRegistry { entries: HashMap::new() };
        assert(r@ =~= Map::<ConnId, ClientView>::empty());
        r
    }

    /// Enters a connection.
    pub fn register(&mut self, id: ConnId, client_name: String, session_id: String)
        ensures
            final(self)@ == old(self)@.insert(
                id,
                ClientView { client_name: client_name@, session_id: session_id@ },
            ),
    {
        let ghost before = self.entries@;
        let entry = ConnEntry { client_name, session_id };
        self.entries.insert(id, entry);
        assert(clients_view(self.entries@) =~= clients_view(before).insert(id, entry@));
    }

    /// Takes out a connection that is closed.
    pub fn deregister(&mut self, id: ConnId)
        ensures
            final(self)@ == old(self)@.remove(id),
    {
        let ghost before = self.entries@;
        self.entries.remove(&id);
        assert(clients_view(self.entries@) =~= clients_view(before).remove(id));
    }

    /// Sets the name of a client whose connection is open. Its session stays what it is.
    pub fn set_client_name(&mut self, id: ConnId, client_name: String)
        ensures
            final(self)@ == if old(self)@.dom().contains(id) {
                old(self)@.insert(id, ClientView { client_name: client_name@, ..old(self)@[id] })
            } else {
                old(self)@
            },
    {
        if let Some(session_id) = self.session_id(id) {
            self.register(id, client_name, session_id);
        }
    }

    /// The session of the connection.
    pub fn session_id(&self, id: ConnId) -> (r: Option<String>)
        ensures
            match r {
                Some(session_id) => self@.dom().contains(id) && self@[id].session_id == session_id@,
                None => !self@.dom().contains(id),
            },
    {
        match self.entries.get(&id) {
            Some(entry) => Some(entry.session_id.clone()),
            None => None,
        }
    }

    /// The name of the client whose connection it is.
    pub fn client_name(&self, id: ConnId) -> (r: Option<String>)
        ensures
            match r {
                Some(name) => self@.dom().contains(id) && self@[id].client_name == name@,
                None => !self@.dom().contains(id),
            },
    {
        match self.entries.get(&id) {
            Some(entry) => Some(entry.client_name.clone()),
            None => None,
        }
    }

    /// The connections that a broadcast goes to: all that are open, each once.
    pub fn targets(&self) -> (r: Vec<ConnId>)
        ensures
            r@.no_duplicates(),
            r@.to_set() == self@.dom(),
    {
        let mut out: Vec<ConnId> = Vec::new();
        let ids = self.entries.keys();
        let ghost all = vstd::std_specs::iter::IteratorSpec::remaining(&ids).unref();
        for id in it: ids
            invariant
                all == it.seq().unref(),
                out@ == all.take(it.index()),
        {
            assert(all.take(it.index() + 1) =~= all.take(it.index()).push(*id));
            out.push(*id);
        }
        assert(all.take(all.len() as int) =~= all);
        assert(self@.dom() =~= self.entries@.dom());
        out
    }
}

impl Default for ConnectionRegistry {
    fn default() -> (r: Self)
        ensures
            r@ == Map::<ConnId, ClientView>::empty(),
    {
        ConnectionRegistry::new()
    }
}

/// A connection that is entered is known by the name and the session it was entered with, and is
/// among those that a broadcast goes to; every other connection is as it was.
pub proof fn entered_connections_are_known(
    before: ConnectionRegistry,
    after: ConnectionRegistry,
    id: ConnId,
    client_name: String,
    session_id: String,
    other: ConnId,
    name: Option<String>,
    session: Option<String>,
    targets: Vec<ConnId>,
)
    requires
        exists|t: &mut ConnectionRegistry|
            #![trigger call_ensures(ConnectionRegistry::register, (t, id, client_name, session_id), ())]
            *t == before && *final(t) == after && call_ensures(
                ConnectionRegistry::register,
                (t, id, client_name, session_id),
                (),
            ),
        call_ensures(ConnectionRegistry::client_name, (&after, other), name),
        call_ensures(ConnectionRegistry::session_id, (&after, other), session),
        call_ensures(ConnectionRegistry::targets, (&after,), targets),
    ensures
        other == id ==> (name matches Some(n) && n@ == client_name@) && (session matches Some(s) && s@ == session_id@),
        other != id ==> (name is Some <==> before@.dom().contains(other)) && (session is Some <==> before@.dom().contains(
            other,
        )),
        other != id && name is Some ==> name->0@ == before@[other].client_name && session->0@
            == before@[other].session_id,
        targets@.no_duplicates(),
        targets@.contains(other) <==> other == id || before@.dom().contains(other),
{
    if targets@.contains(other) {
        assert(targets@.to_set().contains(other));
    }
    if after@.dom().contains(other) {
        assert(targets@.to_set().contains(other));
    }
}

/// A connection that is taken out is not known any more, and nothing goes to it; every other is as it
/// was.
pub proof fn closed_connections_are_forgotten(
    before: ConnectionRegistry,
    after: ConnectionRegistry,
    id: ConnId,
    other: ConnId,
    name: Option<String>,
    session: Option<String>,
    targets: Vec<ConnId>,
    fresh: ConnectionRegistry,
)
    requires
        exists|t: &mut ConnectionRegistry|
            #![trigger call_ensures(ConnectionRegistry::deregister, (t, id), ())]
            *t == before && *final(t) == after && call_ensures(ConnectionRegistry::deregister, (t, id), ()),
        call_ensures(ConnectionRegistry::client_name, (&after, other), name),
        call_ensures(ConnectionRegistry::session_id, (&after, other), session),
        call_ensures(ConnectionRegistry::targets, (&after,), targets),
        call_ensures(ConnectionRegistry::new, (), fresh),
    ensures
        fresh@.dom() == Set::<ConnId>::empty(),
        name is Some <==> other != id && before@.dom().contains(other),
        session is Some <==> other != id && before@.dom().contains(other),
        targets@.contains(other) <==> other != id && before@.dom().contains(other),
        name is Some ==> name->0@ == before@[other].client_name && session->0@ == before@[other].session_id,
{
    if targets@.contains(other) {
        assert(targets@.to_set().contains(other));
    }
    if after@.dom().contains(other) {
        assert(targets@.to_set().contains(other));
    }
}

/// A client whose connection is open can be given another name: its session, and every other
/// connection, stay what they are. Nothing happens where there is no such connection.
pub proof fn names_change_alone(
    before: ConnectionRegistry,
    after: ConnectionRegistry,
    id: ConnId,
    client_name: String,
    other: ConnId,
    name: Option<String>,
    session: Option<String>,
)
    requires
        exists|t: &mut ConnectionRegistry|
            #![trigger call_ensures(ConnectionRegistry::set_client_name, (t, id, client_name), ())]
            *t == before && *final(t) == after && call_ensures(
                ConnectionRegistry::set_client_name,
                (t, id, client_name),
                (),
            ),
        call_ensures(ConnectionRegistry::client_name, (&after, other), name),
        call_ensures(ConnectionRegistry::session_id, (&after, other), session),
    ensures
        name is Some <==> before@.dom().contains(other),
        session is Some <==> before@.dom().contains(other),
        session is Some ==> session->0@ == before@[other].session_id,
        name is Some && other == id ==> name->0@ == client_name@,
        name is Some && other != id ==> name->0@ == before@[other].client_name,
{
}

/// Connections are numbered, each by the number after the one before, and what is seen of one is its
/// name and its session.
pub proof fn connections_are_numbered(b: u64, a: u64, id: ConnId, e: ConnEntry)
    requires
        exists|t: &mut u64|
            #![trigger call_ensures(next_conn_id, (t,), id)]
            *t == b && *final(t) == a && call_ensures(next_conn_id, (t,), id),
    ensures
        id == b,
        b < u64::MAX ==> a == b + 1,
        b == u64::MAX ==> a == 0,
        e@.client_name == e.client_name@,
        e@.session_id == e.session_id@,
{
}

} // verus!
