//! Which connections to servers are kept and used again.
use std::collections::HashMap;

use vstd::prelude::*;

use crate::table::{
    distinct_keys, has_key, lemma_table, lemma_table_push, lemma_table_remove, table,
};
use crate::text::str_eq;

verus! {

/// How a client shows who it is: its certificates, its key and its name.
#[derive(Debug)]
pub struct ClientConfig {
    pub cert_chain: Vec<u8>,
    pub private_key: Vec<u8>,
    pub client_name: String,
}

/// Sets how the client shows who it is, in place of what was set before. `held` says whether the
/// place could be locked for writing.
pub fn set_client_config(
    config: &mut Option<ClientConfig>,
    held: bool,
    cert_chain: Vec<u8>,
    private_key: Vec<u8>,
    client_name: String,
) -> (result: Result<(), &'static str>)
    ensures
        held ==> result is Ok && *final(config) == Some(
            ClientConfig { cert_chain, private_key, client_name },
        ),
        !held ==> *final(config) == *old(config) && (result matches Err(message) && message@
            == "Failed to acquire write lock"@),
{
    if !held {
        return Err("Failed to acquire write lock");
    }
    *config = Some(ClientConfig { cert_chain, private_key, client_name });
    Ok(())
}

/// What asking for a connection leads to.
#[derive(Debug, Clone, Copy, PartialEq, Eq, Structural)]
pub enum ConnectAction {
    /// The connection with this number is used again.
    Reuse(u64),
    /// A connection must be made.
    Create,
}

/// How making a connection failed.
#[derive(Debug, Clone, Copy, PartialEq, Eq, Structural)]
pub enum ConnectFailure {
    Lookup,
    NoEndpoint,
    TimedOut,
    Handshake,
}

impl ConnectFailure {
    /// What is reported.
    pub open spec fn text(self) -> Seq<char> {
        match self {
            ConnectFailure::Lookup => "DNS lookup failed"@,
            ConnectFailure::NoEndpoint => "No endpoint found for server"@,
            ConnectFailure::TimedOut => "Establish h3 connection timed out"@,
            ConnectFailure::Handshake => "Failed to establish HTTP3 connection"@,
        }
    }

    pub fn message(&self) -> (text: &'static str)
        ensures
            text@ == self.text(),
    {
        match self {
            ConnectFailure::Lookup => "DNS lookup failed",
            ConnectFailure::NoEndpoint => "No endpoint found for server",
            ConnectFailure::TimedOut => "Establish h3 connection timed out",
            ConnectFailure::Handshake => "Failed to establish HTTP3 connection",
        }
    }
}

/// How many seconds making a connection may take.
pub const CONNECT_TIMEOUT_SECONDS: u64 = 10;

/// How many seconds a connection may stay idle.
pub const IDLE_TIMEOUT_SECONDS: u64 = 60;

/// Slots by the name of their server.
#[derive(Debug)]
struct Servers {
    entries: Vec<(String, u64)>,
}

/// Servers with their names as characters.
spec fn entry_views(entries: Seq<(String, u64)>) -> Seq<(Seq<char>, u64)> {
    entries.map_values(|entry: (String, u64)| (entry.0@, entry.1))
}

impl View for Servers {
    type V = Map<Seq<char>, u64>;

    closed spec fn view(&self) -> Map<Seq<char>, u64> {
        table(entry_views(self.entries@))
    }
}

impl Servers {
    spec fn wf(self) -> bool {
        distinct_keys(entry_views(self.entries@))
    }

    fn new() -> (servers: Self)
        ensures
            servers.wf(),
            servers@ == Map::<Seq<char>, u64>::empty(),
    {
        let servers = Servers { entries: Vec::new() };
        assert(entry_views(servers.entries@) =~= seq![]);
        servers
    }

    fn find(&self, server: &str) -> (at: Option<usize>)
        requires
            self.wf(),
        ensures
            match at {
                Some(at) => at < self.entries@.len() && self.entries@[at as int].0@ == server@
                    && self@.contains_key(server@) && self@[server@] == self.entries@[at as int].1,
                None => !has_key(entry_views(self.entries@), server@) && !self@.contains_key(
                    server@,
                ),
            },
    {
        proof {
            lemma_table(entry_views(self.entries@));
        }
        let ghost views = entry_views(self.entries@);
        let mut i: usize = 0;
        while i < self.entries.len()
            invariant
                i <= self.entries@.len(),
                views == entry_views(self.entries@),
                forall|k: int| 0 <= k < i ==> (#[trigger] views[k]).0 != server@,
                forall|k: int|
                    0 <= k < views.len() ==> self@.contains_key((#[trigger] views[k]).0)
                        && self@[views[k].0] == views[k].1,
            decreases self.entries@.len() - i,
        {
            if str_eq(self.entries[i].0.as_str(), server) {
                assert(views[i as int].0 == server@);
                return Some(i);
            }
            i += 1;
        }
        None
    }

    fn remove(&mut self, server: &str)
        requires
            old(self).wf(),
        ensures
            final(self).wf(),
            final(self)@ == old(self)@.remove(server@),
    {
        let ghost before = self.entries@;
        match self.find(server) {
            Some(at) => {
                let removed = self.entries.remove(at);
                proof {
                    lemma_table_remove(entry_views(before), at as int);
                    assert(entry_views(self.entries@) =~= entry_views(before).remove(at as int));
                }
            },
            None => {
                assert(self@ =~= self@.remove(server@));
            },
        }
    }

    fn push(&mut self, server: String, slot: u64)
        requires
            old(self).wf(),
            !has_key(entry_views(old(self).entries@), server@),
        ensures
            final(self).wf(),
            final(self)@ == old(self)@.insert(server@, slot),
    {
        let ghost before = self.entries@;
        self.entries.push((server, slot));
        proof {
            lemma_table_push(entry_views(before), server@, slot);
            assert(entry_views(self.entries@) =~= entry_views(before).push((server@, slot)));
        }
    }

    fn names_slot(&self, slot: u64) -> (named: bool)
        requires
            self.wf(),
        ensures
            named == is_named(self@, slot),
    {
        proof {
            lemma_table(entry_views(self.entries@));
        }
        let ghost views = entry_views(self.entries@);
        let mut i: usize = 0;
        while i < self.entries.len()
            invariant
                i <= self.entries@.len(),
                views == entry_views(self.entries@),
                forall|k: int| 0 <= k < i ==> (#[trigger] views[k]).1 != slot,
                forall|k: int|
                    0 <= k < views.len() ==> self@.contains_key((#[trigger] views[k]).0)
                        && self@[views[k].0] == views[k].1,
            decreases self.entries@.len() - i,
        {
            if self.entries[i].1 == slot {
                assert(self@.contains_key(views[i as int].0));
                return true;
            }
            i += 1;
        }
        proof {
            assert forall|server: Seq<char>| #[trigger] self@.contains_key(server) implies self@[server]
                != slot by {
                let k = choose|k: int| 0 <= k < views.len() && (#[trigger] views[k]).0 == server;
                assert(views[k].1 != slot);
            }
        }
        false
    }
}

/// The connections that are kept. Each server has a slot, which holds the number of its connection
/// once there is one. Who waits for a slot still gets its connection when the server has another
/// slot by then, or none.
#[derive(Debug)]
pub struct ConnectionTable {
    servers: Servers,
    slots: HashMap<u64, Option<u64>>,
    next: u64,
}

/// The connections that are kept: the slots by server, the connections by slot, and the number
/// that the next slot gets.
#[verifier::ext_equal]
pub struct PoolView {
    pub servers: Map<Seq<char>, u64>,
    pub slots: Map<u64, Option<u64>>,
    pub next: u64,
}

/// Whether some server has the slot.
pub open spec fn is_named(servers: Map<Seq<char>, u64>, slot: u64) -> bool {
    exists|server: Seq<char>| #[trigger] servers.contains_key(server) && servers[server] == slot
}

impl PoolView {
    /// Without any connection.
    pub open spec fn empty() -> PoolView {
        PoolView { servers: Map::empty(), slots: Map::empty(), next: 0 }
    }

    /// The slot of every server is there, and no slot has the next number or a later one.
    pub open spec fn wf(self) -> bool {
        &&& forall|server: Seq<char>| #[trigger]
            self.servers.contains_key(server) ==> self.slots.contains_key(self.servers[server])
        &&& forall|slot: u64| #[trigger] self.slots.contains_key(slot) ==> slot < self.next
    }

    /// Whether a server has a slot or can still get one.
    pub open spec fn can_enter(self, server: Seq<char>) -> bool {
        self.servers.contains_key(server) || self.next < u64::MAX
    }

    /// With a slot for the server.
    pub open spec fn entered(self, server: Seq<char>) -> PoolView {
        if self.servers.contains_key(server) {
            self
        } else {
            PoolView {
                servers: self.servers.insert(server, self.next),
                slots: self.slots.insert(self.next, None),
                next: (self.next + 1) as u64,
            }
        }
    }

    /// What is to be done for who holds the slot.
    pub open spec fn action(self, slot: u64) -> ConnectAction {
        if self.slots.contains_key(slot) {
            match self.slots[slot] {
                Some(connection) => ConnectAction::Reuse(connection),
                None => ConnectAction::Create,
            }
        } else {
            ConnectAction::Create
        }
    }

    /// With a connection in the slot.
    pub open spec fn with_connection(self, slot: u64, connection: u64) -> PoolView {
        if self.slots.contains_key(slot) {
            PoolView { slots: self.slots.insert(slot, Some(connection)), ..self }
        } else {
            self
        }
    }

    /// With no slot for the server.
    pub open spec fn without(self, server: Seq<char>) -> PoolView {
        PoolView { servers: self.servers.remove(server), ..self }
    }

    /// After making a connection to the server failed: a slot without a connection is taken from
    /// its server.
    pub open spec fn after_failure(self, server: Seq<char>) -> PoolView {
        if self.servers.contains_key(server) && self.action(self.servers[server])
            == ConnectAction::Create {
            self.without(server)
        } else {
            self
        }
    }

    /// Without the slot, where it is no server's.
    pub open spec fn without_slot(self, slot: u64) -> PoolView {
        if is_named(self.servers, slot) {
            self
        } else {
            PoolView { slots: self.slots.remove(slot), ..self }
        }
    }
}

/// Whatever happens to a server or a slot, every server that has a slot has one that is there.
pub proof fn pool_stays_sound(pool: PoolView, server: Seq<char>, slot: u64, connection: u64)
    requires
        pool.wf(),
    ensures
        pool.can_enter(server) ==> pool.entered(server).wf(),
        pool.with_connection(slot, connection).wf(),
        pool.without(server).wf(),
        pool.after_failure(server).wf(),
        pool.without_slot(slot).wf(),
        (PoolView { servers: Map::empty(), ..pool }).wf(),
{
    let gone = pool.without(server);
    assert forall|name: Seq<char>| #[trigger] gone.servers.contains_key(name) implies
        gone.slots.contains_key(gone.servers[name]) by {
        assert(pool.servers.contains_key(name));
    }
    let made = pool.with_connection(slot, connection);
    assert forall|name: Seq<char>| #[trigger] made.servers.contains_key(name) implies
        made.slots.contains_key(made.servers[name]) by {
        assert(pool.slots.contains_key(pool.servers[name]));
    }
    assert forall|number: u64| #[trigger] made.slots.contains_key(number) implies number
        < made.next by {
        assert(pool.slots.contains_key(number));
    }
    let less = pool.without_slot(slot);
    assert forall|name: Seq<char>| #[trigger] less.servers.contains_key(name) implies
        less.slots.contains_key(less.servers[name]) by {
        assert(pool.slots.contains_key(pool.servers[name]));
    }
    assert forall|number: u64| #[trigger] less.slots.contains_key(number) implies number
        < less.next by {
        assert(pool.slots.contains_key(number));
    }
    if pool.next < u64::MAX {
        let more = pool.entered(server);
        assert forall|name: Seq<char>| #[trigger] more.servers.contains_key(name) implies
            more.slots.contains_key(more.servers[name]) by {
            if name != server {
                assert(pool.servers.contains_key(name));
            }
        }
        assert forall|number: u64| #[trigger] more.slots.contains_key(number) implies number
            < more.next by {
            if number != pool.next {
                assert(pool.slots.contains_key(number));
            }
        }
    }
}

/// A connection that was made is used again: by who asks for the server, and, when the server has
/// lost its slot, by who waited for the slot. Who asks for the server then needs a new connection.
pub proof fn made_connection_is_reused(pool: PoolView, server: Seq<char>, connection: u64)
    requires
        pool.wf(),
        pool.next < u64::MAX,
    ensures
        ({
            let asked = pool.entered(server);
            let slot = asked.servers[server];
            let made = asked.with_connection(slot, connection);
            let idle = made.without(server);
            &&& made.entered(server).servers[server] == slot
            &&& made.entered(server).action(slot) == ConnectAction::Reuse(connection)
            &&& idle.action(slot) == ConnectAction::Reuse(connection)
            &&& idle.entered(server).action(idle.entered(server).servers[server])
                == ConnectAction::Create
        }),
{
}

/// A failure to make a connection takes no connection away, from no server.
pub proof fn failure_keeps_connections(pool: PoolView, failed: Seq<char>, server: Seq<char>)
    ensures
        pool.after_failure(failed).slots == pool.slots,
        pool.servers.contains_key(server) && pool.action(pool.servers[server])
            != ConnectAction::Create ==> pool.after_failure(failed).servers.contains_key(server)
            && pool.after_failure(failed).servers[server] == pool.servers[server],
{
}

/// What happens to one server leaves the others as they are.
pub proof fn servers_are_independent(
    pool: PoolView,
    server: Seq<char>,
    other: Seq<char>,
    connection: u64,
)
    requires
        pool.wf(),
        server != other,
        pool.servers.contains_key(other),
        !pool.servers.contains_key(server),
    ensures
        ({
            let asked = pool.entered(server);
            let made = asked.with_connection(asked.servers[server], connection);
            &&& made.servers[other] == pool.servers[other]
            &&& made.action(made.servers[other]) == pool.action(pool.servers[other])
            &&& made.without(server).servers == pool.servers
        }),
{
    let asked = pool.entered(server);
    assert(asked.without(server).servers =~= pool.servers);
}

impl View for ConnectionTable {
    type V = PoolView;

    closed spec fn view(&self) -> PoolView {
        PoolView { servers: self.servers@, slots: self.slots@, next: self.next }
    }
}

impl ConnectionTable {
    #[verifier::type_invariant]
    spec fn checked(self) -> bool {
        &&& self.servers.wf()
        &&& self@.wf()
    }

    pub fn new() -> (pool: Self)
        ensures
            pool@ == PoolView::empty(),
    {
        broadcast use vstd::std_specs::hash::group_hash_axioms;

        let servers = Servers::new();
        let slots: HashMap<u64, Option<u64>> = HashMap::new();
        assert(slots@ =~= Map::empty());
        ConnectionTable { servers, slots, next: 0 }
    }

    /// Whether a server has a slot or can still get one.
    pub fn can_enter(&self, server: &str) -> (yes: bool)
        ensures
            yes == self@.can_enter(server@),
    {
        proof {
            use_type_invariant(self);
        }
        self.next < u64::MAX || self.servers.find(server).is_some()
    }

    /// The slot of a server, a new one where it has none.
    pub fn enter(&mut self, server: &str) -> (slot: u64)
        requires
            old(self)@.can_enter(server@),
        ensures
            final(self)@ == old(self)@.entered(server@),
            slot == final(self)@.servers[server@],
    {
        broadcast use vstd::std_specs::hash::group_hash_axioms;

        proof {
            use_type_invariant(&*self);
        }
        if let Some(at) = self.servers.find(server) {
            return self.servers.entries[at].1;
        }
        let ghost before = self@;
        let mut whole = ConnectionTable::new();
        core::mem::swap(&mut whole, self);
        let ConnectionTable { servers: names, slots: known, next: slot } = whole;
        let mut servers = names;
        let mut slots = known;
        servers.push(server.to_owned(), slot);
        slots.insert(slot, None);
        proof {
            pool_stays_sound(before, server@, slot, 0);
            let next = (slot + 1) as u64;
            assert(PoolView { servers: servers@, slots: slots@, next } =~= before.entered(server@));
        }
        *self = ConnectionTable { servers, slots, next: slot + 1 };
        slot
    }

    /// What is to be done for who holds the slot.
    pub fn action(&self, slot: u64) -> (action: ConnectAction)
        ensures
            action == self@.action(slot),
    {
        broadcast use vstd::std_specs::hash::group_hash_axioms;

        match self.slots.get(&slot) {
            Some(Some(connection)) => ConnectAction::Reuse(*connection),
            _ => ConnectAction::Create,
        }
    }

    /// A connection was made for the slot.
    pub fn connected(&mut self, slot: u64, connection: u64)
        ensures
            final(self)@ == old(self)@.with_connection(slot, connection),
    {
        broadcast use vstd::std_specs::hash::group_hash_axioms;

        proof {
            use_type_invariant(&*self);
        }
        if self.slots.contains_key(&slot) {
            let ghost before = self@;
            let mut whole = ConnectionTable::new();
            core::mem::swap(&mut whole, self);
            let ConnectionTable { servers, slots: known, next } = whole;
            let mut slots = known;
            slots.insert(slot, Some(connection));
            proof {
                pool_stays_sound(before, seq![], slot, connection);
                assert(PoolView { servers: servers@, slots: slots@, next }
                    =~= before.with_connection(slot, connection));
            }
            *self = ConnectionTable { servers, slots, next };
        }
    }

    /// The connection to a server is idle: the server loses its slot.
    pub fn idle(&mut self, server: &str)
        ensures
            final(self)@ == old(self)@.without(server@),
    {
        proof {
            use_type_invariant(&*self);
        }
        let ghost before = self@;
        let mut whole = ConnectionTable::new();
        core::mem::swap(&mut whole, self);
        let ConnectionTable { servers: names, slots, next } = whole;
        let mut servers = names;
        servers.remove(server);
        proof {
            pool_stays_sound(before, server@, 0, 0);
            assert(PoolView { servers: servers@, slots: slots@, next } =~= before.without(server@));
        }
        *self = ConnectionTable { servers, slots, next };
    }

    /// Making a connection to a server failed.
    pub fn failed(&mut self, server: &str)
        ensures
            final(self)@ == old(self)@.after_failure(server@),
    {
        proof {
            use_type_invariant(&*self);
        }
        if let Some(at) = self.servers.find(server) {
            let slot = self.servers.entries[at].1;
            match self.action(slot) {
                ConnectAction::Create => {
                    self.idle(server);
                },
                ConnectAction::Reuse(_) => {},
            }
        }
    }

    /// Takes their slots from all servers.
    pub fn clear_connections(&mut self)
        ensures
            final(self)@ == (PoolView { servers: Map::empty(), ..old(self)@ }),
    {
        proof {
            use_type_invariant(&*self);
        }
        let mut whole = ConnectionTable::new();
        core::mem::swap(&mut whole, self);
        let ConnectionTable { servers: _, slots, next } = whole;
        *self = ConnectionTable { servers: Servers::new(), slots, next };
    }

    /// Nobody holds the slot any longer: it is dropped, unless it is a server's.
    pub fn release(&mut self, slot: u64)
        ensures
            final(self)@ == old(self)@.without_slot(slot),
    {
        broadcast use vstd::std_specs::hash::group_hash_axioms;

        proof {
            use_type_invariant(&*self);
        }
        if self.servers.names_slot(slot) {
            return;
        }
        let ghost before = self@;
        let mut whole = ConnectionTable::new();
        core::mem::swap(&mut whole, self);
        let ConnectionTable { servers, slots: known, next } = whole;
        let mut slots = known;
        slots.remove(&slot);
        proof {
            pool_stays_sound(before, seq![], slot, 0);
            assert(PoolView { servers: servers@, slots: slots@, next } =~= before.without_slot(
                slot,
            ));
        }
        *self = ConnectionTable { servers, slots, next };
    }
}

/// What happened to a network interface.
#[derive(Debug)]
pub enum InterfaceEvent {
    Added { device: String },
    Removed { device: String },
    Changed { device: String },
}

/// What is done about it.
#[derive(Debug)]
pub enum BindingChange {
    Bind { device: String },
    Unbind { device: String },
    Nothing,
}

/// What is done about a change of the network: new interfaces are bound to, and those that are gone
/// no longer.
pub fn binding_change(event: InterfaceEvent) -> (change: BindingChange)
    ensures
        match event {
            InterfaceEvent::Added { device } => change == (BindingChange::Bind { device }),
            InterfaceEvent::Removed { device } => change == (BindingChange::Unbind { device }),
            InterfaceEvent::Changed { .. } => change == BindingChange::Nothing,
        },
{
    match event {
        InterfaceEvent::Added { device } => BindingChange::Bind { device },
        InterfaceEvent::Removed { device } => BindingChange::Unbind { device },
        InterfaceEvent::Changed { .. } => BindingChange::Nothing,
    }
}

/// A server that is new gets a slot that no other server has and nobody waits for, and has no connection
/// yet; a server that is known keeps the slot that it has.
pub proof fn new_servers_get_their_own_slot(pool: PoolView, server: Seq<char>, other: Seq<char>)
    requires
        pool.wf(),
        pool.can_enter(server),
        server != other,
    ensures
        pool.entered(server).servers.contains_key(server),
        pool.servers.contains_key(server) ==> pool.entered(server) == pool,
        !pool.servers.contains_key(server) ==> {
            let slot = pool.entered(server).servers[server];
            &&& !pool.slots.contains_key(slot)
            &&& pool.entered(server).action(slot) == ConnectAction::Create
            &&& pool.servers.contains_key(other) ==> pool.servers[other] != slot
        },
        pool.entered(server).servers.contains_key(other) == pool.servers.contains_key(other),
{
    if pool.servers.contains_key(other) {
        assert(pool.slots.contains_key(pool.servers[other]));
    }
}

/// A failure is forgotten: the server that could not be reached is asked anew, with a slot of its own
/// again, unless a connection was made to it meanwhile.
pub proof fn failures_are_tried_again(pool: PoolView, server: Seq<char>)
    requires
        pool.wf(),
        pool.next < u64::MAX,
        pool.servers.contains_key(server),
    ensures
        match pool.action(pool.servers[server]) {
            ConnectAction::Create => !pool.after_failure(server).servers.contains_key(server) && {
                let again = pool.after_failure(server).entered(server);
                &&& again.servers[server] != pool.servers[server]
                &&& again.action(again.servers[server]) == ConnectAction::Create
            },
            ConnectAction::Reuse(_) => pool.after_failure(server) == pool,
        },
{
    assert(pool.slots.contains_key(pool.servers[server]));
}

/// A slot is dropped only where no server has it any more, and no other slot goes with it.
pub proof fn slots_in_use_stay(pool: PoolView, slot: u64, other: u64, server: Seq<char>)
    requires
        pool.wf(),
        slot != other,
    ensures
        pool.servers.contains_key(server) ==> pool.without_slot(pool.servers[server]) == pool,
        pool.without_slot(slot).slots.contains_key(other) == pool.slots.contains_key(other),
        pool.without_slot(slot).servers == pool.servers,
        !is_named(pool.servers, slot) ==> !pool.without_slot(slot).slots.contains_key(slot),
{
    if pool.servers.contains_key(server) {
        assert(is_named(pool.servers, pool.servers[server]));
    }
}

} // verus!
