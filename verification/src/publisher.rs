//! What is published of servers so that clients find them.
use vstd::prelude::*;

use crate::address::SocketAddr;
use crate::text::str_eq;

verus! {

/// The number of the main server among those of one name.
pub const MAIN_SERVER_ID: u8 = 0;

/// How many seconds pass between two times that everything is published.
pub const DNS_PUBLISH_SECONDS: u64 = 10;

/// How many milliseconds a change is waited on before it is published.
pub const SETTLE_MILLISECONDS: u64 = 50;

/// How an endpoint of a server is marked.
#[derive(Debug, Clone, Copy, PartialEq, Eq, Structural)]
pub struct EndpointMarks {
    pub main: bool,
    pub sequence: u64,
}

/// Marks the endpoints of a server: the server with the number zero is the main one.
pub fn endpoint_marks(server_id: u8) -> (marks: EndpointMarks)
    ensures
        marks.main == (server_id == 0),
        marks.sequence == server_id,
{
    EndpointMarks { main: server_id == MAIN_SERVER_ID, sequence: server_id as u64 }
}

/// What a STUN client found out: its agent, and its address as seen from outside, where it asked
/// and was answered.
#[derive(Debug)]
pub struct StunClient {
    pub agent: SocketAddr,
    pub outer: Option<Result<SocketAddr, String>>,
}

/// The endpoint that a STUN client found.
pub open spec fn endpoint_of(client: StunClient) -> Option<(SocketAddr, SocketAddr)> {
    match client.outer {
        Some(Ok(outer)) => Some((client.agent, outer)),
        _ => None,
    }
}

/// The endpoints that STUN clients found, in order.
pub open spec fn endpoints_of(clients: Seq<StunClient>) -> Seq<(SocketAddr, SocketAddr)>
    decreases clients.len(),
{
    if clients.len() == 0 {
        seq![]
    } else {
        let before = endpoints_of(clients.drop_last());
        match endpoint_of(clients.last()) {
            Some(endpoint) => before.push(endpoint),
            None => before,
        }
    }
}

/// The endpoints that STUN clients found.
pub fn outer_endpoints(clients: &Vec<StunClient>) -> (endpoints: Vec<(SocketAddr, SocketAddr)>)
    ensures
        endpoints@ == endpoints_of(clients@),
{
    let mut endpoints: Vec<(SocketAddr, SocketAddr)> = Vec::new();
    let mut i: usize = 0;
    assert(clients@.take(0) =~= seq![]);
    while i < clients.len()
        invariant
            i <= clients@.len(),
            endpoints@ == endpoints_of(clients@.take(i as int)),
        decreases clients@.len() - i,
    {
        proof {
            assert(clients@.take(i + 1).drop_last() =~= clients@.take(i as int));
            assert(clients@.take(i + 1).last() == clients@[i as int]);
        }
        match &clients[i].outer {
            Some(Ok(outer)) => {
                endpoints.push((clients[i].agent, *outer));
            },
            _ => {},
        }
        i += 1;
    }
    assert(clients@.take(i as int) =~= clients@);
    endpoints
}

/// Whether a name is among some names.
pub open spec fn is_configured(names: Seq<String>, name: Seq<char>) -> bool {
    exists|i: int| 0 <= i < names.len() && (#[trigger] names[i])@ == name
}

/// The servers that are up and configured, in the order of those that are up.
pub open spec fn published(up: Seq<String>, configured: Seq<String>) -> Seq<Seq<char>>
    decreases up.len(),
{
    if up.len() == 0 {
        seq![]
    } else {
        let before = published(up.drop_last(), configured);
        if is_configured(configured, up.last()@) {
            before.push(up.last()@)
        } else {
            before
        }
    }
}

fn contains_name(names: &Vec<String>, name: &str) -> (found: bool)
    ensures
        found == is_configured(names@, name@),
{
    let mut i: usize = 0;
    while i < names.len()
        invariant
            i <= names@.len(),
            forall|k: int| 0 <= k < i ==> (#[trigger] names@[k])@ != name@,
        decreases names@.len() - i,
    {
        if str_eq(names[i].as_str(), name) {
            return true;
        }
        i += 1;
    }
    false
}

/// The servers that something is published of: those that are up and configured.
pub fn servers_to_publish(up: &Vec<String>, configured: &Vec<String>) -> (names: Vec<String>)
    ensures
        crate::text::texts(names@) == published(up@, configured@),
{
    let mut names: Vec<String> = Vec::new();
    let mut i: usize = 0;
    assert(up@.take(0) =~= seq![]);
    assert(crate::text::texts(names@) =~= seq![]);
    while i < up.len()
        invariant
            i <= up@.len(),
            crate::text::texts(names@) == published(up@.take(i as int), configured@),
        decreases up@.len() - i,
    {
        proof {
            assert(up@.take(i + 1).drop_last() =~= up@.take(i as int));
            assert(up@.take(i + 1).last() == up@[i as int]);
        }
        if contains_name(configured, up[i].as_str()) {
            let ghost before = names@;
            names.push(up[i].clone());
            assert(crate::text::texts(names@) =~= crate::text::texts(before).push(up@[i as int]@));
        }
        i += 1;
    }
    assert(up@.take(i as int) =~= up@);
    names
}

/// Of two lists of clients one behind the other, the endpoints stand one behind the other. A client
/// alone gives its agent and what the agent saw, where the agent saw something, and else nothing.
pub proof fn endpoints_are_those_that_were_found(one: Seq<StunClient>, other: Seq<StunClient>)
    ensures
        endpoints_of(one + other) == endpoints_of(one) + endpoints_of(other),
        one.len() == 1 ==> endpoints_of(one) == (match one[0].outer {
            Some(Ok(outer)) => seq![(one[0].agent, outer)],
            _ => seq![],
        }),
        one.len() == 0 ==> endpoints_of(one).len() == 0,
    decreases other.len(),
{
    if one.len() == 1 {
        assert(endpoints_of(one.drop_last()) =~= seq![]);
    }
    if other.len() == 0 {
        assert(one + other =~= one);
    } else {
        endpoints_are_those_that_were_found(one, other.drop_last());
        assert((one + other).drop_last() =~= one + other.drop_last());
        assert((one + other).last() == other.last());
        assert(endpoints_of(one + other) =~= endpoints_of(one) + endpoints_of(other));
    }
}

/// Of two lists of servers that are up one behind the other, those to publish stand one behind the
/// other. A server alone is published exactly where it is configured.
pub proof fn configured_servers_are_published(
    one: Seq<String>,
    other: Seq<String>,
    configured: Seq<String>,
)
    ensures
        published(one + other, configured) == published(one, configured) + published(
            other,
            configured,
        ),
        one.len() == 1 ==> published(one, configured) == (if exists|i: int|
            0 <= i < configured.len() && (#[trigger] configured[i])@ == one[0]@ {
            seq![one[0]@]
        } else {
            seq![]
        }),
        one.len() == 0 ==> published(one, configured).len() == 0,
    decreases other.len(),
{
    if one.len() == 1 {
        assert(published(one.drop_last(), configured) =~= seq![]);
    }
    if other.len() == 0 {
        assert(one + other =~= one);
    } else {
        configured_servers_are_published(one, other.drop_last(), configured);
        assert((one + other).drop_last() =~= one + other.drop_last());
        assert((one + other).last() == other.last());
        assert(published(one + other, configured) =~= published(one, configured) + published(
            other,
            configured,
        ));
    }
}

} // verus!
