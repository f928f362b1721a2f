use gateway::address::SocketAddr;
use gateway::pool::{
    binding_change, set_client_config, BindingChange, ConnectAction, ConnectFailure,
    ConnectionTable, InterfaceEvent,
};
use gateway::publisher::{endpoint_marks, outer_endpoints, servers_to_publish, StunClient};

#[test]
fn client_configuration_is_replaced_as_a_whole() {
    let mut config = None;
    set_client_config(&mut config, true, vec![1], vec![2], "a".to_owned()).unwrap();
    set_client_config(&mut config, true, vec![3], vec![4], "b".to_owned()).unwrap();
    let held = config.as_ref().unwrap();
    assert_eq!((&held.cert_chain, &held.private_key), (&vec![3], &vec![4]));
    assert_eq!(held.client_name, "b");

    let result = set_client_config(&mut config, false, vec![], vec![], "c".to_owned());
    assert_eq!(result, Err("Failed to acquire write lock"));
    assert_eq!(config.unwrap().client_name, "b");
}

#[test]
fn connections_are_used_again_until_they_are_idle() {
    let mut pool = ConnectionTable::new();
    let slot = pool.enter("a");
    assert_eq!(pool.enter("a"), slot);
    assert_eq!(pool.action(slot), ConnectAction::Create);
    pool.connected(slot, 7);
    assert_eq!(pool.action(slot), ConnectAction::Reuse(7));
    let other = pool.enter("b");
    assert_ne!(other, slot);
    assert_eq!(pool.action(other), ConnectAction::Create);

    pool.idle("a");
    assert_eq!(pool.action(slot), ConnectAction::Reuse(7));
    pool.release(slot);
    assert_eq!(pool.action(slot), ConnectAction::Create);
    let again = pool.enter("a");
    assert_ne!(again, slot);
    assert_eq!(pool.action(again), ConnectAction::Create);
}

#[test]
fn failures_take_no_connection_away() {
    let mut pool = ConnectionTable::new();
    let (a, b) = (pool.enter("a"), pool.enter("b"));
    pool.connected(a, 1);
    pool.failed("a");
    pool.failed("b");
    assert_eq!(pool.enter("a"), a);
    assert_ne!(pool.enter("b"), b);
    pool.release(a);
    assert_eq!(pool.action(a), ConnectAction::Reuse(1));
}

#[test]
fn cleared_pools_start_anew() {
    let mut pool = ConnectionTable::new();
    let slot = pool.enter("a");
    pool.clear_connections();
    pool.connected(slot, 3);
    assert_eq!(pool.action(slot), ConnectAction::Reuse(3));
    let again = pool.enter("a");
    assert_eq!(pool.action(again), ConnectAction::Create);
    assert!(pool.can_enter("a"));
}

#[test]
fn failures_are_told_apart() {
    assert_eq!(ConnectFailure::Lookup.message(), "DNS lookup failed");
    assert_eq!(ConnectFailure::NoEndpoint.message(), "No endpoint found for server");
    assert_eq!(ConnectFailure::TimedOut.message(), "Establish h3 connection timed out");
    assert_eq!(ConnectFailure::Handshake.message(), "Failed to establish HTTP3 connection");
}

#[test]
fn interfaces_are_bound_while_they_are_there() {
    let device = || "eth0".to_owned();
    assert!(matches!(
        binding_change(InterfaceEvent::Added { device: device() }),
        BindingChange::Bind { device } if device == "eth0"
    ));
    assert!(matches!(
        binding_change(InterfaceEvent::Removed { device: device() }),
        BindingChange::Unbind { device } if device == "eth0"
    ));
    assert!(matches!(
        binding_change(InterfaceEvent::Changed { device: device() }),
        BindingChange::Nothing
    ));
}

#[test]
fn only_answered_clients_are_published() {
    let addr = |text: &str| SocketAddr::parse(text).unwrap();
    let client = |agent: &str, outer| StunClient { agent: addr(agent), outer };
    let clients = vec![
        client("1.1.1.1:1", None),
        client("1.1.1.1:2", Some(Ok(addr("2.2.2.2:2")))),
        client("1.1.1.1:3", Some(Err("lost".to_owned()))),
        client("1.1.1.1:4", Some(Ok(addr("[::1]:4")))),
    ];
    assert_eq!(
        outer_endpoints(&clients),
        vec![
            (addr("1.1.1.1:2"), addr("2.2.2.2:2")),
            (addr("1.1.1.1:4"), addr("[::1]:4")),
        ]
    );
    let main = endpoint_marks(0);
    assert!(main.main);
    let third = endpoint_marks(3);
    assert_eq!((third.main, third.sequence), (false, 3));
}

#[test]
fn servers_are_published_that_are_up_and_configured() {
    let names = |list: &[&str]| list.iter().map(|name| (*name).to_owned()).collect::<Vec<_>>();
    assert_eq!(
        servers_to_publish(&names(&["c", "a", "b"]), &names(&["b", "c", "d"])),
        names(&["c", "b"])
    );
}
