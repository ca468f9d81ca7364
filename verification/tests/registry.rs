use tokio::sync::mpsc::unbounded_channel;
use wss::service::registry::{Connection, ConnectionRegistry};

fn tokens(conns: &[Connection]) -> Vec<u64> {
    conns.iter().map(|c| c.token()).collect()
}

#[test]
fn a_new_registry_knows_nobody() {
    let registry = ConnectionRegistry::new();
    assert!(!registry.contains(1));
    assert_eq!(registry.count(1), 0);
    assert!(registry.snapshot(1).is_empty());
}

#[test]
fn tokens_are_issued_in_order_and_never_twice() {
    let mut registry = ConnectionRegistry::new();
    let (a, _ra) = unbounded_channel::<String>();
    let (b, _rb) = unbounded_channel::<String>();
    let (c, _rc) = unbounded_channel::<String>();
    assert_eq!(registry.register(7, a), Some(0));
    assert_eq!(registry.register(8, b), Some(1));
    assert_eq!(registry.register(7, c), Some(2));
    assert_eq!(tokens(&registry.snapshot(7)), vec![0, 2]);
    assert_eq!(tokens(&registry.snapshot(8)), vec![1]);
    assert_eq!(registry.count(7), 2);
    assert_eq!(registry.count(8), 1);
    assert!(registry.deregister(7, 0));
    let (d, _rd) = unbounded_channel::<String>();
    assert_eq!(registry.register(7, d), Some(3));
    assert_eq!(tokens(&registry.snapshot(7)), vec![2, 3]);
}

#[test]
fn the_last_disconnect_removes_the_entry() {
    let mut registry = ConnectionRegistry::new();
    let (a, _ra) = unbounded_channel::<String>();
    let token = registry.register(5, a).expect("a token");
    assert!(registry.contains(5));
    assert!(registry.deregister(5, token));
    assert!(!registry.contains(5));
    assert_eq!(registry.count(5), 0);
    assert!(registry.snapshot(5).is_empty());
}

#[test]
fn an_entry_lasts_as_long_as_one_connection_is_open() {
    let mut registry = ConnectionRegistry::new();
    let (a, _ra) = unbounded_channel::<String>();
    let (b, _rb) = unbounded_channel::<String>();
    let (c, _rc) = unbounded_channel::<String>();
    let first = registry.register(4, a).expect("a token");
    assert!(registry.contains(4));
    let second = registry.register(4, b).expect("a token");
    assert!(registry.deregister(4, first));
    assert!(registry.contains(4));
    let third = registry.register(4, c).expect("a token");
    assert!(registry.deregister(4, third));
    assert!(registry.contains(4));
    assert!(registry.deregister(4, second));
    assert!(!registry.contains(4));
}

#[test]
fn the_connections_of_others_do_not_count() {
    let mut registry = ConnectionRegistry::new();
    let (a, _ra) = unbounded_channel::<String>();
    let (b, _rb) = unbounded_channel::<String>();
    let (c, _rc) = unbounded_channel::<String>();
    let mine = registry.register(1, a).expect("a token");
    let theirs = registry.register(2, b).expect("a token");
    assert!(!registry.deregister(2, mine));
    assert!(registry.contains(1));
    assert!(registry.deregister(1, mine));
    assert!(!registry.contains(1));
    assert!(registry.contains(2));
    let again = registry.register(1, c).expect("a token");
    assert!(registry.deregister(2, theirs));
    assert!(!registry.contains(2));
    assert!(registry.contains(1));
    assert_eq!(tokens(&registry.snapshot(1)), vec![again]);
}

#[test]
fn removing_the_older_connection_keeps_the_newer() {
    let mut registry = ConnectionRegistry::new();
    let (a, _ra) = unbounded_channel::<String>();
    let (b, _rb) = unbounded_channel::<String>();
    let first = registry.register(3, a).expect("a token");
    let second = registry.register(3, b).expect("a token");
    assert!(registry.deregister(3, first));
    assert_eq!(tokens(&registry.snapshot(3)), vec![second]);
    assert!(!registry.deregister(3, first));
    assert_eq!(tokens(&registry.snapshot(3)), vec![second]);
    assert!(registry.deregister(3, second));
    assert!(!registry.contains(3));
}

#[test]
fn an_unknown_token_removes_nothing() {
    let mut registry = ConnectionRegistry::new();
    let (a, _ra) = unbounded_channel::<String>();
    let token = registry.register(3, a).expect("a token");
    assert!(!registry.deregister(3, token + 1));
    assert!(!registry.deregister(4, token));
    assert!(!registry.contains(4));
    assert_eq!(tokens(&registry.snapshot(3)), vec![token]);
}

#[test]
fn a_shared_connection_keeps_its_token() {
    let mut registry = ConnectionRegistry::new();
    let (a, _ra) = unbounded_channel::<String>();
    registry.register(3, a);
    let conns = registry.snapshot(3);
    let copy = conns[0].share();
    assert_eq!(copy.token(), conns[0].token());
}
