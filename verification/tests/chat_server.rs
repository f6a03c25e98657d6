use rust_labs::chat_server::{GetMap, Register, Unregister, WsChatServer};

#[test]
fn registered_sessions_get_distinct_fresh_ids() {
    let mut server: WsChatServer<&str> = WsChatServer::new();
    let a = server.register("alice");
    let b = server.register("bob");
    let c = server.handle_register(Register("carol"));
    assert!(a != b && b != c && a != c);
    assert_eq!(server.len(), 3);
    assert!(server.contains(a) && server.contains(b) && server.contains(c));
}

#[test]
fn register_as_a_taken_id_hands_the_recipient_back() {
    let mut server: WsChatServer<u32> = WsChatServer::new();
    assert_eq!(server.register_as(9, 1), Ok(9));
    assert_eq!(server.register_as(9, 2), Err(2));
    assert_eq!(server.len(), 1);
}

#[test]
fn first_free_id_is_the_smallest_gap() {
    let mut server: WsChatServer<u32> = WsChatServer::default();
    assert_eq!(server.first_free_id(), 0);
    server.register_as(0, 0).unwrap();
    server.register_as(1, 1).unwrap();
    server.register_as(3, 3).unwrap();
    assert_eq!(server.first_free_id(), 2);
}

#[test]
fn register_then_unregister_restores_the_registry() {
    let mut server: WsChatServer<u32> = WsChatServer::new();
    server.register_as(5, 50).unwrap();
    let id = server.register(60);
    server.handle_unregister(Unregister(id));
    assert_eq!(server.client_ids(), vec![5]);
}

#[test]
fn unregister_of_an_unknown_id_changes_nothing() {
    let mut server: WsChatServer<u32> = WsChatServer::new();
    server.register_as(5, 50).unwrap();
    let other = if server.contains(6) { 7 } else { 6 };
    server.unregister(other);
    assert_eq!(server.client_ids(), vec![5]);
}

#[test]
fn get_map_reports_every_registered_id() {
    let mut server: WsChatServer<u32> = WsChatServer::new();
    server.register_as(2, 0).unwrap();
    server.register_as(8, 0).unwrap();
    let mut ids = server.handle_get_map(GetMap(1, 2));
    ids.sort();
    assert_eq!(ids, vec![2, 8]);
}

#[test]
fn register_avoids_every_taken_id() {
    let mut server: WsChatServer<u32> = WsChatServer::new();
    for i in 0..10u64 {
        server.register_as(i, 0).unwrap();
    }
    let id = server.register(1);
    assert!(!(0..10).contains(&id));
    assert_eq!(server.len(), 11);
}

#[test]
fn choose_id_takes_the_first_free_draw() {
    let mut server: WsChatServer<u32> = WsChatServer::new();
    server.register_as(4, 0).unwrap();
    server.register_as(9, 0).unwrap();
    assert_eq!(server.choose_id(&vec![9, 4, 17, 3]), 17);
    assert_eq!(server.choose_id(&vec![5]), 5);
}

#[test]
fn choose_id_falls_back_to_the_smallest_free_id() {
    let mut server: WsChatServer<u32> = WsChatServer::new();
    server.register_as(0, 0).unwrap();
    server.register_as(1, 0).unwrap();
    server.register_as(7, 0).unwrap();
    assert_eq!(server.choose_id(&vec![7, 1, 0]), 2);
    assert_eq!(server.choose_id(&vec![]), 2);
}
