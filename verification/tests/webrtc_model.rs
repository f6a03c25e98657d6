use rust_labs::webrtc_model::{
    ice_state_action, Chunk, Connection, IceAction, IceConnectionState, WebRtcClients,
};

#[test]
fn new_chunk_is_empty_at_origin() {
    let c = Chunk::new();
    assert_eq!(c.map, [0; 16]);
    assert_eq!(c.position, [0, 0, 0]);
    assert_eq!(c, Chunk { map: [0; 16], position: [0; 3] });
}

#[test]
fn connection_list_reports_each_client_once() {
    let mut clients: WebRtcClients<&str> = WebRtcClients::new();
    clients.add_connection(7, "a");
    clients.add_connection(3, "b");
    clients.add_connection(7, "c");
    let mut ids: Vec<u64> = clients.connection_list().iter().map(|c| c.id).collect();
    ids.sort();
    assert_eq!(ids, vec![3, 7]);
}

#[test]
fn empty_table_lists_nothing() {
    let clients: WebRtcClients<u8> = WebRtcClients::default();
    assert!(clients.connection_list().is_empty());
}

#[test]
fn disconnect_removes_the_client() {
    let mut clients: WebRtcClients<u32> = WebRtcClients::new();
    clients.add_connection(1, 10);
    clients.add_connection(2, 20);
    let action = clients.on_ice_state_change(1, IceConnectionState::Disconnected);
    assert_eq!(action, IceAction::RemoveClient);
    assert_eq!(clients.connection_list(), vec![Connection { id: 2 }]);
}

#[test]
fn other_ice_states_keep_the_client() {
    let states = [
        IceConnectionState::Unspecified,
        IceConnectionState::New,
        IceConnectionState::Checking,
        IceConnectionState::Connected,
        IceConnectionState::Completed,
        IceConnectionState::Failed,
        IceConnectionState::Closed,
    ];
    for state in states {
        let mut clients: WebRtcClients<u32> = WebRtcClients::new();
        clients.add_connection(5, 50);
        assert_eq!(clients.on_ice_state_change(5, state), IceAction::NoAction);
        assert_eq!(ice_state_action(state), IceAction::NoAction);
        assert_eq!(clients.connection_list(), vec![Connection { id: 5 }]);
    }
}

#[test]
fn removing_an_absent_client_changes_nothing() {
    let mut clients: WebRtcClients<u32> = WebRtcClients::new();
    clients.add_connection(4, 40);
    clients.remove_connection(9);
    assert_eq!(clients.connection_list(), vec![Connection { id: 4 }]);
    clients.remove_connection(4);
    assert!(clients.connection_list().is_empty());
}
