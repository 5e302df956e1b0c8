use ws_chat::client;
use ws_chat::server::{ChatServer, Connect, Disconnect, Join, ListRooms};

fn connect(server: &mut ChatServer<&'static str>, addr: &'static str) -> usize {
    match server.handle_connect(Connect { addr }) {
        Some((id, _)) => id,
        None => panic!("identities used up"),
    }
}

#[test]
fn connect_hands_out_distinct_identities() {
    let mut server: ChatServer<&'static str> = ChatServer::new();
    let mut ids: Vec<usize> = Vec::new();
    for _ in 0..200 {
        ids.push(connect(&mut server, "peer"));
    }
    for i in 0..ids.len() {
        assert_ne!(ids[i], 0);
        for j in (i + 1)..ids.len() {
            assert_ne!(ids[i], ids[j]);
        }
    }
}

#[test]
fn connect_notifies_only_existing_sessions() {
    let mut server: ChatServer<&'static str> = ChatServer::default();
    let (a, first) = server.handle_connect(Connect { addr: "a" }).unwrap();
    assert_eq!(first.text, "Someone joined");
    assert!(first.recipients.is_empty());
    let (b, second) = server.handle_connect(Connect { addr: "b" }).unwrap();
    assert_eq!(second.text, "Someone joined");
    assert_eq!(second.recipients, vec![a]);
    assert_ne!(a, b);
}

#[test]
fn member_until_disconnected() {
    let mut server: ChatServer<&'static str> = ChatServer::new();
    let a = connect(&mut server, "a");
    let b = connect(&mut server, "b");
    assert_eq!(server.recipient(a), Some(&"a"));
    assert_eq!(server.recipient(b), Some(&"b"));
    let left = server.handle_disconnect(Disconnect { id: a });
    assert_eq!(left.text, "Someone disconnected");
    assert_eq!(left.recipients, vec![b]);
    assert_eq!(server.recipient(a), None);
    let later = server.handle_message(client::Message { id: b, msg: "hi".to_owned() });
    assert_eq!(later.recipients, vec![b]);
    let c = connect(&mut server, "c");
    assert_ne!(c, a);
    let after = server.send_message("x");
    assert!(!after.recipients.contains(&a));
}

#[test]
fn disconnect_twice_is_harmless() {
    let mut server: ChatServer<&'static str> = ChatServer::new();
    let a = connect(&mut server, "a");
    let b = connect(&mut server, "b");
    let first = server.handle_disconnect(Disconnect { id: a });
    assert_eq!(first.recipients, vec![b]);
    let second = server.handle_disconnect(Disconnect { id: a });
    assert!(second.recipients.is_empty());
    assert_eq!(server.recipient(b), Some(&"b"));
    assert_eq!(server.send_message("x").recipients, vec![b]);
}

#[test]
fn disconnect_of_unknown_identity_is_harmless() {
    let mut server: ChatServer<&'static str> = ChatServer::new();
    let a = connect(&mut server, "a");
    let r = server.handle_disconnect(Disconnect { id: a + 1000 });
    assert!(r.recipients.is_empty());
    let r0 = server.handle_disconnect(Disconnect { id: 0 });
    assert!(r0.recipients.is_empty());
    assert_eq!(server.send_message("x").recipients, vec![a]);
}

#[test]
fn broadcast_reaches_exactly_the_registered() {
    let mut server: ChatServer<&'static str> = ChatServer::new();
    let a = connect(&mut server, "a");
    let d = connect(&mut server, "d");
    let b = connect(&mut server, "b");
    let c = connect(&mut server, "c");
    server.handle_disconnect(Disconnect { id: d });
    let r = server.handle_message(client::Message { id: a, msg: "hello all".to_owned() });
    assert_eq!(r.text, "hello all");
    assert_eq!(r.recipients, vec![a, b, c]);
    assert!(!r.recipients.contains(&d));
}

#[test]
fn broadcast_on_empty_registry_reaches_nobody() {
    let server: ChatServer<&'static str> = ChatServer::new();
    let r = server.send_message("anyone?");
    assert_eq!(r.text, "anyone?");
    assert!(r.recipients.is_empty());
}

#[test]
fn list_rooms_with_no_sessions() {
    let server: ChatServer<&'static str> = ChatServer::new();
    let rooms = server.handle_list_rooms(ListRooms);
    assert_eq!(rooms, vec!["Main".to_owned()]);
}

#[test]
fn list_rooms_with_sessions() {
    let mut server: ChatServer<&'static str> = ChatServer::new();
    connect(&mut server, "a");
    let rooms = server.handle_list_rooms(ListRooms);
    assert!(!rooms.is_empty());
    assert!(rooms.contains(&"Main".to_owned()));
}

#[test]
fn join_notifies_everyone() {
    let mut server: ChatServer<&'static str> = ChatServer::new();
    let a = connect(&mut server, "a");
    let b = connect(&mut server, "b");
    let r = server.handle_join(Join { id: a });
    assert_eq!(r.text, "Someone connected");
    assert_eq!(r.recipients, vec![a, b]);
}
