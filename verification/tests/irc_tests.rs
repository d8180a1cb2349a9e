use honest_irc::crypto::{DisplayName, Identity};
use honest_irc::irc::{IrcDaemon, Message};

fn identity(raw: &str) -> Identity {
    Identity {
        route_id: "deadbeef".into(),
        display_name: DisplayName { raw: raw.into(), ascii_prefix: "test".into() },
        vector_hash: "abcdef".into(),
    }
}

#[test]
fn test_ping_pong() {
    let mut irc = IrcDaemon::new(Identity {
        route_id: "deadbeef".into(),
        display_name: DisplayName { raw: "test_user".into(), ascii_prefix: "test".into() },
        vector_hash: "abcdef".into(),
    });
    let result = irc.handle(Message::Ping);
    assert!(matches!(result, Some(Message::Pong)));
}

#[test]
fn test_join_room() {
    let mut irc = IrcDaemon::new(Identity {
        route_id: "deadbeef".into(),
        display_name: DisplayName { raw: "test".into(), ascii_prefix: "test".into() },
        vector_hash: "abcdef".into(),
    });
    irc.handle(Message::Join { from: "alice".into(), room: "#test".into() });
    assert!(irc.rooms.iter().any(|r| r.name == "#test" && r.members.contains(&"alice".to_string())));
}

#[test]
fn test_new_daemon_has_general() {
    let irc = IrcDaemon::new(identity("x"));
    assert_eq!(irc.rooms.len(), 1);
    assert_eq!(irc.rooms[0].name, "#general");
    assert!(irc.rooms[0].members.is_empty());
    assert!(irc.peers.is_empty());
    assert!(irc.crypto.is_some());
}

#[test]
fn test_join_announces_and_is_idempotent() {
    let mut irc = IrcDaemon::new(identity("x"));
    let reply = irc.handle(Message::Join { from: "alice".into(), room: "#general".into() });
    match reply {
        Some(Message::System { body }) => assert_eq!(body, "alice joined #general"),
        _ => panic!("expected a system message"),
    }
    irc.handle(Message::Join { from: "alice".into(), room: "#general".into() });
    assert_eq!(irc.rooms.len(), 1);
    assert_eq!(irc.rooms[0].members, vec!["alice".to_string()]);
}

#[test]
fn test_leave_removes_member() {
    let mut irc = IrcDaemon::new(identity("x"));
    irc.handle(Message::Join { from: "alice".into(), room: "#general".into() });
    irc.handle(Message::Join { from: "bob".into(), room: "#general".into() });
    let reply = irc.handle(Message::Leave { from: "alice".into(), room: "#general".into() });
    match reply {
        Some(Message::System { body }) => assert_eq!(body, "alice left #general"),
        _ => panic!("expected a system message"),
    }
    assert_eq!(irc.rooms[0].members, vec!["bob".to_string()]);
    // Leaving a room that does not exist changes nothing but is announced.
    let reply = irc.handle(Message::Leave { from: "bob".into(), room: "#nowhere".into() });
    assert!(matches!(reply, Some(Message::System { .. })));
    assert_eq!(irc.rooms.len(), 1);
}

#[test]
fn test_other_messages_get_no_reply() {
    let mut irc = IrcDaemon::new(identity("x"));
    let reply = irc.handle(Message::Text {
        from: "alice".into(),
        room: "#general".into(),
        body: "hi".into(),
    });
    assert!(reply.is_none());
    assert!(irc.handle(Message::Pong).is_none());
    assert!(irc.handle(Message::System { body: "x".into() }).is_none());
}

#[test]
fn test_console_lines() {
    let text = Message::Text { from: "alice".into(), room: "#general".into(), body: "hi".into() };
    assert_eq!(IrcDaemon::console_line(&text).unwrap(), "[alice] hi");
    let honesty = Message::Honesty { from: "bob".into(), vector: "v".into() };
    assert_eq!(IrcDaemon::console_line(&honesty).unwrap(), "[bob] shared honesty vector");
    let music = Message::Music {
        from: "carol".into(),
        track: "One".into(),
        choreography: "edesapa".into(),
        position: (6, 17),
    };
    assert_eq!(IrcDaemon::console_line(&music).unwrap(), "[carol] ♫ One (edesapa track 6/17)");
    assert!(IrcDaemon::console_line(&Message::Ping).is_none());
}

#[test]
fn test_message_clone_keeps_fields() {
    let music = Message::Music {
        from: "carol".into(),
        track: "One".into(),
        choreography: "edesapa".into(),
        position: (6, 7),
    };
    match music.clone() {
        Message::Music { from, track, choreography, position } => {
            assert_eq!(from, "carol");
            assert_eq!(track, "One");
            assert_eq!(choreography, "edesapa");
            assert_eq!(position, (6, 7));
        }
        _ => panic!("clone changed the variant"),
    }
}

#[test]
fn test_leave_undoes_join() {
    let mut irc = IrcDaemon::new(identity("x"));
    irc.handle(Message::Join { from: "bob".into(), room: "#general".into() });
    let before: Vec<(String, Vec<String>)> =
        irc.rooms.iter().map(|r| (r.name.clone(), r.members.clone())).collect();
    irc.handle(Message::Join { from: "alice".into(), room: "#general".into() });
    irc.handle(Message::Leave { from: "alice".into(), room: "#general".into() });
    let after: Vec<(String, Vec<String>)> =
        irc.rooms.iter().map(|r| (r.name.clone(), r.members.clone())).collect();
    assert_eq!(before, after);
}
