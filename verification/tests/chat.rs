//! Whole conversations: several clients on one server.

use rusty_chat::{greeting, Action, Received, Server, Session};
use std::collections::VecDeque;
use tokio::sync::broadcast::error::TryRecvError;

/// One client: the session, while it lasts, and the lines written to them that
/// they have not read yet.
struct Client {
    session: Option<Session>,
    unread: VecDeque<String>,
}

/// A server and its clients.
struct Chat {
    server: Server,
    clients: Vec<Client>,
}

fn start_server() -> Chat {
    Chat {
        server: Server::new(),
        clients: Vec::new(),
    }
}

impl Client {
    fn write(&mut self, text: &str) {
        for line in text.lines() {
            self.unread.push_back(format!("{}\n", line));
        }
    }
}

impl Chat {
    /// Connects a client and reads the confirmation.
    fn connect_as(&mut self, username: &str) -> usize {
        assert_eq!(
            greeting(),
            "Welcome to Rusty-Chat !\nChoose a nick-name : \n"
        );
        let line = format!("{}\n", username);
        let (session, reply) = Session::connect(&mut self.server, &line);
        assert_eq!(reply, "You are now in #general\n");
        self.clients.push(Client {
            session: Some(session),
            unread: VecDeque::new(),
        });
        self.settle();
        self.clients.len() - 1
    }

    /// Hands every message that is on its way to the clients that it reaches.
    fn settle(&mut self) {
        for client in self.clients.iter_mut() {
            loop {
                let Some(session) = client.session.as_mut() else {
                    break;
                };
                let event = match session.rx.try_recv() {
                    Ok(msg) => Received::Message(msg),
                    Err(TryRecvError::Lagged(n)) => Received::Lagged(n),
                    Err(TryRecvError::Closed) => Received::Closed,
                    Err(TryRecvError::Empty) => break,
                };
                match session.handle_received(&event) {
                    Action::Continue => {}
                    Action::Write(text) => client.write(&text),
                    Action::Close => client.session = None,
                }
            }
        }
    }

    /// Sends a line for a client.
    fn send(&mut self, client: usize, line: &str) {
        let client = &mut self.clients[client];
        let session = client.session.as_mut().unwrap();
        match session.handle_line(&mut self.server, line) {
            Action::Continue => {}
            Action::Write(text) => client.write(&text),
            Action::Close => {
                session.disconnect(&mut self.server);
                client.session = None;
            }
        }
        self.settle();
    }

    fn read_line(&mut self, client: usize) -> Option<String> {
        self.clients[client].unread.pop_front()
    }

    /// Reads until a line fits, at most `attempts` lines.
    fn read_until<F: Fn(&str) -> bool>(
        &mut self,
        client: usize,
        predicate: F,
        attempts: usize,
    ) -> Option<String> {
        for _ in 0..attempts {
            if let Some(line) = self.read_line(client) {
                if predicate(&line) {
                    return Some(line);
                }
            }
        }
        None
    }

    fn drain(&mut self, client: usize, attempts: usize) {
        for _ in 0..attempts {
            if self.read_line(client).is_none() {
                break;
            }
        }
    }
}

// Coming and going

#[test]
fn test_join_broadcast_visible_to_others() {
    let mut chat = start_server();
    let alice = chat.connect_as("Alice");
    let _bob = chat.connect_as("Bob");

    let line = chat.read_until(alice, |l| l.contains("Bob") && l.contains("joined"), 5);
    assert!(line.is_some(), "Alice should see Bob coming");
}

#[test]
fn test_join_not_visible_to_self() {
    let mut chat = start_server();
    let alice = chat.connect_as("Alice");

    let bad = chat.read_until(alice, |l| l.contains("Alice") && l.contains("joined"), 3);
    assert!(bad.is_none(), "Alice shouldn't see her own join: {:?}", bad);
}

#[test]
fn test_quit_broadcast_visible_to_others() {
    let mut chat = start_server();
    let alice = chat.connect_as("Alice");
    let bob = chat.connect_as("Bob");
    chat.read_until(alice, |l| l.contains("Bob") && l.contains("joined"), 5);

    chat.send(bob, "/quit\n");

    let line = chat.read_until(alice, |l| l.contains("Bob") && l.contains("left"), 5);
    assert!(line.is_some(), "Alice should see Bob leave");
}

// Public messages

#[test]
fn test_public_message_received_by_others() {
    let mut chat = start_server();
    let alice = chat.connect_as("Alice");
    let bob = chat.connect_as("Bob");
    chat.read_until(alice, |l| l.contains("Bob") && l.contains("joined"), 5);

    chat.send(bob, "Hello everyone\n");

    let line = chat.read_until(alice, |l| l.contains("Hello everyone"), 5);
    assert!(line.is_some(), "Alice should receive Bob's message");
}

#[test]
fn test_public_message_not_echoed_to_sender() {
    let mut chat = start_server();
    let _alice = chat.connect_as("Alice");
    let bob = chat.connect_as("Bob");
    chat.drain(bob, 5);

    chat.send(bob, "Hello\n");

    let bad = chat.read_until(bob, |l| l.contains("Hello"), 3);
    assert!(
        bad.is_none(),
        "Bob shouldn't receive his own message: {:?}",
        bad
    );
}

#[test]
fn test_public_message_received_by_multiple_clients() {
    let mut chat = start_server();
    let alice = chat.connect_as("Alice");
    let bob = chat.connect_as("Bob");
    let charlie = chat.connect_as("Charlie");
    chat.drain(alice, 5);
    chat.drain(bob, 5);

    chat.send(charlie, "Hi\n");

    let l1 = chat.read_until(alice, |l| l.contains("Hi"), 5);
    let l2 = chat.read_until(bob, |l| l.contains("Hi"), 5);
    assert!(l1.is_some(), "Alice should receive Charlie's message");
    assert!(l2.is_some(), "Bob should receive Charlie's message");
}

// Private messages

#[test]
fn test_private_message_received_by_target() {
    let mut chat = start_server();
    let alice = chat.connect_as("Alice");
    let bob = chat.connect_as("Bob");
    chat.read_until(alice, |l| l.contains("Bob") && l.contains("joined"), 5);

    chat.send(bob, "/msg Alice Hi in private\n");

    let line = chat.read_until(
        alice,
        |l| l.contains("Private") && l.contains("Hi in private"),
        5,
    );
    assert!(line.is_some(), "Alice should receive Bob's private message");
}

#[test]
fn test_private_message_not_visible_to_third_party() {
    let mut chat = start_server();
    let alice = chat.connect_as("Alice");
    let bob = chat.connect_as("Bob");
    let charlie = chat.connect_as("Charlie");
    chat.drain(alice, 5);
    chat.drain(charlie, 5);

    chat.send(bob, "/msg Alice Secret message\n");

    let bad = chat.read_until(charlie, |l| l.contains("Secret message"), 3);
    assert!(
        bad.is_none(),
        "Charlie shouldn't see the private message: {:?}",
        bad
    );
}

#[test]
fn test_private_message_not_echoed_to_sender() {
    let mut chat = start_server();
    let _alice = chat.connect_as("Alice");
    let bob = chat.connect_as("Bob");
    chat.drain(bob, 5);

    chat.send(bob, "/msg Alice Hi\n");

    let bad = chat.read_until(bob, |l| l.contains("Hi"), 3);
    assert!(
        bad.is_none(),
        "Bob shouldn't receive his own private message: {:?}",
        bad
    );
}

#[test]
fn test_private_message_cross_room() {
    let mut chat = start_server();
    let alice = chat.connect_as("Alice");
    let bob = chat.connect_as("Bob");
    chat.drain(alice, 5);

    chat.send(alice, "/join #rust\n");
    chat.read_until(alice, |l| l.contains("#rust"), 5);

    chat.send(bob, "/msg Alice Cross room message\n");

    let line = chat.read_until(
        alice,
        |l| l.contains("Private") && l.contains("Cross room message"),
        5,
    );
    assert!(
        line.is_some(),
        "Alice should receive Bob's cross-room private message"
    );
}

#[test]
fn test_private_message_unknown_user() {
    let mut chat = start_server();
    let alice = chat.connect_as("Alice");
    let bob = chat.connect_as("Bob");
    chat.read_until(alice, |l| l.contains("Bob") && l.contains("joined"), 5);

    chat.send(bob, "/msg Ghost Missing message\n");

    let bad = chat.read_until(alice, |l| l.contains("Missing message"), 3);
    assert!(
        bad.is_none(),
        "Alice shouldn't receive a message for a non-existent user: {:?}",
        bad
    );

    chat.send(bob, "I'm still here\n");
    let line = chat.read_until(alice, |l| l.contains("I'm still here"), 5);
    assert!(
        line.is_some(),
        "Bob should still be connected after an invalid /msg"
    );

    let err = chat.read_until(
        bob,
        |l| l.to_lowercase().contains("error") || l.to_lowercase().contains("not found"),
        3,
    );
    assert!(
        err.is_some(),
        "Bob should receive an error for unknown user"
    );
}

#[test]
fn test_private_message_usage_error() {
    let mut chat = start_server();
    let alice = chat.connect_as("Alice");

    chat.send(alice, "/msg\n");

    let line = chat.read_until(
        alice,
        |l| l.to_lowercase().contains("usage") || l.to_lowercase().contains("error"),
        5,
    );
    assert!(
        line.is_some(),
        "Alice should receive a usage message for malformed /msg"
    );
}

#[test]
fn test_private_message_to_username_with_spaces() {
    let mut chat = start_server();
    let john = chat.connect_as("John Doe");
    let bob = chat.connect_as("Bob");
    chat.read_until(john, |l| l.contains("Bob") && l.contains("joined"), 5);

    chat.send(bob, "/msg John Doe Hi buddy\n");

    let line = chat.read_until(
        john,
        |l| l.contains("Private") && l.contains("Hi buddy"),
        5,
    );
    assert!(
        line.is_some(),
        "John Doe should receive Bob's private message"
    );
}

// Rooms

#[test]
fn test_join_room_confirmation() {
    let mut chat = start_server();
    let alice = chat.connect_as("Alice");
    chat.drain(alice, 5);

    chat.send(alice, "/join #rust\n");

    let line = chat.read_until(alice, |l| l.contains("#rust"), 5);
    assert!(
        line.is_some(),
        "Alice should receive confirmation of joining #rust"
    );
}

#[test]
fn test_join_room_visible_to_room_members() {
    let mut chat = start_server();
    let alice = chat.connect_as("Alice");
    let bob = chat.connect_as("Bob");
    chat.drain(alice, 5);
    chat.drain(bob, 5);

    chat.send(alice, "/join #rust\n");
    chat.read_until(alice, |l| l.contains("#rust"), 5);

    chat.send(bob, "/join #rust\n");

    let line = chat.read_until(alice, |l| l.contains("Bob") && l.contains("joined"), 5);
    assert!(line.is_some(), "Alice should see Bob join #rust");
}

#[test]
fn test_message_not_visible_across_rooms() {
    let mut chat = start_server();
    let alice = chat.connect_as("Alice");
    let bob = chat.connect_as("Bob");
    chat.drain(alice, 5);
    chat.drain(bob, 5);

    chat.send(alice, "/join #rust\n");
    chat.read_until(alice, |l| l.contains("#rust"), 5);

    chat.send(alice, "Message in #rust\n");

    let bad = chat.read_until(bob, |l| l.contains("Message in #rust"), 3);
    assert!(
        bad.is_none(),
        "Bob in #general shouldn't see Alice's message in #rust: {:?}",
        bad
    );
}

#[test]
fn test_leave_returns_to_general() {
    let mut chat = start_server();
    let alice = chat.connect_as("Alice");
    let bob = chat.connect_as("Bob");
    chat.drain(alice, 5);
    chat.drain(bob, 5);

    chat.send(alice, "/join #rust\n");
    chat.read_until(alice, |l| l.contains("#rust"), 5);

    chat.send(alice, "/leave\n");
    chat.read_until(alice, |l| l.contains("#general"), 5);

    chat.send(alice, "Back in general\n");
    let line = chat.read_until(bob, |l| l.contains("Back in general"), 5);
    assert!(
        line.is_some(),
        "Bob should receive Alice's message after she returns to #general"
    );
}

#[test]
fn test_leave_from_general_rejected() {
    let mut chat = start_server();
    let alice = chat.connect_as("Alice");
    chat.drain(alice, 5);

    chat.send(alice, "/leave\n");

    let line = chat.read_until(alice, |l| l.contains("#general"), 5);
    assert!(
        line.is_some(),
        "Alice should receive an error when trying to /leave from #general"
    );
}

#[test]
fn test_join_same_room_rejected() {
    let mut chat = start_server();
    let alice = chat.connect_as("Alice");
    chat.drain(alice, 5);

    chat.send(alice, "/join #general\n");

    let line = chat.read_until(alice, |l| l.contains("already"), 5);
    assert!(
        line.is_some(),
        "Alice should be told she's already in #general"
    );
}

#[test]
fn test_leave_old_room_on_join() {
    let mut chat = start_server();
    let alice = chat.connect_as("Alice");
    let bob = chat.connect_as("Bob");
    chat.drain(alice, 5);
    chat.drain(bob, 5);

    chat.send(bob, "/join #rust\n");
    chat.read_until(bob, |l| l.contains("#rust"), 5);
    chat.drain(alice, 5);

    chat.send(alice, "/join #rust\n");
    let line = chat.read_until(bob, |l| l.contains("Alice") && l.contains("joined"), 5);
    assert!(line.is_some(), "Bob should see Alice join #rust");

    chat.send(alice, "Hello from #rust\n");
    let line = chat.read_until(bob, |l| l.contains("Hello from #rust"), 5);
    assert!(
        line.is_some(),
        "Bob should receive Alice's message in #rust"
    );
}

// Lists

#[test]
fn test_list_users_shows_room_members() {
    let mut chat = start_server();
    let alice = chat.connect_as("Alice");
    let _bob = chat.connect_as("Bob");
    chat.drain(alice, 5);

    chat.send(alice, "/list users\n");

    let line = chat
        .read_until(alice, |l| l.contains("Users in"), 5)
        .unwrap();
    assert!(
        line.contains("Alice"),
        "Alice should be in the list: {}",
        line
    );
    assert!(line.contains("Bob"), "Bob should be in the list: {}", line);
}

#[test]
fn test_list_users_excludes_other_rooms() {
    let mut chat = start_server();
    let alice = chat.connect_as("Alice");
    let bob = chat.connect_as("Bob");
    chat.drain(alice, 5);

    chat.send(bob, "/join #rust\n");
    chat.drain(alice, 5);

    chat.send(alice, "/list users\n");

    let line = chat
        .read_until(alice, |l| l.contains("Users in"), 5)
        .unwrap();
    assert!(
        line.contains("Alice"),
        "Alice should be in #general list: {}",
        line
    );
    assert!(
        !line.contains("Bob"),
        "Bob (in #rust) shouldn't appear in #general list: {}",
        line
    );
}

#[test]
fn test_list_rooms_shows_all_rooms() {
    let mut chat = start_server();
    let alice = chat.connect_as("Alice");
    let bob = chat.connect_as("Bob");
    chat.drain(alice, 5);

    chat.send(bob, "/join #rust\n");

    chat.send(alice, "/list rooms\n");

    let line = chat.read_until(alice, |l| l.contains("Rooms:"), 5).unwrap();
    assert!(
        line.contains("#general"),
        "#general should appear in rooms: {}",
        line
    );
    assert!(
        line.contains("#rust"),
        "#rust should appear in rooms: {}",
        line
    );
}

#[test]
fn test_list_does_not_broadcast_to_others() {
    let mut chat = start_server();
    let alice = chat.connect_as("Alice");
    let bob = chat.connect_as("Bob");
    chat.drain(alice, 5);
    chat.drain(bob, 5);

    chat.send(alice, "/list users\n");

    let bad = chat.read_until(bob, |l| l.contains("Users in"), 3);
    assert!(
        bad.is_none(),
        "Bob shouldn't receive Alice's /list: {:?}",
        bad
    );
}

#[test]
fn test_list_updates_after_disconnect() {
    let mut chat = start_server();
    let alice = chat.connect_as("Alice");
    let bob = chat.connect_as("Bob");
    chat.drain(alice, 5);

    chat.send(bob, "/quit\n");
    chat.read_until(alice, |l| l.contains("Bob") && l.contains("left"), 5);

    chat.send(alice, "/list users\n");

    let line = chat
        .read_until(alice, |l| l.contains("Users in"), 5)
        .unwrap();
    assert!(
        !line.contains("Bob"),
        "Bob should no longer be in the list after /quit: {}",
        line
    );
    assert!(
        line.contains("Alice"),
        "Alice should still be in the list: {}",
        line
    );
}

// Help

#[test]
fn test_help_received_by_requester() {
    let mut chat = start_server();
    let alice = chat.connect_as("Alice");
    let bob = chat.connect_as("Bob");
    chat.drain(alice, 5);
    chat.drain(bob, 5);

    chat.send(alice, "/help\n");

    let line = chat.read_until(alice, |l| l.contains("Available commands"), 5);
    assert!(line.is_some(), "Alice should receive the help message");

    let bad = chat.read_until(bob, |l| l.contains("Available commands"), 3);
    assert!(
        bad.is_none(),
        "Bob shouldn't receive Alice's /help: {:?}",
        bad
    );
}

// Nick-names

#[test]
fn test_nick_change_visible_to_others() {
    let mut chat = start_server();
    let alice = chat.connect_as("Alice");
    let bob = chat.connect_as("Bob");
    chat.drain(alice, 5);
    chat.drain(bob, 5);

    chat.send(alice, "/nick Alicia\n");

    let line = chat.read_until(bob, |l| l.contains("Alice") && l.contains("Alicia"), 5);
    assert!(line.is_some(), "Bob should see Alice's nick change");
}

#[test]
fn test_nick_change_not_visible_to_self() {
    let mut chat = start_server();
    let alice = chat.connect_as("Alice");
    chat.drain(alice, 5);

    chat.send(alice, "/nick Alicia\n");

    let confirm = chat.read_until(alice, |l| l.contains("Alicia"), 5);
    assert!(
        confirm.is_some(),
        "Alice should receive nick change confirmation"
    );

    let bad = chat.read_until(alice, |l| l.contains("Alice") && l.contains("Alicia"), 3);
    assert!(
        bad.is_none(),
        "Alice shouldn't receive her own nick change broadcast: {:?}",
        bad
    );
}

#[test]
fn test_nick_already_taken() {
    let mut chat = start_server();
    let alice = chat.connect_as("Alice");
    let _bob = chat.connect_as("Bob");
    chat.drain(alice, 5);

    chat.send(alice, "/nick Bob\n");

    let line = chat.read_until(
        alice,
        |l| l.to_lowercase().contains("taken") || l.to_lowercase().contains("error"),
        5,
    );
    assert!(
        line.is_some(),
        "Alice should be told 'Bob' is already taken"
    );
}

#[test]
fn test_nick_empty() {
    let mut chat = start_server();
    let alice = chat.connect_as("Alice");
    chat.drain(alice, 5);

    chat.send(alice, "/nick\n");

    let line = chat.read_until(alice, |l| l.to_lowercase().contains("usage"), 5);
    assert!(
        line.is_some(),
        "Alice should receive usage message for empty /nick"
    );
}

#[test]
fn test_nick_message_uses_new_name() {
    let mut chat = start_server();
    let alice = chat.connect_as("Alice");
    let bob = chat.connect_as("Bob");
    chat.drain(alice, 5);
    chat.drain(bob, 5);

    chat.send(alice, "/nick Alicia\n");
    chat.read_until(bob, |l| l.contains("Alicia"), 5);
    chat.read_until(alice, |l| l.contains("Alicia"), 5);

    chat.send(alice, "Hello with new nick\n");

    let line = chat.read_until(
        bob,
        |l| l.contains("Alicia") && l.contains("Hello with new nick"),
        5,
    );
    assert!(
        line.is_some(),
        "Message should show new nick 'Alicia', not 'Alice'"
    );
}

#[test]
fn test_nick_private_message_with_new_name() {
    let mut chat = start_server();
    let alice = chat.connect_as("Alice");
    let bob = chat.connect_as("Bob");
    chat.drain(alice, 5);
    chat.drain(bob, 5);

    chat.send(alice, "/nick Alicia\n");
    chat.read_until(bob, |l| l.contains("Alicia"), 5);
    chat.read_until(alice, |l| l.contains("Alicia"), 5);

    chat.send(bob, "/msg Alicia Hey Alicia!\n");

    let line = chat.read_until(
        alice,
        |l| l.contains("Private") && l.contains("Hey Alicia!"),
        5,
    );
    assert!(
        line.is_some(),
        "Alice (now Alicia) should receive Bob's private message"
    );
}

// Edge cases

#[test]
fn test_empty_message_not_broadcast() {
    let mut chat = start_server();
    let alice = chat.connect_as("Alice");
    let bob = chat.connect_as("Bob");
    chat.read_until(alice, |l| l.contains("Bob") && l.contains("joined"), 5);

    chat.send(bob, "\n");

    let bad = chat.read_until(alice, |l| l.contains("[Bob]"), 3);
    assert!(
        bad.is_none(),
        "An empty message should not be broadcast: {:?}",
        bad
    );
}

#[test]
fn test_client_removed_after_disconnect() {
    let mut chat = start_server();
    let alice = chat.connect_as("Alice");
    let bob = chat.connect_as("Bob");
    chat.read_until(alice, |l| l.contains("Bob") && l.contains("joined"), 5);

    chat.send(bob, "/quit\n");
    chat.read_until(alice, |l| l.contains("Bob") && l.contains("left"), 5);

    let charlie = chat.connect_as("Charlie");
    chat.read_until(
        alice,
        |l| l.contains("Charlie") && l.contains("joined"),
        5,
    );

    chat.send(charlie, "/msg Bob Are you there?\n");

    let bad = chat.read_until(alice, |l| l.contains("Are you there?"), 3);
    assert!(
        bad.is_none(),
        "Bob has left, Alice shouldn't receive his private message: {:?}",
        bad
    );
}

#[test]
fn test_concurrent_connections() {
    let runtime = tokio::runtime::Builder::new_multi_thread()
        .worker_threads(4)
        .build()
        .unwrap();
    let server = std::sync::Arc::new(tokio::sync::RwLock::new(Server::new()));
    runtime.block_on(async {
        let mut handles = vec![];

        for i in 0..10 {
            let server = server.clone();
            handles.push(tokio::spawn(async move {
                let line = format!("User{}\n", i);
                let (mut session, _) = Session::connect(&mut *server.write().await, &line);
                let hello = format!("Hello from User{}\n", i);
                assert!(matches!(
                    session.handle_line(&mut *server.write().await, &hello),
                    Action::Continue
                ));
                assert!(matches!(
                    session.handle_line(&mut *server.write().await, "/quit\n"),
                    Action::Close
                ));
                session.disconnect(&mut *server.write().await);
            }));
        }

        for h in handles {
            h.await.unwrap();
        }

        for i in 0..10 {
            assert!(!server.read().await.has_user(&format!("User{}", i)));
        }
    });
}
