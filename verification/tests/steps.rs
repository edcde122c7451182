//! Single steps: what they answer, what they post and what they leave alone.

use rusty_chat::{Action, ChatMessage, Received, Room, RoomMap, Server, Session, UserMap};
use tokio::sync::broadcast::error::TryRecvError;

fn answer(session: &mut Session, server: &mut Server, line: &str) -> String {
    match session.handle_line(server, line) {
        Action::Write(text) => text,
        Action::Continue => String::new(),
        Action::Close => "close".to_string(),
    }
}

fn connect(server: &mut Server, name: &str) -> Session {
    let (session, reply) = Session::connect(server, name);
    assert_eq!(reply, "You are now in #general\n");
    session
}

/// Everything that reaches the receiver of a session, in order.
fn all(session: &mut Session) -> Vec<ChatMessage> {
    let mut messages = Vec::new();
    loop {
        match session.rx.try_recv() {
            Ok(msg) => messages.push(msg),
            Err(TryRecvError::Empty) => return messages,
            Err(_) => panic!("lost a message"),
        }
    }
}

fn parts(msg: &ChatMessage) -> (&str, &str, Option<&str>, &str) {
    (
        &msg.sender,
        &msg.origin,
        msg.target.as_deref(),
        &msg.content,
    )
}

#[test]
fn a_new_server_has_the_general_room_and_nobody() {
    let server = Server::new();
    assert_eq!(server.room_names(), ["#general"]);
    assert!(server.user_names("#general").is_empty());
    assert!(!server.has_user(""));
}

#[test]
fn a_nick_name_is_trimmed() {
    let mut server = Server::new();
    let (session, _) = Session::connect(&mut server, "  John Doe \r\n");
    assert_eq!(session.username, "John Doe");
    assert_eq!(session.current_room, "#general");
    assert_eq!(server.user_names("#general"), ["John Doe"]);
}

#[test]
fn answers_read_as_they_should() {
    let mut server = Server::new();
    let mut alice = connect(&mut server, "Alice");
    let _bob = connect(&mut server, "Bob");
    let s = &mut server;
    assert_eq!(answer(&mut alice, s, "/join"), "Usage: /join <room>\n");
    assert_eq!(
        answer(&mut alice, s, "/join #general"),
        "You are already in #general\n"
    );
    assert_eq!(
        answer(&mut alice, s, "/leave"),
        "You are already in #general\n"
    );
    assert_eq!(answer(&mut alice, s, "/nick"), "Usage: /nick <new-nick>\n");
    assert_eq!(
        answer(&mut alice, s, "/nick Bob"),
        "Error: 'Bob' is already taken\n"
    );
    assert_eq!(
        answer(&mut alice, s, "/nick Alice"),
        "Error: 'Alice' is already taken\n"
    );
    assert_eq!(
        answer(&mut alice, s, "/list cats"),
        "Usage: /list users | /list rooms\n"
    );
    assert_eq!(
        answer(&mut alice, s, "/list"),
        "Users in #general: Alice, Bob\n"
    );
    assert_eq!(answer(&mut alice, s, "/list rooms"), "Rooms: #general\n");
    assert_eq!(
        answer(&mut alice, s, "/msg Carol Hi"),
        "Error: User not found\n"
    );
    assert_eq!(
        answer(&mut alice, s, "/msg Bob"),
        "Error: User not found\n"
    );
    assert_eq!(
        answer(&mut alice, s, "/msg Bobby Hi"),
        "Error: User not found\n"
    );
    assert_eq!(answer(&mut alice, s, "\n"), "");
    assert_eq!(answer(&mut alice, s, "/quit"), "close");
    assert_eq!(
        answer(&mut alice, s, "/help"),
        "Available commands:\n\
         /join <room>        - Join or create a room\n\
         /leave              - Return to #general\n\
         /msg <nick> <text>  - Send a private message\n\
         /nick <new_nick>    - Set a new nick-name\n\
         /list users         - List users in current room\n\
         /list rooms         - List all rooms\n\
         /help               - Show this help\n\
         /quit               - Disconnect\n"
    );
}

#[test]
fn refusals_and_questions_change_nothing() {
    let mut server = Server::new();
    let mut alice = connect(&mut server, "Alice");
    let mut bob = connect(&mut server, "Bob");
    all(&mut alice);
    all(&mut bob);
    for line in [
        "",
        "/join",
        "/join #general",
        "/leave",
        "/nick",
        "/nick Bob",
        "/list",
        "/list rooms",
        "/list cats",
        "/msg Carol Hi",
        "/help",
        "/quit",
    ] {
        alice.handle_line(&mut server, line);
        assert!(all(&mut alice).is_empty(), "{}", line);
        assert!(all(&mut bob).is_empty(), "{}", line);
        assert_eq!(server.user_names("#general"), ["Alice", "Bob"]);
        assert_eq!(server.room_names(), ["#general"]);
        assert_eq!(alice.username, "Alice");
        assert_eq!(alice.current_room, "#general");
    }
}

#[test]
fn a_move_is_told_in_both_rooms_and_nowhere_else() {
    colored::control::set_override(false);
    let mut server = Server::new();
    let mut alice = connect(&mut server, "Alice");
    let mut bob = connect(&mut server, "Bob");
    let mut carol = connect(&mut server, "Carol");
    assert_eq!(
        answer(&mut bob, &mut server, "/join #rust"),
        "You are now in #rust\n"
    );
    answer(&mut carol, &mut server, "/join #go");
    all(&mut alice);
    all(&mut bob);
    all(&mut carol);

    assert_eq!(
        answer(&mut alice, &mut server, "/join #rust"),
        "You are now in #rust\n"
    );
    assert_eq!(alice.current_room, "#rust");
    assert_eq!(server.user_names("#rust"), ["Alice", "Bob"]);
    assert!(server.user_names("#general").is_empty());

    let told = all(&mut bob);
    assert_eq!(told.len(), 1);
    assert_eq!(
        parts(&told[0]),
        ("System", "Alice", None, "Alice joined #rust")
    );
    assert!(all(&mut carol).is_empty());
    // The mover listens to the new room from then on.
    let own = all(&mut alice);
    assert_eq!(own.len(), 1);
    assert!(!own[0].is_shown_to("Alice"));
}

#[test]
fn leave_undoes_join_and_the_room_stays() {
    let mut server = Server::new();
    let mut alice = connect(&mut server, "Alice");
    let mut bob = connect(&mut server, "Bob");
    answer(&mut alice, &mut server, "/join #rust");
    assert_eq!(
        answer(&mut alice, &mut server, "/leave"),
        "You are back in #general\n"
    );
    assert_eq!(alice.current_room, "#general");
    assert_eq!(server.user_names("#general"), ["Alice", "Bob"]);
    assert!(server.user_names("#rust").is_empty());
    assert_eq!(server.room_names(), ["#general", "#rust"]);
    all(&mut bob);
    all(&mut alice);
    answer(&mut bob, &mut server, "welcome back");
    let heard = all(&mut alice);
    assert_eq!(parts(&heard[0]), ("Bob", "Bob", None, "welcome back"));
}

#[test]
fn a_joiner_hears_nothing_from_before() {
    let mut server = Server::new();
    let mut alice = connect(&mut server, "Alice");
    answer(&mut alice, &mut server, "/join #rust");
    answer(&mut alice, &mut server, "too early");
    let mut bob = connect(&mut server, "Bob");
    answer(&mut bob, &mut server, "/join #rust");
    let heard = all(&mut bob);
    assert_eq!(heard.len(), 1);
    assert_eq!(heard[0].origin, "Bob");
}

#[test]
fn the_longest_nick_name_is_addressed() {
    let mut server = Server::new();
    let mut sender = connect(&mut server, "Sender");
    let mut john = connect(&mut server, "John");
    let mut doe = connect(&mut server, "John Doe");
    all(&mut john);
    all(&mut doe);

    answer(&mut sender, &mut server, "/msg John Doe  Hi  there ");
    let heard = all(&mut doe);
    assert_eq!(
        parts(&heard[0]),
        ("Sender", "Sender", Some("John Doe"), "Hi  there")
    );
    // It passes John by: they are in the same room, but it is not for them.
    assert!(!all(&mut john)[0].is_shown_to("John"));

    answer(&mut sender, &mut server, "/msg John Doenut");
    assert_eq!(
        parts(&all(&mut john)[0]),
        ("Sender", "Sender", Some("John"), "Doenut")
    );
    let (name, room) = server.find_addressee("John Doe x").unwrap();
    assert_eq!((name.as_str(), room.as_str()), ("John Doe", "#general"));
    assert!(server.find_addressee("Joh n").is_none());
}

#[test]
fn nobody_can_whisper_to_themselves() {
    let mut server = Server::new();
    let mut alice = connect(&mut server, "Alice");
    all(&mut alice);
    assert_eq!(answer(&mut alice, &mut server, "/msg Alice Hi"), "");
    let msg = all(&mut alice).remove(0);
    assert!(msg.is_for("Alice"));
    assert!(!msg.is_shown_to("Alice"));
    assert!(matches!(
        alice.handle_received(&Received::Message(msg)),
        Action::Continue
    ));
}

#[test]
fn a_new_nick_name_replaces_the_old_one() {
    colored::control::set_override(false);
    let mut server = Server::new();
    let mut alice = connect(&mut server, "Alice");
    let mut bob = connect(&mut server, "Bob");
    all(&mut bob);
    assert_eq!(
        answer(&mut alice, &mut server, "/nick Alicia"),
        "You are now known as Alicia\n"
    );
    assert_eq!(alice.username, "Alicia");
    assert!(!server.has_user("Alice"));
    assert!(server.has_user("Alicia"));
    assert_eq!(server.user_names("#general").len(), 2);
    assert_eq!(
        parts(&all(&mut bob)[0]),
        ("System", "Alicia", None, "Alice is now known as Alicia")
    );
    assert_eq!(
        answer(&mut bob, &mut server, "/nick Alice"),
        "You are now known as Alice\n"
    );
}

#[test]
fn a_departure_frees_the_name_and_is_told() {
    colored::control::set_override(false);
    let mut server = Server::new();
    let mut alice = connect(&mut server, "Alice");
    let bob = connect(&mut server, "Bob");
    all(&mut alice);
    bob.disconnect(&mut server);
    assert!(!server.has_user("Bob"));
    assert_eq!(server.user_names("#general"), ["Alice"]);
    assert_eq!(
        parts(&all(&mut alice)[0]),
        ("System", "Bob", None, "Bob left the chat.")
    );
}

#[test]
fn a_message_for_no_room_is_dropped() {
    let mut server = Server::new();
    let mut alice = connect(&mut server, "Alice");
    all(&mut alice);
    let msg = rusty_chat::message::public_message("Bob", "hello?");
    server.broadcast_to_room("#nowhere", msg);
    assert!(all(&mut alice).is_empty());
    assert_eq!(server.room_names(), ["#general"]);
}

#[test]
fn a_room_without_listeners_takes_messages() {
    let mut room = Room::new(&RoomMap::new());
    room.post(rusty_chat::message::public_message("Bob", "anyone?"));
    let mut rx = room.subscribe();
    assert!(rx.try_recv().is_err());
    room.post(rusty_chat::message::public_message("Bob", "now?"));
    assert_eq!(rx.try_recv().unwrap().content, "now?");
}

#[test]
fn each_room_has_a_channel_of_its_own() {
    let mut rooms = RoomMap::new();
    let first = Room::new(&rooms);
    rooms.insert("#a", first);
    let second = Room::new(&rooms);
    let first = rooms.get("#a").unwrap();
    assert!(!second.tx.same_channel(&first.tx));
    assert!(second.subscribe().same_channel(&second.tx.subscribe()));
    assert!(!second.subscribe().same_channel(&first.subscribe()));
}

#[test]
fn a_slow_client_is_told_what_it_missed() {
    let mut server = Server::new();
    let mut alice = connect(&mut server, "Alice");
    let mut bob = connect(&mut server, "Bob");
    all(&mut alice);
    for _ in 0..100 {
        answer(&mut bob, &mut server, "spam");
    }
    assert_eq!(all(&mut alice).len(), 100);
    for _ in 0..200 {
        answer(&mut bob, &mut server, "spam");
    }
    let lost = match alice.rx.try_recv() {
        Err(TryRecvError::Lagged(n)) => n,
        _ => panic!("nothing was lost"),
    };
    assert!(0 < lost && lost <= 100);
    match alice.handle_received(&Received::Lagged(lost)) {
        Action::Write(text) => {
            assert_eq!(text, format!("--- You missed {} messages ---\n", lost));
        }
        _ => panic!("nothing was written"),
    }
    assert!(matches!(
        alice.handle_received(&Received::Closed),
        Action::Close
    ));
}

#[test]
fn a_second_client_can_connect_with_a_name_that_is_taken() {
    let mut server = Server::new();
    let mut first = connect(&mut server, "Alice");
    answer(&mut first, &mut server, "/join #rust");
    let second = connect(&mut server, "Alice");
    assert_eq!(server.user_names("#general"), ["Alice"]);
    assert!(server.user_names("#rust").is_empty());
    second.disconnect(&mut server);
    assert!(!server.has_user("Alice"));
}

#[test]
fn a_directory_keeps_one_value_for_each_name() {
    let mut users: UserMap = UserMap::new();
    users.insert("a", "1".to_string());
    users.insert("b", "2".to_string());
    users.insert("a", "3".to_string());
    assert_eq!(users.names(), ["a", "b"]);
    assert_eq!(users.get("a").unwrap(), "3");
    if let Some(value) = users.get_mut("b") {
        *value = "4".to_string();
    }
    assert_eq!(users.entry(1), ("b", &"4".to_string()));
    users.remove("a");
    users.remove("missing");
    assert_eq!(users.len(), 1);
    assert!(!users.contains("a"));
    assert!(users.get_mut("a").is_none());
}

#[test]
fn the_users_that_are_listed_are_those_who_are_connected() {
    let mut server = Server::new();
    let mut alice = connect(&mut server, "Alice");
    let mut bob = connect(&mut server, "Bob");
    let carol = connect(&mut server, "Carol");
    answer(&mut alice, &mut server, "/join #rust");
    answer(&mut bob, &mut server, "/nick Rob");
    carol.disconnect(&mut server);
    for session in [&alice, &bob] {
        let listed = server.user_names(&session.current_room);
        assert!(listed.contains(&session.username));
    }
    assert_eq!(server.user_names("#general"), ["Rob"]);
    assert_eq!(server.user_names("#rust"), ["Alice"]);
    assert!(!server.has_user("Bob"));
    assert!(!server.has_user("Carol"));
    // What the others did left the receiver of Alice where it was.
    all(&mut alice);
    answer(&mut bob, &mut server, "/join #rust");
    let heard = all(&mut alice);
    assert_eq!(heard.len(), 1);
    assert_eq!(heard[0].origin, "Rob");
    assert!(heard[0].is_shown_to("Alice"));
}

#[test]
fn names_of_rooms_are_trimmed() {
    let mut server = Server::new();
    let mut alice = connect(&mut server, "Alice");
    answer(&mut alice, &mut server, "/join \t my room  \r\n");
    assert_eq!(server.room_names(), ["#general", "my room"]);
    assert_eq!(
        answer(&mut alice, &mut server, "/list rooms"),
        "Rooms: #general, my room\n"
    );
}
