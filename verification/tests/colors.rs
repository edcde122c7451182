//! Colours, switched off and on.

use rusty_chat::{Action, ChatMessage, Received, Server, Session};

fn written(action: Action) -> String {
    match action {
        Action::Write(text) => text,
        Action::Continue => panic!("nothing was written"),
        Action::Close => panic!("the session was ended"),
    }
}

fn next(session: &mut Session) -> String {
    let event = Received::Message(session.rx.try_recv().unwrap());
    written(session.handle_received(&event))
}

/// What Alice is shown of a conversation.
fn conversation() -> Vec<String> {
    let mut server = Server::new();
    let (mut alice, _) = Session::connect(&mut server, "Alice");
    alice.rx.try_recv().unwrap();
    let (mut bob, _) = Session::connect(&mut server, "Bob");
    bob.handle_line(&mut server, "Hi");
    bob.handle_line(&mut server, "/msg Alice psst");
    bob.handle_line(&mut server, "/nick Rob");
    bob.handle_line(&mut server, "/join #rust");
    bob.handle_line(&mut server, "/leave");
    bob.disconnect(&mut server);
    let mut seen = Vec::new();
    for _ in 0..7 {
        seen.push(next(&mut alice));
    }
    assert!(alice.rx.try_recv().is_err());
    seen
}

#[test]
fn notices_and_senders_are_coloured_where_colours_are_on() {
    colored::control::set_override(false);
    assert_eq!(
        conversation(),
        [
            "[System]: Bob joined #general\n",
            "[Bob]: Hi\n",
            "[Private] [Bob]: psst\n",
            "[System]: Bob is now known as Rob\n",
            "[System]: Rob left #general\n",
            "[System]: Rob joined #general\n",
            "[System]: Rob left the chat.\n",
        ]
    );

    colored::control::set_override(true);
    assert_eq!(
        conversation(),
        [
            "[\x1b[33mSystem\x1b[0m]: \x1b[36mBob joined #general\x1b[0m\n",
            "[\x1b[33mBob\x1b[0m]: Hi\n",
            "\x1b[35m[Private] \x1b[0m[\x1b[33mBob\x1b[0m]: psst\n",
            "[\x1b[33mSystem\x1b[0m]: \x1b[33mBob is now known as Rob\x1b[0m\n",
            "[\x1b[33mSystem\x1b[0m]: \x1b[31mRob left #general\x1b[0m\n",
            "[\x1b[33mSystem\x1b[0m]: \x1b[36mRob joined #general\x1b[0m\n",
            "[\x1b[33mSystem\x1b[0m]: \x1b[31mRob left the chat.\x1b[0m\n",
        ]
    );
    sender_with_resets();
}

/// A reset inside the text does not end the colour.
fn sender_with_resets() {
    let mut server = Server::new();
    let (alice, _) = Session::connect(&mut server, "Alice");
    let event = Received::Message(ChatMessage {
        sender: "a\x1b[0mb\x1b[0m\x1b[0".to_string(),
        origin: "Bob".to_string(),
        target: None,
        content: "c\x1b[0md".to_string(),
    });
    assert_eq!(
        written(alice.handle_received(&event)),
        "[\x1b[33ma\x1b[0m\x1b[33mb\x1b[0m\x1b[33m\x1b[0\x1b[0m]: c\x1b[0md\n"
    );
}
