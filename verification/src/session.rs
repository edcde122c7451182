//! One client, from the nick-name to the end.

use crate::channel::feed_of;
use crate::command::{parse, Command};
use crate::message::{private_message, public_message, whisper, ChatMessage};
use crate::model::{
    addressee, addressee_is_the_longest, announced, arrival_text, connected, disconnected, general,
    handled, joined_text, left_text, moved, opened, presented, received, renamed, rendered,
    ActionView, ReceivedView, SessionView, GENERAL, GREETING, HELP,
};
use crate::paint::{cyan, paint_cyan, paint_magenta, paint_plain, paint_red, paint_yellow, red};
use crate::server::Server;
use crate::text::{after, join, number, same, trim, trimmed};
use tokio::sync::broadcast;
use vstd::prelude::*;
use vstd::string::*;

verus! {

/// What to do for a client.
pub enum Action {
    /// Wait for the next event.
    Continue,
    /// Write this to the client, then wait for the next event.
    Write(String),
    /// End the session.
    Close,
}

impl View for Action {
    type V = ActionView;

    open spec fn view(&self) -> ActionView {
        match self {
            Action::Continue => ActionView::Continue,
            Action::Write(text) => ActionView::Write(text@),
            Action::Close => ActionView::Close,
        }
    }
}

/// What can come out of the receiver of a client.
pub enum Received {
    /// A message.
    Message(ChatMessage),
    /// So many messages were lost, since the client did not keep up.
    Lagged(u64),
    /// The channel is gone.
    Closed,
}

impl View for Received {
    type V = ReceivedView;

    open spec fn view(&self) -> ReceivedView {
        match self {
            Received::Message(m) => ReceivedView::Message(m@),
            Received::Lagged(n) => ReceivedView::Lagged(*n as nat),
            Received::Closed => ReceivedView::Closed,
        }
    }
}

/// What belongs to one client.
pub struct Session {
    /// The nick-name of the user.
    pub username: String,
    /// The room that they are in.
    pub current_room: String,
    /// What they listen to.
    pub rx: broadcast::Receiver<ChatMessage>,
}

impl View for Session {
    type V = SessionView;

    open spec fn view(&self) -> SessionView {
        SessionView {
            name: self.username@,
            room: self.current_room@,
            feed: feed_of(self.rx),
        }
    }
}

/// What a client is greeted with.
pub fn greeting() -> (r: String)
    ensures
        r@ == GREETING@,
        r@ == "Welcome to Rusty-Chat !\nChoose a nick-name : \n"@,
{
    GREETING.to_string()
}

/// What a client is told who has come to a room.
fn arrival(room: &str) -> (r: String)
    ensures
        r@ == arrival_text(room@),
        r@ == "You are now in "@ + room@ + "\n"@,
{
    "You are now in ".to_string().concat(room).concat("\n")
}

/// A message as it is written to a client.
pub fn render(prefix: &str, sender: &str, content: &str) -> (r: String)
    ensures
        r@ == rendered(prefix@, sender@, content@),
        r@ == prefix@ + "["@ + sender@ + "]: "@ + content@ + "\n"@,
{
    prefix.to_string().concat("[").concat(sender).concat("]: ").concat(content).concat("\n")
}

impl Session {
    /// Starts the session of a client who sent `line` as their nick-name, and
    /// says what to write to them.
    pub fn connect(server: &mut Server, line: &str) -> (r: (Session, String))
        requires
            old(server)@.valid(),
        ensures
            connected(old(server)@, line@, final(server)@, r.0@, r.1@),
            final(server)@.valid(),
    {
        let username = trim(line).to_string();
        let current_room = GENERAL.to_string();
        server.place(username.as_str(), current_room.as_str());
        let rx = server.subscribe(current_room.as_str());
        let text = username.clone().concat(" joined ").concat(current_room.as_str());
        let shown = paint_cyan(text.as_str());
        server.announce(current_room.as_str(), username.as_str(), shown);
        let reply = arrival(current_room.as_str());
        (Session { username, current_room, rx }, reply)
    }

    /// Takes the user to another room.
    fn go_to(&mut self, server: &mut Server, room_name: &str)
        requires
            old(server)@.valid(),
        ensures
            moved(old(server)@, old(self)@, room_name@, final(server)@, final(self)@),
            final(server)@.valid(),
    {
        let ghost pre = server@;
        let ghost s = self@;
        let left = self.username.clone().concat(" left ").concat(self.current_room.as_str());
        let shown = paint_red(left.as_str());
        server.announce(self.current_room.as_str(), self.username.as_str(), shown);
        let ghost told = server@;
        assert(announced(pre, s.room, s.name, left_text(s.name, s.room), red(), told));
        server.open_room(room_name);
        let ghost made = server@;
        assert(opened(told, room_name@, made));
        self.rx = server.subscribe(room_name);
        self.current_room = room_name.to_string();
        server.place(self.username.as_str(), room_name);
        let arrived = self.username.clone().concat(" joined ").concat(room_name);
        let shown = paint_cyan(arrived.as_str());
        server.announce(room_name, self.username.as_str(), shown);
        assert(announced(
            made.placing(s.name, room_name@),
            room_name@,
            s.name,
            joined_text(s.name, room_name@),
            cyan(),
            server@,
        ));
    }

    /// Does what `/join` asks for.
    fn join_room(&mut self, server: &mut Server, room_name: &str) -> (action: Action)
        requires
            old(server)@.valid(),
        ensures
            ({
                let unchanged = final(server)@ == old(server)@ && final(self)@ == old(self)@;
                if room_name@.len() == 0 {
                    unchanged && action@ == ActionView::Write("Usage: /join <room>\n"@)
                } else if room_name@ == old(self)@.room {
                    unchanged && action@ == ActionView::Write(
                        "You are already in "@ + room_name@ + "\n"@,
                    )
                } else {
                    &&& moved(old(server)@, old(self)@, room_name@, final(server)@, final(self)@)
                    &&& action@ == ActionView::Write(arrival_text(room_name@))
                }
            }),
            final(server)@.valid(),
    {
        if room_name.is_empty() {
            Action::Write("Usage: /join <room>\n".to_string())
        } else if same(room_name, self.current_room.as_str()) {
            Action::Write("You are already in ".to_string().concat(room_name).concat("\n"))
        } else {
            self.go_to(server, room_name);
            Action::Write(arrival(room_name))
        }
    }

    /// Does what `/leave` asks for.
    fn leave_room(&mut self, server: &mut Server) -> (action: Action)
        requires
            old(server)@.valid(),
        ensures
            if old(self)@.room == general() {
                &&& final(server)@ == old(server)@
                &&& final(self)@ == old(self)@
                &&& action@ == ActionView::Write("You are already in #general\n"@)
            } else {
                &&& moved(old(server)@, old(self)@, general(), final(server)@, final(self)@)
                &&& action@ == ActionView::Write("You are back in #general\n"@)
            },
            final(server)@.valid(),
    {
        if same(self.current_room.as_str(), GENERAL) {
            Action::Write("You are already in #general\n".to_string())
        } else {
            self.go_to(server, GENERAL);
            Action::Write("You are back in #general\n".to_string())
        }
    }

    /// Does what `/msg` asks for.
    fn tell(&self, server: &mut Server, text: &str) -> (action: Action)
        requires
            old(server)@.valid(),
        ensures
            match addressee(old(server)@.users, text@) {
                Some(target) => {
                    &&& final(server)@ == old(server)@.posting(
                        old(server)@.users.map[target],
                        whisper(self@.name, target, trimmed(text@.skip(target.len() as int))),
                    )
                    &&& action@ == ActionView::Continue
                },
                None => {
                    &&& final(server)@ == old(server)@
                    &&& action@ == ActionView::Write("Error: User not found\n"@)
                },
            },
            final(server)@.valid(),
    {
        match server.find_addressee(text) {
            Some((target, room)) => {
                proof {
                    addressee_is_the_longest(server@.users, text@);
                }
                let content = trim(after(text, target.as_str().unicode_len()));
                let msg = private_message(self.username.as_str(), target.as_str(), content);
                server.broadcast_to_room(room.as_str(), msg);
                Action::Continue
            },
            None => Action::Write("Error: User not found\n".to_string()),
        }
    }

    /// Does what `/nick` asks for.
    fn rename(&mut self, server: &mut Server, new_nick: String) -> (action: Action)
        requires
            old(server)@.valid(),
        ensures
            ({
                let unchanged = final(server)@ == old(server)@ && final(self)@ == old(self)@;
                let new = new_nick@;
                if new.len() == 0 {
                    unchanged && action@ == ActionView::Write("Usage: /nick <new-nick>\n"@)
                } else if old(server)@.users.has(new) {
                    unchanged && action@ == ActionView::Write(
                        "Error: '"@ + new + "' is already taken\n"@,
                    )
                } else {
                    &&& renamed(old(server)@, old(self)@, new, final(server)@, final(self)@)
                    &&& action@ == ActionView::Write("You are now known as "@ + new + "\n"@)
                }
            }),
            final(server)@.valid(),
    {
        if new_nick.as_str().is_empty() {
            return Action::Write("Usage: /nick <new-nick>\n".to_string());
        }
        if server.has_user(new_nick.as_str()) {
            let text = "Error: '".to_string().concat(new_nick.as_str());
            return Action::Write(text.concat("' is already taken\n"));
        }
        server.release(self.username.as_str());
        server.place(new_nick.as_str(), self.current_room.as_str());
        let text = self.username.clone().concat(" is now known as ").concat(new_nick.as_str());
        let shown = paint_yellow(text.as_str());
        server.announce(self.current_room.as_str(), new_nick.as_str(), shown);
        let reply = "You are now known as ".to_string().concat(new_nick.as_str()).concat("\n");
        self.username = new_nick;
        Action::Write(reply)
    }

    /// Handles a line that the client sent.
    pub fn handle_line(&mut self, server: &mut Server, line: &str) -> (action: Action)
        requires
            old(server)@.valid(),
        ensures
            handled(old(server)@, old(self)@, line@, final(server)@, final(self)@, action@),
            final(server)@.valid(),
    {
        match parse(line) {
            Command::Nothing => Action::Continue,
            Command::Quit => Action::Close,
            Command::Join(room_name) => self.join_room(server, room_name.as_str()),
            Command::Leave => self.leave_room(server),
            Command::ListRooms => {
                let list = join(&server.room_names(), ", ");
                Action::Write("Rooms: ".to_string().concat(list.as_str()).concat("\n"))
            },
            Command::ListUsers => {
                let list = join(&server.user_names(self.current_room.as_str()), ", ");
                let head = "Users in ".to_string().concat(self.current_room.as_str()).concat(": ");
                Action::Write(head.concat(list.as_str()).concat("\n"))
            },
            Command::ListUnknown => Action::Write("Usage: /list users | /list rooms\n".to_string()),
            Command::Tell(text) => self.tell(server, text.as_str()),
            Command::Nick(new_nick) => self.rename(server, new_nick),
            Command::Help => Action::Write(HELP.to_string()),
            Command::Say(text) => {
                let msg = public_message(self.username.as_str(), text.as_str());
                server.broadcast_to_room(self.current_room.as_str(), msg);
                Action::Continue
            },
        }
    }

    /// Says what to do about what came out of the receiver of the client.
    pub fn handle_received(&self, event: &Received) -> (action: Action)
        ensures
            received(self@.name, event@, action@),
    {
        match event {
            Received::Message(msg) => {
                if !msg.is_shown_to(self.username.as_str()) {
                    return Action::Continue;
                }
                let prefix = if msg.is_for(self.username.as_str()) {
                    paint_magenta("[Private] ")
                } else {
                    paint_plain("")
                };
                let sender = paint_yellow(msg.sender.as_str());
                proof {
                    reveal_strlit("");
                    assert(""@ =~= Seq::<char>::empty());
                }
                let line = render(prefix.as_str(), sender.as_str(), msg.content.as_str());
                assert(line@ == rendered(prefix@, sender@, msg@.content));
                assert(presented(msg@, self@.name, line@));
                Action::Write(line)
            },
            Received::Lagged(n) => {
                let count = number(*n);
                let text = "--- You missed ".to_string().concat(count.as_str());
                Action::Write(text.concat(" messages ---\n"))
            },
            Received::Closed => Action::Close,
        }
    }

    /// Ends the session: the user is forgotten, and the room is told.
    pub fn disconnect(&self, server: &mut Server)
        requires
            old(server)@.valid(),
        ensures
            disconnected(old(server)@, self@, final(server)@),
            final(server)@.valid(),
    {
        server.release(self.username.as_str());
        let text = self.username.clone().concat(" left the chat.");
        let shown = paint_red(text.as_str());
        server.announce(self.current_room.as_str(), self.username.as_str(), shown);
    }
}

} // verus!
