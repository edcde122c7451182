//! What the server does, stated over what it knows.
//!
//! A [`ServerView`] is all that the clients share, a [`SessionView`] what belongs
//! to one of them. The relations below say what each event makes of both, and
//! what the client is told.

use crate::channel::{separate, FeedView, RoomView};
use crate::command::{command, CommandView};
use crate::directory::Table;
use crate::message::{notice, private_for, remark, shown_to, whisper, MessageView};
use crate::paint::{cyan, magenta, painted, red, yellow};
use crate::text::{begins, decimal, joined, trimmed};
use vstd::prelude::*;

verus! {

/// The name of the room that everyone starts in.
pub const GENERAL: &'static str = "#general";

/// What a client is greeted with.
pub const GREETING: &'static str = "Welcome to Rusty-Chat !\nChoose a nick-name : \n";

/// What `/help` answers.
pub const HELP: &'static str = "Available commands:\n\
    /join <room>        - Join or create a room\n\
    /leave              - Return to #general\n\
    /msg <nick> <text>  - Send a private message\n\
    /nick <new_nick>    - Set a new nick-name\n\
    /list users         - List users in current room\n\
    /list rooms         - List all rooms\n\
    /help               - Show this help\n\
    /quit               - Disconnect\n";

/// The name of the room that everyone starts in.
pub open spec fn general() -> Seq<char> {
    GENERAL@
}

/// What all clients share: the rooms, and the room that each user is in.
#[verifier::ext_equal]
pub struct ServerView {
    pub rooms: Table<RoomView>,
    pub users: Table<Seq<char>>,
}

/// What belongs to one client.
#[verifier::ext_equal]
pub struct SessionView {
    /// The nick-name of the user.
    pub name: Seq<char>,
    /// The room that they are in.
    pub room: Seq<char>,
    /// What they listen to.
    pub feed: FeedView,
}

/// What to do for a client.
pub enum ActionView {
    /// Wait for the next event.
    Continue,
    /// Write this to the client, then wait for the next event.
    Write(Seq<char>),
    /// End the session.
    Close,
}

/// What can come out of the receiver of a client.
pub enum ReceivedView {
    /// A message.
    Message(MessageView),
    /// So many messages were lost.
    Lagged(nat),
    /// The channel is gone.
    Closed,
}

impl ServerView {
    /// Whether the tables are in order, each room has a channel of its own, and
    /// the general room is there.
    pub open spec fn valid(self) -> bool {
        &&& self.rooms.valid()
        &&& self.users.valid()
        &&& separate(self.rooms)
        &&& self.rooms.has(general())
    }

    /// The server after `m` was posted in `room`. Where there is no such room,
    /// the message is dropped.
    pub open spec fn posting(self, room: Seq<char>, m: MessageView) -> ServerView {
        if self.rooms.has(room) {
            ServerView { rooms: self.rooms.put(room, self.rooms.map[room].posting(m)), ..self }
        } else {
            self
        }
    }

    /// The server with the user called `name` in `room`.
    pub open spec fn placing(self, name: Seq<char>, room: Seq<char>) -> ServerView {
        ServerView { users: self.users.put(name, room), ..self }
    }

    /// The server without the user called `name`.
    pub open spec fn releasing(self, name: Seq<char>) -> ServerView {
        ServerView { users: self.users.without(name), ..self }
    }
}

/// Whether `post` is `pre` with `room` in it: as it was, or else newly made.
pub open spec fn opened(pre: ServerView, room: Seq<char>, post: ServerView) -> bool {
    if pre.rooms.has(room) {
        post == pre
    } else {
        &&& post.rooms.map[room].fresh(pre.rooms)
        &&& post == (ServerView { rooms: pre.rooms.put(room, post.rooms.map[room]), ..pre })
    }
}

/// A server that is in order stays so when something is posted.
pub proof fn posting_keeps_order(pre: ServerView, room: Seq<char>, m: MessageView)
    requires
        pre.valid(),
    ensures
        pre.posting(room, m).valid(),
{
    let post = pre.posting(room, m);
    assert forall|a: Seq<char>, b: Seq<char>| #[trigger]
        post.rooms.has(a) && #[trigger] post.rooms.has(b) && a
            != b implies post.rooms.map[a].channel != post.rooms.map[b].channel by {
        assert(pre.rooms.has(a) && pre.rooms.has(b));
    }
}

/// A server that is in order stays so when a room is made.
pub proof fn opening_keeps_order(pre: ServerView, room: Seq<char>, post: ServerView)
    requires
        pre.valid(),
        opened(pre, room, post),
    ensures
        post.valid(),
{
    if !pre.rooms.has(room) {
        pre.rooms.put_keeps_order(room, post.rooms.map[room]);
        assert forall|a: Seq<char>, b: Seq<char>| #[trigger]
            post.rooms.has(a) && #[trigger] post.rooms.has(b) && a
                != b implies post.rooms.map[a].channel != post.rooms.map[b].channel by {
            assert(a != room ==> pre.rooms.has(a));
            assert(b != room ==> pre.rooms.has(b));
        }
    }
}

/// Whether `post` is `pre` after the server said `text` in `room`, in the colour
/// that `style` starts, on account of `origin`.
pub open spec fn announced(
    pre: ServerView,
    room: Seq<char>,
    origin: Seq<char>,
    text: Seq<char>,
    style: Seq<char>,
    post: ServerView,
) -> bool {
    exists|shown: Seq<char>| #[trigger]
        painted(shown, text, style) && post == pre.posting(room, notice(origin, shown))
}

/// What is said when `name` comes to `room`.
pub open spec fn joined_text(name: Seq<char>, room: Seq<char>) -> Seq<char> {
    name + " joined "@ + room
}

/// What is said when `name` goes from `room` to another.
pub open spec fn left_text(name: Seq<char>, room: Seq<char>) -> Seq<char> {
    name + " left "@ + room
}

/// What is said when `name` disconnects.
pub open spec fn gone_text(name: Seq<char>) -> Seq<char> {
    name + " left the chat."@
}

/// What is said when `name` takes the name `new`.
pub open spec fn renamed_text(name: Seq<char>, new: Seq<char>) -> Seq<char> {
    name + " is now known as "@ + new
}

/// What a client is told who has come to `room`.
pub open spec fn arrival_text(room: Seq<char>) -> Seq<char> {
    "You are now in "@ + room + "\n"@
}

/// Whether a client who sends `line` as their nick-name turns `pre` into `post`,
/// starts with the session `s` and is told `reply`.
pub open spec fn connected(
    pre: ServerView,
    line: Seq<char>,
    post: ServerView,
    s: SessionView,
    reply: Seq<char>,
) -> bool {
    let name = trimmed(line);
    &&& s == (SessionView { name, room: general(), feed: pre.rooms.map[general()].feed() })
    &&& announced(
        pre.placing(name, general()),
        general(),
        name,
        joined_text(name, general()),
        cyan(),
        post,
    )
    &&& reply == arrival_text(general())
}

/// Whether `post` and `t` are what becomes of `pre` and `s` when the user goes to
/// `room`: the old room is told, the new room is made where it is not there yet,
/// the user listens to it and is listed in it, and it is told.
pub open spec fn moved(
    pre: ServerView,
    s: SessionView,
    room: Seq<char>,
    post: ServerView,
    t: SessionView,
) -> bool {
    exists|told: ServerView, made: ServerView|
        {
            &&& #[trigger] announced(pre, s.room, s.name, left_text(s.name, s.room), red(), told)
            &&& #[trigger] opened(told, room, made)
            &&& t == (SessionView { name: s.name, room, feed: made.rooms.map[room].feed() })
            &&& announced(
                made.placing(s.name, room),
                room,
                s.name,
                joined_text(s.name, room),
                cyan(),
                post,
            )
        }
}

/// Whether a user is in `room`.
pub open spec fn lives_in(users: Table<Seq<char>>, room: Seq<char>) -> spec_fn(Seq<char>) -> bool {
    |name: Seq<char>| users.map[name] == room
}

/// The names of the users who are in `room`, in the order of the table.
pub open spec fn residents(users: Table<Seq<char>>, room: Seq<char>) -> Seq<Seq<char>> {
    users.order.filter(lives_in(users, room))
}

/// Whether `text` is addressed to `name`: it begins with the name and a space.
pub open spec fn addresses(text: Seq<char>, name: Seq<char>) -> bool {
    name.len() < text.len() && begins(text, name) && text[name.len() as int] == ' '
}

/// The longest name of a user, shorter than `bound`, that `text` is addressed to.
pub open spec fn addressee_below(
    users: Table<Seq<char>>,
    text: Seq<char>,
    bound: nat,
) -> Option<Seq<char>>
    decreases bound,
{
    if bound == 0 {
        None
    } else {
        let name = text.take(bound - 1);
        if users.has(name) && addresses(text, name) {
            Some(name)
        } else {
            addressee_below(users, text, (bound - 1) as nat)
        }
    }
}

/// The user that `text` is addressed to: the one with the longest name.
pub open spec fn addressee(users: Table<Seq<char>>, text: Seq<char>) -> Option<Seq<char>> {
    addressee_below(users, text, text.len())
}

/// Two names of the same length that `text` is addressed to are the same name.
pub proof fn addressed_names_agree(text: Seq<char>, a: Seq<char>, b: Seq<char>)
    requires
        addresses(text, a),
        addresses(text, b),
        a.len() == b.len(),
    ensures
        a == b,
{
}

/// Text that is a name, a space and more is addressed to that name, and the other
/// way round.
pub proof fn texts_are_addressed_by_name_and_space(text: Seq<char>, name: Seq<char>)
    ensures
        addresses(text, name) <==> text == name + " "@ + text.skip(1 + name.len() as int),
        addresses(text, name) <==> exists|tail: Seq<char>|
            text == #[trigger] (name + " "@ + tail),
{
    reveal_strlit(" ");
    let tail = text.skip(1 + name.len() as int);
    if addresses(text, name) {
        assert forall|i: int| 0 <= i < name.len() implies text[i] == name[i] by {
            assert(text.take(name.len() as int)[i] == text[i]);
        }
        assert(text =~= name + " "@ + tail);
    }
    if exists|tail: Seq<char>| text == #[trigger] (name + " "@ + tail) {
        let tail = choose|tail: Seq<char>| text == #[trigger] (name + " "@ + tail);
        assert(text.take(name.len() as int) =~= name);
        assert(text[name.len() as int] == ' ');
    }
}

/// [`addressee_below`] finds a user that `text` is addressed to, with the longest
/// name below the bound, exactly where there is one.
proof fn lemma_addressee_below(users: Table<Seq<char>>, text: Seq<char>, bound: nat)
    requires
        bound <= text.len(),
    ensures
        addressee_below(users, text, bound) is None ==> forall|n: Seq<char>|
            users.has(n) && n.len() < bound ==> !#[trigger] addresses(text, n),
        addressee_below(users, text, bound) matches Some(name) ==> users.has(name) && addresses(
            text,
            name,
        ) && forall|n: Seq<char>|
            users.has(n) && n.len() < bound && #[trigger] addresses(text, n) ==> n.len()
                <= name.len(),
    decreases bound,
{
    if bound > 0 {
        let name = text.take(bound - 1);
        assert forall|n: Seq<char>| n.len() == bound - 1 && #[trigger] addresses(text, n) implies n
            == name by {}
        lemma_addressee_below(users, text, (bound - 1) as nat);
    }
}

/// A text is for the user with the longest name among those that it is addressed
/// to; it is for nobody exactly where it is addressed to no user.
pub proof fn addressee_is_the_longest(users: Table<Seq<char>>, text: Seq<char>)
    ensures
        addressee(users, text) is None <==> forall|n: Seq<char>|
            users.has(n) ==> !#[trigger] addresses(text, n),
        addressee(users, text) matches Some(name) ==> users.has(name) && addresses(text, name)
            && forall|n: Seq<char>|
            users.has(n) && #[trigger] addresses(text, n) ==> n.len() <= name.len(),
{
    lemma_addressee_below(users, text, text.len());
}

/// Whether `post` and `t` are what becomes of `pre` and `s` when the user takes
/// the free name `new`.
pub open spec fn renamed(
    pre: ServerView,
    s: SessionView,
    new: Seq<char>,
    post: ServerView,
    t: SessionView,
) -> bool {
    &&& t == (SessionView { name: new, ..s })
    &&& announced(
        pre.releasing(s.name).placing(new, s.room),
        s.room,
        new,
        renamed_text(s.name, new),
        yellow(),
        post,
    )
}

/// Whether a client with the session `s` who sends `line` turns `pre` into `post`
/// and `s` into `t`, and whether `action` is what to do for them.
pub open spec fn handled(
    pre: ServerView,
    s: SessionView,
    line: Seq<char>,
    post: ServerView,
    t: SessionView,
    action: ActionView,
) -> bool {
    let unchanged = post == pre && t == s;
    match command(line) {
        CommandView::Nothing => unchanged && action == ActionView::Continue,
        CommandView::Quit => unchanged && action == ActionView::Close,
        CommandView::Join(room) => if room.len() == 0 {
            unchanged && action == ActionView::Write("Usage: /join <room>\n"@)
        } else if room == s.room {
            unchanged && action == ActionView::Write("You are already in "@ + room + "\n"@)
        } else {
            moved(pre, s, room, post, t) && action == ActionView::Write(arrival_text(room))
        },
        CommandView::Leave => if s.room == general() {
            unchanged && action == ActionView::Write("You are already in #general\n"@)
        } else {
            moved(pre, s, general(), post, t) && action == ActionView::Write(
                "You are back in #general\n"@,
            )
        },
        CommandView::ListRooms => unchanged && action == ActionView::Write(
            "Rooms: "@ + joined(pre.rooms.order, ", "@) + "\n"@,
        ),
        CommandView::ListUsers => unchanged && action == ActionView::Write(
            "Users in "@ + s.room + ": "@ + joined(residents(pre.users, s.room), ", "@) + "\n"@,
        ),
        CommandView::ListUnknown => unchanged && action == ActionView::Write(
            "Usage: /list users | /list rooms\n"@,
        ),
        CommandView::Tell(text) => match addressee(pre.users, text) {
            Some(target) => {
                &&& post == pre.posting(
                    pre.users.map[target],
                    whisper(s.name, target, trimmed(text.skip(target.len() as int))),
                )
                &&& t == s
                &&& action == ActionView::Continue
            },
            None => unchanged && action == ActionView::Write("Error: User not found\n"@),
        },
        CommandView::Nick(new) => if new.len() == 0 {
            unchanged && action == ActionView::Write("Usage: /nick <new-nick>\n"@)
        } else if pre.users.has(new) {
            unchanged && action == ActionView::Write(
                "Error: '"@ + new + "' is already taken\n"@,
            )
        } else {
            renamed(pre, s, new, post, t) && action == ActionView::Write(
                "You are now known as "@ + new + "\n"@,
            )
        },
        CommandView::Help => unchanged && action == ActionView::Write(HELP@),
        CommandView::Say(text) => {
            &&& post == pre.posting(s.room, remark(s.name, text))
            &&& t == s
            &&& action == ActionView::Continue
        },
    }
}

/// Whether the end of the session `s` turns `pre` into `post`.
pub open spec fn disconnected(pre: ServerView, s: SessionView, post: ServerView) -> bool {
    announced(pre.releasing(s.name), s.room, s.name, gone_text(s.name), red(), post)
}

/// A message as it is written to a client.
pub open spec fn rendered(prefix: Seq<char>, sender: Seq<char>, content: Seq<char>) -> Seq<char> {
    prefix + "["@ + sender + "]: "@ + content + "\n"@
}

/// Whether `line` is what the user called `name` is shown of `m`.
pub open spec fn presented(m: MessageView, name: Seq<char>, line: Seq<char>) -> bool {
    exists|prefix: Seq<char>, sender: Seq<char>|
        {
            &&& if private_for(m, name) {
                painted(prefix, "[Private] "@, magenta())
            } else {
                prefix == Seq::<char>::empty()
            }
            &&& painted(sender, m.sender, yellow())
            &&& line == #[trigger] rendered(prefix, sender, m.content)
        }
}

/// Whether `action` is what to do for the user called `name` about what came out
/// of their receiver.
pub open spec fn received(name: Seq<char>, event: ReceivedView, action: ActionView) -> bool {
    match event {
        ReceivedView::Message(m) => if shown_to(m, name) {
            action matches ActionView::Write(line) && presented(m, name, line)
        } else {
            action == ActionView::Continue
        },
        ReceivedView::Lagged(n) => action == ActionView::Write(
            "--- You missed "@ + decimal(n) + " messages ---\n"@,
        ),
        ReceivedView::Closed => action == ActionView::Close,
    }
}

} // verus!
