//! What holds of the server as a whole.

use crate::channel::ROOM_CAPACITY;
use crate::command::{arguments_are_tight, command, CommandView};
use crate::directory::Table;
use crate::message::{notice, private_for, remark, shown_to, whisper, MessageView};
use crate::model::{
    addressee, announced, connected, disconnected, general, gone_text, handled, joined_text,
    left_text, lives_in, moved, opened, opening_keeps_order, posting_keeps_order, presented,
    renamed, renamed_text, rendered, residents, ActionView, ServerView, SessionView,
};
use crate::paint::{cyan, magenta, painted, red, yellow};
use crate::text::{holds, parts_are_held, tight, trimmed, trimming_cuts_the_white_ends};
use vstd::prelude::*;

verus! {

/// How many messages were posted in `room`; none where there is no such room.
pub open spec fn count(server: ServerView, room: Seq<char>) -> nat {
    if server.rooms.has(room) {
        server.rooms.map[room].posted.len()
    } else {
        0
    }
}

/// Whether `post` still has every room of `pre`, with the same channel and with
/// everything that was posted in it.
pub open spec fn grown(pre: ServerView, post: ServerView) -> bool {
    forall|room: Seq<char>| #[trigger]
        pre.rooms.has(room) ==> {
            &&& post.rooms.has(room)
            &&& post.rooms.map[room].channel == pre.rooms.map[room].channel
            &&& post.rooms.map[room].capacity == pre.rooms.map[room].capacity
            &&& pre.rooms.map[room].posted.is_prefix_of(post.rooms.map[room].posted)
        }
}

/// Whether everything that was posted between `pre` and `post` was caused by the
/// user called `name`.
pub open spec fn caused_by(pre: ServerView, post: ServerView, name: Seq<char>) -> bool {
    forall|room: Seq<char>, i: int|
        post.rooms.has(room) && count(pre, room) <= i < count(post, room) ==> (
        #[trigger] post.rooms.map[room].posted[i]).origin == name
}

/// Whether every channel was asked to keep the same number of messages.
pub open spec fn evenly_sized(server: ServerView) -> bool {
    forall|room: Seq<char>| #[trigger]
        server.rooms.has(room) ==> server.rooms.map[room].capacity == ROOM_CAPACITY
}

/// What a step may do, seen from outside: the tables stay in order, no room is
/// lost, no channel is of another size, and what is posted is of one origin.
pub open spec fn orderly(pre: ServerView, post: ServerView, origin: Seq<char>) -> bool {
    &&& post.valid()
    &&& grown(pre, post)
    &&& caused_by(pre, post, origin)
    &&& evenly_sized(pre) ==> evenly_sized(post)
}

/// Two steps on account of the same user are one such step.
proof fn lemma_orderly_in_turn(a: ServerView, b: ServerView, c: ServerView, origin: Seq<char>)
    requires
        orderly(a, b, origin),
        orderly(b, c, origin),
    ensures
        orderly(a, c, origin),
{
    rooms_persist(a, b, c);
    assert forall|room: Seq<char>, i: int|
        c.rooms.has(room) && count(a, room) <= i < count(c, room) implies (
    #[trigger] c.rooms.map[room].posted[i]).origin == origin by {
        if i < count(b, room) {
            assert(b.rooms.has(room));
            assert(c.rooms.map[room].posted[i] == b.rooms.map[room].posted[i]);
        }
    }
}

/// What a post comes to.
proof fn lemma_posting(pre: ServerView, room: Seq<char>, m: MessageView)
    requires
        pre.valid(),
    ensures
        orderly(pre, pre.posting(room, m), m.origin),
        pre.posting(room, m).users == pre.users,
        pre.posting(room, m).rooms.order == pre.rooms.order,
        pre.posting(room, m).rooms.map.dom() == pre.rooms.map.dom(),
{
    let post = pre.posting(room, m);
    posting_keeps_order(pre, room, m);
    assert(post.rooms.map.dom() =~= pre.rooms.map.dom());
    if evenly_sized(pre) {
        assert forall|q: Seq<char>| #[trigger] post.rooms.has(q) implies post.rooms.map[q].capacity
            == ROOM_CAPACITY by {
            assert(pre.rooms.has(q));
        }
    }
}

/// The body of a notice, known from what [`announced`] says.
proof fn lemma_announced(
    pre: ServerView,
    room: Seq<char>,
    origin: Seq<char>,
    text: Seq<char>,
    style: Seq<char>,
    post: ServerView,
) -> (shown: Seq<char>)
    requires
        pre.valid(),
        announced(pre, room, origin, text, style, post),
    ensures
        painted(shown, text, style),
        post == pre.posting(room, notice(origin, shown)),
        orderly(pre, post, origin),
        post.users == pre.users,
        post.rooms.order == pre.rooms.order,
        post.rooms.map.dom() == pre.rooms.map.dom(),
{
    let shown = choose|shown: Seq<char>| #[trigger]
        painted(shown, text, style) && post == pre.posting(room, notice(origin, shown));
    lemma_posting(pre, room, notice(origin, shown));
    shown
}

/// To list a user posts nothing.
proof fn lemma_placing(pre: ServerView, name: Seq<char>, room: Seq<char>, origin: Seq<char>)
    requires
        pre.valid(),
    ensures
        orderly(pre, pre.placing(name, room), origin),
{
    pre.users.put_keeps_order(name, room);
}

/// To forget a user posts nothing.
proof fn lemma_releasing(pre: ServerView, name: Seq<char>, origin: Seq<char>)
    requires
        pre.valid(),
    ensures
        orderly(pre, pre.releasing(name), origin),
{
    pre.users.without_keeps_order(name);
}

/// To make a room posts nothing.
proof fn lemma_opened(pre: ServerView, room: Seq<char>, post: ServerView, origin: Seq<char>)
    requires
        pre.valid(),
        opened(pre, room, post),
    ensures
        orderly(pre, post, origin),
        post.rooms.has(room),
        post.users == pre.users,
{
    if !pre.rooms.has(room) {
        opening_keeps_order(pre, room, post);
        if evenly_sized(pre) {
            assert forall|q: Seq<char>| #[trigger]
                post.rooms.has(q) implies post.rooms.map[q].capacity == ROOM_CAPACITY by {
                if q != room {
                    assert(pre.rooms.has(q));
                }
            }
        }
    }
}

/// The server has `m` as the last message of `room`, behind what was there.
pub open spec fn last_posted(
    pre: ServerView,
    room: Seq<char>,
    m: MessageView,
    post: ServerView,
) -> bool {
    &&& post.rooms.has(room)
    &&& count(post, room) == count(pre, room) + 1
    &&& post.rooms.map[room].posted.last() == m
}

/// What [`moved`] comes to.
pub(crate) proof fn lemma_moved(
    pre: ServerView,
    s: SessionView,
    room: Seq<char>,
    post: ServerView,
    t: SessionView,
) -> (r: (Seq<char>, Seq<char>))
    requires
        pre.valid(),
        moved(pre, s, room, post, t),
        room != s.room,
    ensures
        orderly(pre, post, s.name),
        t.name == s.name,
        t.room == room,
        post.users == pre.users.put(s.name, room),
        post.rooms.order == (if pre.rooms.has(room) {
            pre.rooms.order
        } else {
            pre.rooms.order.push(room)
        }),
        forall|q: Seq<char>| #[trigger] post.rooms.has(q) <==> pre.rooms.has(q) || q == room,
        forall|q: Seq<char>|
            q != s.room && q != room && #[trigger] pre.rooms.has(q) ==> post.rooms.map[q]
                == pre.rooms.map[q],
        painted(r.0, left_text(s.name, s.room), red()),
        pre.rooms.has(s.room) ==> last_posted(pre, s.room, notice(s.name, r.0), post),
        painted(r.1, joined_text(s.name, room), cyan()),
        last_posted(pre, room, notice(s.name, r.1), post),
        t.feed.source == post.rooms.map[room].channel,
        t.feed.start == count(pre, room),
        !pre.rooms.has(room) ==> post.rooms.map[room].capacity == ROOM_CAPACITY,
{
    let (told, made): (ServerView, ServerView) = choose|told: ServerView, made: ServerView|
        {
            &&& #[trigger] announced(pre, s.room, s.name, left_text(s.name, s.room), red(), told)
            &&& #[trigger] opened(told, room, made)
            &&& t == (SessionView { name: s.name, room, feed: made.rooms.map[room].feed() })
            &&& announced(
                made.placing(s.name, room),
                room,
                s.name,
                joined_text(s.name, room),
                cyan(),
                post,
            )
        };
    let placed = made.placing(s.name, room);
    let a = lemma_announced(pre, s.room, s.name, left_text(s.name, s.room), red(), told);
    lemma_opened(told, room, made, s.name);
    lemma_placing(made, s.name, room, s.name);
    let b = lemma_announced(placed, room, s.name, joined_text(s.name, room), cyan(), post);
    lemma_orderly_in_turn(pre, told, made, s.name);
    lemma_orderly_in_turn(pre, made, placed, s.name);
    lemma_orderly_in_turn(pre, placed, post, s.name);
    assert forall|q: Seq<char>| #[trigger] post.rooms.has(q) <==> pre.rooms.has(q) || q == room by {
        assert(told.rooms.has(q) <==> pre.rooms.has(q));
        assert(placed.rooms.has(q) <==> post.rooms.has(q));
    }
    (a, b)
}

/// What [`renamed`] comes to.
pub(crate) proof fn lemma_renamed(
    pre: ServerView,
    s: SessionView,
    new: Seq<char>,
    post: ServerView,
    t: SessionView,
) -> (shown: Seq<char>)
    requires
        pre.valid(),
        renamed(pre, s, new, post, t),
    ensures
        orderly(pre, post, new),
        painted(shown, renamed_text(s.name, new), yellow()),
        post == pre.releasing(s.name).placing(new, s.room).posting(s.room, notice(new, shown)),
        post.rooms == pre.posting(s.room, notice(new, shown)).rooms,
{
    let released = pre.releasing(s.name);
    let placed = released.placing(new, s.room);
    lemma_releasing(pre, s.name, new);
    lemma_placing(released, new, s.room, new);
    let shown = lemma_announced(placed, s.room, new, renamed_text(s.name, new), yellow(), post);
    lemma_orderly_in_turn(pre, released, placed, new);
    lemma_orderly_in_turn(pre, placed, post, new);
    shown
}

/// What [`connected`] comes to.
pub(crate) proof fn lemma_connected(
    pre: ServerView,
    line: Seq<char>,
    post: ServerView,
    s: SessionView,
    reply: Seq<char>,
) -> (shown: Seq<char>)
    requires
        pre.valid(),
        connected(pre, line, post, s, reply),
    ensures
        orderly(pre, post, s.name),
        painted(shown, joined_text(s.name, general()), cyan()),
        post == pre.placing(s.name, general()).posting(general(), notice(s.name, shown)),
        post.rooms == pre.posting(general(), notice(s.name, shown)).rooms,
{
    let placed = pre.placing(s.name, general());
    lemma_placing(pre, s.name, general(), s.name);
    let text = joined_text(s.name, general());
    let shown = lemma_announced(placed, general(), s.name, text, cyan(), post);
    lemma_orderly_in_turn(pre, placed, post, s.name);
    shown
}

/// What [`disconnected`] comes to.
pub(crate) proof fn lemma_disconnected(
    pre: ServerView,
    s: SessionView,
    post: ServerView,
) -> (shown: Seq<char>)
    requires
        pre.valid(),
        disconnected(pre, s, post),
    ensures
        orderly(pre, post, s.name),
        painted(shown, gone_text(s.name), red()),
        post == pre.releasing(s.name).posting(s.room, notice(s.name, shown)),
        post.rooms == pre.posting(s.room, notice(s.name, shown)).rooms,
{
    let released = pre.releasing(s.name);
    lemma_releasing(pre, s.name, s.name);
    let shown = lemma_announced(released, s.room, s.name, gone_text(s.name), red(), post);
    lemma_orderly_in_turn(pre, released, post, s.name);
    shown
}

/// Whether `s` and the server agree: the user is listed in the room that the
/// session is in, the room is there, and the session listens to its channel.
pub open spec fn in_step(server: ServerView, s: SessionView) -> bool {
    &&& server.users.has(s.name)
    &&& server.users.map[s.name] == s.room
    &&& server.rooms.has(s.room)
    &&& s.feed.source == server.rooms.map[s.room].channel
    &&& s.feed.start <= count(server, s.room)
}

/// The messages that reach the receiver of `s`, oldest first: what was posted in
/// its room since it started to listen there.
pub open spec fn heard(server: ServerView, s: SessionView) -> Seq<MessageView> {
    server.rooms.map[s.room].posted.skip(s.feed.start as int)
}

/// Whether every user is in a room that is there.
pub open spec fn housed(server: ServerView) -> bool {
    forall|name: Seq<char>| #[trigger]
        server.users.has(name) ==> server.rooms.has(server.users.map[name])
}

/// Whether `line` makes the server do something for a client with the session
/// `s`, other than to answer or to end the session.
pub open spec fn acts(server: ServerView, s: SessionView, line: Seq<char>) -> bool {
    match command(line) {
        CommandView::Join(room) => room.len() > 0 && room != s.room,
        CommandView::Leave => s.room != general(),
        CommandView::Tell(text) => addressee(server.users, text) is Some,
        CommandView::Nick(new) => new.len() > 0 && !server.users.has(new),
        CommandView::Say(text) => true,
        _ => false,
    }
}

/// A refused request, a question and an empty line change nothing: no table, no
/// room, nothing of the session.
pub proof fn answers_change_nothing(
    pre: ServerView,
    s: SessionView,
    line: Seq<char>,
    post: ServerView,
    t: SessionView,
    action: ActionView,
)
    requires
        handled(pre, s, line, post, t, action),
        !acts(pre, s, line),
    ensures
        post == pre,
        t == s,
{
}

/// A line keeps the server in order. No room is ever lost, no channel replaced,
/// nothing that was posted taken back. Whatever is posted is on account of the
/// user who sent the line, by the name that they have afterwards.
pub proof fn lines_are_orderly(
    pre: ServerView,
    s: SessionView,
    line: Seq<char>,
    post: ServerView,
    t: SessionView,
    action: ActionView,
)
    requires
        pre.valid(),
        handled(pre, s, line, post, t, action),
    ensures
        orderly(pre, post, t.name),
{
    match command(line) {
        CommandView::Join(room) if acts(pre, s, line) => {
            let _ = lemma_moved(pre, s, room, post, t);
        },
        CommandView::Leave if acts(pre, s, line) => {
            let _ = lemma_moved(pre, s, general(), post, t);
        },
        CommandView::Tell(text) if acts(pre, s, line) => {
            let target = addressee(pre.users, text)->0;
            let m = whisper(s.name, target, trimmed(text.skip(target.len() as int)));
            lemma_posting(pre, pre.users.map[target], m);
        },
        CommandView::Nick(new) if acts(pre, s, line) => {
            lemma_renamed(pre, s, new, post, t);
        },
        CommandView::Say(text) => {
            lemma_posting(pre, s.room, remark(s.name, text));
        },
        _ => {},
    }
}

/// A connection keeps the server in order, and what it posts is on account of the
/// new user.
pub proof fn connections_are_orderly(
    pre: ServerView,
    line: Seq<char>,
    post: ServerView,
    s: SessionView,
    reply: Seq<char>,
)
    requires
        pre.valid(),
        connected(pre, line, post, s, reply),
    ensures
        orderly(pre, post, s.name),
{
    let _ = lemma_connected(pre, line, post, s, reply);
}

/// The end of a session keeps the server in order, and what it posts is on
/// account of the user who goes.
pub proof fn departures_are_orderly(pre: ServerView, s: SessionView, post: ServerView)
    requires
        pre.valid(),
        disconnected(pre, s, post),
    ensures
        orderly(pre, post, s.name),
{
    let _ = lemma_disconnected(pre, s, post);
}

/// Rooms persist over any number of steps: what two steps keep, both keep.
pub proof fn rooms_persist(a: ServerView, b: ServerView, c: ServerView)
    requires
        grown(a, b),
        grown(b, c),
    ensures
        grown(a, c),
{
    assert forall|room: Seq<char>| #[trigger] a.rooms.has(room) implies {
        &&& c.rooms.has(room)
        &&& c.rooms.map[room].channel == a.rooms.map[room].channel
        &&& c.rooms.map[room].capacity == a.rooms.map[room].capacity
        &&& a.rooms.map[room].posted.is_prefix_of(c.rooms.map[room].posted)
    } by {
        assert(b.rooms.has(room));
    }
}

/// Only `/join` makes a room, and it makes no other than the one that it names.
pub proof fn only_join_makes_rooms(
    pre: ServerView,
    s: SessionView,
    line: Seq<char>,
    post: ServerView,
    t: SessionView,
    action: ActionView,
)
    requires
        pre.valid(),
        handled(pre, s, line, post, t, action),
    ensures
        post.rooms.order == pre.rooms.order || (command(line) matches CommandView::Join(room)
            && !pre.rooms.has(room) && post.rooms.order == pre.rooms.order.push(room)),
{
    match command(line) {
        CommandView::Join(room) if acts(pre, s, line) => {
            let _ = lemma_moved(pre, s, room, post, t);
        },
        CommandView::Leave if acts(pre, s, line) => {
            let _ = lemma_moved(pre, s, general(), post, t);
        },
        CommandView::Nick(new) if acts(pre, s, line) => {
            let _ = lemma_renamed(pre, s, new, post, t);
        },
        _ => {},
    }
}

/// Nobody is shown what they caused themselves: whatever a line makes the server
/// post, in any room, is not shown to the client who sent it, by the name that
/// they have afterwards. So there is no echo of what they said, in public or in
/// private, and no notice of their own coming, going or renaming.
pub proof fn lines_are_not_echoed(
    pre: ServerView,
    s: SessionView,
    line: Seq<char>,
    post: ServerView,
    t: SessionView,
    action: ActionView,
    room: Seq<char>,
    i: int,
)
    requires
        pre.valid(),
        handled(pre, s, line, post, t, action),
        post.rooms.has(room),
        count(pre, room) <= i < count(post, room),
    ensures
        !shown_to(post.rooms.map[room].posted[i], t.name),
{
    lines_are_orderly(pre, s, line, post, t, action);
}

/// A new client is not shown the notice of their own coming.
pub proof fn arrivals_are_not_echoed(
    pre: ServerView,
    line: Seq<char>,
    post: ServerView,
    s: SessionView,
    reply: Seq<char>,
    room: Seq<char>,
    i: int,
)
    requires
        pre.valid(),
        connected(pre, line, post, s, reply),
        post.rooms.has(room),
        count(pre, room) <= i < count(post, room),
    ensures
        !shown_to(post.rooms.map[room].posted[i], s.name),
{
    connections_are_orderly(pre, line, post, s, reply);
}

/// A public message is shown to everyone but its author.
pub proof fn remarks_are_for_everyone_else(author: Seq<char>, content: Seq<char>, name: Seq<char>)
    ensures
        shown_to(remark(author, content), name) <==> name != author,
{
}

/// A private message is shown to the user that it is for, and to no one else.
pub proof fn whispers_are_for_one(
    author: Seq<char>,
    target: Seq<char>,
    content: Seq<char>,
    name: Seq<char>,
)
    ensures
        shown_to(whisper(author, target, content), name) <==> name == target && name != author,
{
}

/// A notice of the server is shown to everyone but the user who caused it.
pub proof fn notices_are_for_everyone_else(origin: Seq<char>, content: Seq<char>, name: Seq<char>)
    ensures
        shown_to(notice(origin, content), name) <==> name != origin,
{
}

/// A new session agrees with the server.
pub proof fn sessions_start_in_step(
    pre: ServerView,
    line: Seq<char>,
    post: ServerView,
    s: SessionView,
    reply: Seq<char>,
)
    requires
        pre.valid(),
        connected(pre, line, post, s, reply),
    ensures
        in_step(post, s),
        s.room == general(),
        housed(pre) ==> housed(post),
{
    let _ = lemma_connected(pre, line, post, s, reply);
    if housed(pre) {
        assert forall|name: Seq<char>| #[trigger] post.users.has(name) implies post.rooms.has(
            post.users.map[name],
        ) by {
            if name != s.name {
                assert(pre.users.has(name));
            }
        }
    }
}

/// A session that agrees with the server still does when it has handled a line:
/// whatever the client does, they are listed in the room that they are in, and
/// listen to its channel.
pub proof fn sessions_stay_in_step(
    pre: ServerView,
    s: SessionView,
    line: Seq<char>,
    post: ServerView,
    t: SessionView,
    action: ActionView,
)
    requires
        pre.valid(),
        handled(pre, s, line, post, t, action),
        in_step(pre, s),
    ensures
        in_step(post, t),
        housed(pre) ==> housed(post),
{
    lines_are_orderly(pre, s, line, post, t, action);
    match command(line) {
        CommandView::Join(room) if acts(pre, s, line) => {
            let _ = lemma_moved(pre, s, room, post, t);
        },
        CommandView::Leave if acts(pre, s, line) => {
            let _ = lemma_moved(pre, s, general(), post, t);
        },
        CommandView::Nick(new) if acts(pre, s, line) => {
            let _ = lemma_renamed(pre, s, new, post, t);
        },
        _ => {},
    }
    if housed(pre) {
        assert forall|name: Seq<char>| #[trigger] post.users.has(name) implies post.rooms.has(
            post.users.map[name],
        ) by {
            if name != t.name {
                assert(pre.users.has(name));
                assert(post.users.map[name] == pre.users.map[name]);
            }
        }
    }
}

/// What one client does leaves another client, of another name, in step with the
/// server; and it leaves their names different.
pub proof fn others_stay_in_step(
    pre: ServerView,
    s: SessionView,
    line: Seq<char>,
    post: ServerView,
    t: SessionView,
    action: ActionView,
    other: SessionView,
)
    requires
        pre.valid(),
        handled(pre, s, line, post, t, action),
        in_step(pre, other),
        other.name != s.name,
    ensures
        in_step(post, other),
        other.name != t.name,
{
    lines_are_orderly(pre, s, line, post, t, action);
    match command(line) {
        CommandView::Join(room) if acts(pre, s, line) => {
            let _ = lemma_moved(pre, s, room, post, t);
        },
        CommandView::Leave if acts(pre, s, line) => {
            let _ = lemma_moved(pre, s, general(), post, t);
        },
        CommandView::Nick(new) if acts(pre, s, line) => {
            let _ = lemma_renamed(pre, s, new, post, t);
        },
        _ => {},
    }
}

/// A new client leaves the others in step, unless they took the name of one.
pub proof fn others_stay_in_step_with_arrivals(
    pre: ServerView,
    line: Seq<char>,
    post: ServerView,
    s: SessionView,
    reply: Seq<char>,
    other: SessionView,
)
    requires
        pre.valid(),
        connected(pre, line, post, s, reply),
        in_step(pre, other),
        other.name != s.name,
    ensures
        in_step(post, other),
{
    let _ = lemma_connected(pre, line, post, s, reply);
}

/// A client who goes leaves the others in step.
pub proof fn others_stay_in_step_with_departures(
    pre: ServerView,
    s: SessionView,
    post: ServerView,
    other: SessionView,
)
    requires
        pre.valid(),
        disconnected(pre, s, post),
        in_step(pre, other),
        other.name != s.name,
    ensures
        in_step(post, other),
{
    let _ = lemma_disconnected(pre, s, post);
}

/// A client in step with the server listens to no other room than their own: the
/// channel of any other room is not the one that they receive from.
pub proof fn sessions_listen_to_one_room(server: ServerView, s: SessionView, room: Seq<char>)
    requires
        server.valid(),
        in_step(server, s),
        server.rooms.has(room),
        room != s.room,
    ensures
        s.feed.source != server.rooms.map[room].channel,
{
    assert(server.rooms.has(s.room));
}

/// The room of the user that `line` is a private message for.
pub open spec fn whispers_into(server: ServerView, line: Seq<char>, room: Seq<char>) -> bool {
    command(line) matches CommandView::Tell(text) && addressee(server.users, text) matches Some(
        target,
    ) && server.users.map[target] == room
}

/// Messages never leak across rooms: a line posts nothing but in the room that
/// its client is in before or after it, and, where it is a private message, in
/// the room of the user that it is for.
pub proof fn messages_do_not_leak(
    pre: ServerView,
    s: SessionView,
    line: Seq<char>,
    post: ServerView,
    t: SessionView,
    action: ActionView,
    room: Seq<char>,
)
    requires
        pre.valid(),
        handled(pre, s, line, post, t, action),
        pre.rooms.has(room),
        room != s.room,
        room != t.room,
        !whispers_into(pre, line, room),
    ensures
        post.rooms.map[room] == pre.rooms.map[room],
{
    match command(line) {
        CommandView::Join(to) if acts(pre, s, line) => {
            let _ = lemma_moved(pre, s, to, post, t);
        },
        CommandView::Leave if acts(pre, s, line) => {
            let _ = lemma_moved(pre, s, general(), post, t);
        },
        CommandView::Nick(new) if acts(pre, s, line) => {
            let _ = lemma_renamed(pre, s, new, post, t);
        },
        _ => {},
    }
}

/// Whether exactly one more message reaches the receiver of `s`, namely `m`.
pub open spec fn hears(pre: ServerView, post: ServerView, s: SessionView, m: MessageView) -> bool {
    heard(post, s) == heard(pre, s).push(m)
}

/// Whether exactly one more message reaches the receiver of `s`: a notice that
/// reads `text` in the colour of `style`, on account of `origin`; and they are
/// shown it.
pub open spec fn is_told(
    pre: ServerView,
    post: ServerView,
    s: SessionView,
    origin: Seq<char>,
    text: Seq<char>,
    style: Seq<char>,
) -> bool {
    exists|shown: Seq<char>| #[trigger]
        painted(shown, text, style) && hears(pre, post, s, notice(origin, shown)) && shown_to(
            notice(origin, shown),
            s.name,
        )
}

/// What is added to a room is added to what its listeners hear.
proof fn lemma_heard(pre: ServerView, post: ServerView, s: SessionView, m: MessageView)
    requires
        in_step(pre, s),
        grown(pre, post),
        last_posted(pre, s.room, m, post),
    ensures
        hears(pre, post, s, m),
{
    assert(pre.rooms.has(s.room));
    let before = pre.rooms.map[s.room].posted;
    let after = post.rooms.map[s.room].posted;
    assert(after =~= before.push(m));
    assert(heard(post, s) =~= heard(pre, s).push(m));
}

/// What a client says in public reaches everyone else in the room, who is shown
/// it, and nobody in another room.
pub proof fn public_messages_arrive(
    pre: ServerView,
    s: SessionView,
    line: Seq<char>,
    post: ServerView,
    t: SessionView,
    action: ActionView,
    other: SessionView,
)
    requires
        pre.valid(),
        handled(pre, s, line, post, t, action),
        command(line) is Say,
        in_step(pre, other),
        other.name != s.name,
    ensures
        other.room == s.room ==> {
            let m = remark(s.name, command(line)->Say_0);
            hears(pre, post, other, m) && shown_to(m, other.name)
        },
        other.room != s.room ==> heard(post, other) == heard(pre, other),
{
    lines_are_orderly(pre, s, line, post, t, action);
    if other.room == s.room {
        lemma_heard(pre, post, other, remark(s.name, command(line)->Say_0));
    }
}

/// A private message reaches the user that it is for, whatever room they and its
/// author are in, and they are shown it. Whoever else it reaches, since they are
/// in the same room, is not shown it; nobody in another room is reached.
pub proof fn private_messages_arrive(
    pre: ServerView,
    s: SessionView,
    line: Seq<char>,
    post: ServerView,
    t: SessionView,
    action: ActionView,
    text: Seq<char>,
    target: Seq<char>,
    other: SessionView,
)
    requires
        pre.valid(),
        handled(pre, s, line, post, t, action),
        command(line) == CommandView::Tell(text),
        addressee(pre.users, text) == Some(target),
        in_step(pre, other),
    ensures
        ({
            let m = whisper(s.name, target, trimmed(text.skip(target.len() as int)));
            &&& other.name == target ==> hears(pre, post, other, m)
            &&& other.room == pre.users.map[target] ==> hears(pre, post, other, m)
            &&& other.room != pre.users.map[target] ==> heard(post, other) == heard(pre, other)
            &&& shown_to(m, other.name) <==> other.name == target && target != s.name
        }),
{
    lines_are_orderly(pre, s, line, post, t, action);
    let m = whisper(s.name, target, trimmed(text.skip(target.len() as int)));
    if other.room == pre.users.map[target] {
        lemma_heard(pre, post, other, m);
    }
}

/// A client who goes from one room to another is seen to leave by everyone else
/// in the old room, and to join by everyone else in the new one; nobody in a
/// third room hears of it.
pub proof fn moves_are_told(
    pre: ServerView,
    s: SessionView,
    room: Seq<char>,
    post: ServerView,
    t: SessionView,
    other: SessionView,
)
    requires
        pre.valid(),
        moved(pre, s, room, post, t),
        room != s.room,
        in_step(pre, other),
        other.name != s.name,
    ensures
        other.room == s.room ==> is_told(
            pre,
            post,
            other,
            s.name,
            left_text(s.name, s.room),
            red(),
        ),
        other.room == room ==> is_told(pre, post, other, s.name, joined_text(s.name, room), cyan()),
        other.room != s.room && other.room != room ==> heard(post, other) == heard(pre, other),
{
    let (a, b) = lemma_moved(pre, s, room, post, t);
    if other.room == s.room {
        lemma_heard(pre, post, other, notice(s.name, a));
    }
    if other.room == room {
        lemma_heard(pre, post, other, notice(s.name, b));
    }
}

/// Everyone else in the room is told when a client takes another name; nobody in
/// another room hears of it.
pub proof fn renames_are_told(
    pre: ServerView,
    s: SessionView,
    new: Seq<char>,
    post: ServerView,
    t: SessionView,
    other: SessionView,
)
    requires
        pre.valid(),
        renamed(pre, s, new, post, t),
        in_step(pre, other),
        other.name != new,
    ensures
        other.room == s.room ==> is_told(
            pre,
            post,
            other,
            new,
            renamed_text(s.name, new),
            yellow(),
        ),
        other.room != s.room ==> heard(post, other) == heard(pre, other),
{
    let shown = lemma_renamed(pre, s, new, post, t);
    if other.room == s.room {
        lemma_heard(pre, post, other, notice(new, shown));
    }
}

/// Everyone else in the general room is told of a new client; nobody in another
/// room hears of it.
pub proof fn arrivals_are_told(
    pre: ServerView,
    line: Seq<char>,
    post: ServerView,
    s: SessionView,
    reply: Seq<char>,
    other: SessionView,
)
    requires
        pre.valid(),
        connected(pre, line, post, s, reply),
        in_step(pre, other),
        other.name != s.name,
    ensures
        other.room == general() ==> is_told(
            pre,
            post,
            other,
            s.name,
            joined_text(s.name, general()),
            cyan(),
        ),
        other.room != general() ==> heard(post, other) == heard(pre, other),
{
    let shown = lemma_connected(pre, line, post, s, reply);
    if other.room == general() {
        lemma_heard(pre, post, other, notice(s.name, shown));
    }
}

/// Everyone else in the room is told when a client goes; nobody in another room
/// hears of it.
pub proof fn departures_are_told(
    pre: ServerView,
    s: SessionView,
    post: ServerView,
    other: SessionView,
)
    requires
        pre.valid(),
        disconnected(pre, s, post),
        in_step(pre, other),
        other.name != s.name,
    ensures
        other.room == s.room ==> is_told(pre, post, other, s.name, gone_text(s.name), red()),
        other.room != s.room ==> heard(post, other) == heard(pre, other),
{
    let shown = lemma_disconnected(pre, s, post);
    if other.room == s.room {
        lemma_heard(pre, post, other, notice(s.name, shown));
    }
}

/// A new client hears what is posted from then on, beginning with the notice of
/// their own coming, and nothing from before.
pub proof fn arrivals_hear_from_now_on(
    pre: ServerView,
    line: Seq<char>,
    post: ServerView,
    s: SessionView,
    reply: Seq<char>,
)
    requires
        pre.valid(),
        connected(pre, line, post, s, reply),
    ensures
        heard(post, s).len() == 1,
        !shown_to(heard(post, s)[0], s.name),
{
    let _ = lemma_connected(pre, line, post, s, reply);
}

/// A client who has moved hears what is posted in the new room from then on,
/// beginning with the notice of their own coming, and nothing from before.
pub proof fn movers_hear_from_now_on(
    pre: ServerView,
    s: SessionView,
    room: Seq<char>,
    post: ServerView,
    t: SessionView,
)
    requires
        pre.valid(),
        moved(pre, s, room, post, t),
        room != s.room,
    ensures
        heard(post, t).len() == 1,
        !shown_to(heard(post, t)[0], t.name),
{
    let _ = lemma_moved(pre, s, room, post, t);
}

/// A user who takes another name is listed by it, in the same room; the old name
/// is free; nobody else is affected, and there are as many users as before.
pub proof fn renames_keep_everyone_else(
    pre: ServerView,
    s: SessionView,
    new: Seq<char>,
    post: ServerView,
    t: SessionView,
)
    requires
        pre.valid(),
        renamed(pre, s, new, post, t),
        in_step(pre, s),
        !pre.users.has(new),
    ensures
        post.users.map == pre.users.map.remove(s.name).insert(new, s.room),
        !post.users.has(s.name),
        post.users.order.len() == pre.users.order.len(),
{
    let _ = lemma_renamed(pre, s, new, post, t);
    assert(pre.users.order.contains(s.name));
}

/// When a session has ended its name is free, and nobody else is affected.
pub proof fn departures_free_the_name(pre: ServerView, s: SessionView, post: ServerView)
    requires
        pre.valid(),
        disconnected(pre, s, post),
    ensures
        !post.users.has(s.name),
        post.users.map == pre.users.map.remove(s.name),
{
    let _ = lemma_disconnected(pre, s, post);
}

/// `/list users` names each user in the room once, and nobody else.
pub proof fn residents_are_listed_once(users: Table<Seq<char>>, room: Seq<char>)
    requires
        users.valid(),
    ensures
        residents(users, room).no_duplicates(),
        forall|name: Seq<char>| #[trigger]
            residents(users, room).contains(name) <==> users.has(name) && users.map[name] == room,
{
    lemma_filter(users.order, lives_in(users, room));
    assert forall|name: Seq<char>| #[trigger]
        residents(users, room).contains(name) <==> users.has(name) && users.map[name] == room by {
        assert(users.order.contains(name) <==> users.has(name));
    }
}

/// A selection from a list without repetitions has none, and holds what was
/// selected.
proof fn lemma_filter(list: Seq<Seq<char>>, pred: spec_fn(Seq<char>) -> bool)
    requires
        list.no_duplicates(),
    ensures
        list.filter(pred).no_duplicates(),
        forall|name: Seq<char>| #[trigger]
            list.filter(pred).contains(name) <==> list.contains(name) && pred(name),
    decreases list.len(),
{
    reveal(Seq::filter);
    if list.len() > 0 {
        let rest = list.drop_last();
        let last = list.last();
        lemma_filter(rest, pred);
        assert(!rest.contains(last));
        let picked = rest.filter(pred);
        assert(!picked.contains(last));
        assert(picked.push(last).no_duplicates()) by {
            assert forall|i: int| 0 <= i < picked.len() implies #[trigger] picked[i] != last by {
                assert(picked.contains(picked[i]));
            }
        }
        assert forall|name: Seq<char>| #[trigger]
            list.filter(pred).contains(name) <==> list.contains(name) && pred(name) by {
            assert(list.contains(name) <==> rest.contains(name) || name == last) by {
                if rest.contains(name) {
                    assert(list[rest.index_of(name)] == name);
                }
                if list.contains(name) && name != last {
                    assert(rest[list.index_of(name)] == name);
                }
            }
            if pred(last) {
                assert(picked.push(last).contains(name) <==> picked.contains(name) || name == last)
                    by {
                    if picked.contains(name) {
                        assert(picked.push(last)[picked.index_of(name)] == name);
                    }
                    assert(picked.push(last)[picked.len() as int] == last);
                }
            }
        }
    }
}

/// `/leave` takes a client back to where `/join` took them from, where that was
/// the general room: they are listed there again, by the same name, and listen to
/// its channel. The room that they had joined stays.
pub proof fn leave_undoes_join(
    a: ServerView,
    s: SessionView,
    room: Seq<char>,
    b: ServerView,
    t: SessionView,
    c: ServerView,
    u: SessionView,
)
    requires
        a.valid(),
        in_step(a, s),
        s.room == general(),
        room != general(),
        moved(a, s, room, b, t),
        moved(b, t, general(), c, u),
    ensures
        u.name == s.name,
        u.room == s.room,
        u.feed.source == s.feed.source,
        c.users == a.users,
        c.rooms.has(room),
{
    let _ = lemma_moved(a, s, room, b, t);
    let _ = lemma_moved(b, t, general(), c, u);
    assert(b.rooms.has(general()));
    assert(c.users =~= a.users);
}

/// Whether the names of all users and rooms are free of white space at their ends.
pub open spec fn tidy(server: ServerView) -> bool {
    &&& forall|name: Seq<char>| #[trigger] server.users.has(name) ==> tight(name)
    &&& forall|room: Seq<char>| #[trigger] server.rooms.has(room) ==> tight(room)
}

/// The names stay free of white space at their ends when a client connects.
pub proof fn arrivals_keep_names_tidy(
    pre: ServerView,
    line: Seq<char>,
    post: ServerView,
    s: SessionView,
    reply: Seq<char>,
)
    requires
        pre.valid(),
        connected(pre, line, post, s, reply),
        tidy(pre),
    ensures
        tidy(post),
        tight(s.name),
{
    let _ = lemma_connected(pre, line, post, s, reply);
    trimming_cuts_the_white_ends(line);
    assert forall|name: Seq<char>| #[trigger] post.users.has(name) implies tight(name) by {
        if name != s.name {
            assert(pre.users.has(name));
        }
    }
    assert forall|room: Seq<char>| #[trigger] post.rooms.has(room) implies tight(room) by {
        assert(pre.rooms.has(room));
    }
}

/// The names stay free of white space at their ends, whatever a client sends.
pub proof fn lines_keep_names_tidy(
    pre: ServerView,
    s: SessionView,
    line: Seq<char>,
    post: ServerView,
    t: SessionView,
    action: ActionView,
)
    requires
        pre.valid(),
        handled(pre, s, line, post, t, action),
        tidy(pre),
        tight(s.name),
    ensures
        tidy(post),
        tight(t.name),
{
    arguments_are_tight(line);
    match command(line) {
        CommandView::Join(room) if acts(pre, s, line) => {
            let _ = lemma_moved(pre, s, room, post, t);
        },
        CommandView::Leave if acts(pre, s, line) => {
            let _ = lemma_moved(pre, s, general(), post, t);
        },
        CommandView::Nick(new) if acts(pre, s, line) => {
            let _ = lemma_renamed(pre, s, new, post, t);
        },
        _ => {},
    }
    assert forall|name: Seq<char>| #[trigger] post.users.has(name) implies tight(name) by {
        if name != s.name && name != t.name {
            assert(pre.users.has(name));
        }
    }
    assert forall|room: Seq<char>| #[trigger] post.rooms.has(room) implies tight(room) by {
        if !pre.rooms.has(room) {
            assert(command(line) is Join);
            assert(room == t.room);
        }
    }
}

/// The end of a session keeps every user in a room, and the names free of white
/// space at their ends.
pub proof fn departures_keep_the_tables(pre: ServerView, s: SessionView, post: ServerView)
    requires
        pre.valid(),
        disconnected(pre, s, post),
    ensures
        housed(pre) ==> housed(post),
        tidy(pre) ==> tidy(post),
{
    let _ = lemma_disconnected(pre, s, post);
    assert forall|name: Seq<char>| #[trigger] post.users.has(name) implies pre.users.has(name)
        && post.users.map[name] == pre.users.map[name] by {}
    assert forall|room: Seq<char>| #[trigger] post.rooms.has(room) implies pre.rooms.has(room) by {}
}

/// Whether the server and all sessions agree: each is in step, no two have the
/// same name, and the users that are listed are those of the sessions.
pub open spec fn agreed(server: ServerView, sessions: Seq<SessionView>) -> bool {
    &&& forall|i: int| 0 <= i < sessions.len() ==> in_step(server, #[trigger] sessions[i])
    &&& forall|i: int, j: int|
        0 <= i < sessions.len() && 0 <= j < sessions.len() && i != j ==> (
        #[trigger] sessions[i]).name != (#[trigger] sessions[j]).name
    &&& forall|name: Seq<char>| #[trigger]
        server.users.has(name) ==> exists|i: int|
            0 <= i < sessions.len() && (#[trigger] sessions[i]).name == name
}

/// A server that nobody has connected to agrees with no sessions.
pub proof fn agreement_starts(server: ServerView)
    requires
        server.users == Table::<Seq<char>>::empty(),
    ensures
        agreed(server, Seq::empty()),
{
}

/// A new client with a name of their own keeps the server and the sessions in
/// agreement.
pub proof fn arrivals_keep_agreement(
    pre: ServerView,
    sessions: Seq<SessionView>,
    line: Seq<char>,
    post: ServerView,
    s: SessionView,
    reply: Seq<char>,
)
    requires
        pre.valid(),
        agreed(pre, sessions),
        connected(pre, line, post, s, reply),
        !pre.users.has(trimmed(line)),
    ensures
        agreed(post, sessions.push(s)),
{
    let after = sessions.push(s);
    let _ = lemma_connected(pre, line, post, s, reply);
    sessions_start_in_step(pre, line, post, s, reply);
    assert forall|i: int| 0 <= i < after.len() implies in_step(post, #[trigger] after[i]) by {
        if i < sessions.len() {
            assert(in_step(pre, sessions[i]));
            others_stay_in_step_with_arrivals(pre, line, post, s, reply, sessions[i]);
        }
    }
    assert forall|i: int, j: int| 0 <= i < after.len() && 0 <= j < after.len() && i != j implies (
    #[trigger] after[i]).name != (#[trigger] after[j]).name by {
        if i < sessions.len() {
            assert(in_step(pre, sessions[i]));
        }
        if j < sessions.len() {
            assert(in_step(pre, sessions[j]));
        }
    }
    assert forall|name: Seq<char>| #[trigger] post.users.has(name) implies exists|i: int|
        0 <= i < after.len() && (#[trigger] after[i]).name == name by {
        if name == s.name {
            assert(after[sessions.len() as int].name == name);
        } else {
            assert(pre.users.has(name));
            let i = choose|i: int| 0 <= i < sessions.len() && (#[trigger] sessions[i]).name == name;
            assert(after[i].name == name);
        }
    }
}

/// Whatever one client sends, the server and the sessions stay in agreement.
pub proof fn lines_keep_agreement(
    pre: ServerView,
    sessions: Seq<SessionView>,
    k: int,
    line: Seq<char>,
    post: ServerView,
    t: SessionView,
    action: ActionView,
)
    requires
        pre.valid(),
        agreed(pre, sessions),
        0 <= k < sessions.len(),
        handled(pre, sessions[k], line, post, t, action),
    ensures
        agreed(post, sessions.update(k, t)),
{
    let s = sessions[k];
    let after = sessions.update(k, t);
    assert(in_step(pre, s));
    sessions_stay_in_step(pre, s, line, post, t, action);
    assert forall|i: int| 0 <= i < sessions.len() && i != k implies in_step(
        post,
        #[trigger] sessions[i],
    ) && sessions[i].name != t.name by {
        assert(in_step(pre, sessions[i]));
        others_stay_in_step(pre, s, line, post, t, action, sessions[i]);
    }
    assert forall|i: int| 0 <= i < after.len() implies in_step(post, #[trigger] after[i]) by {
        if i != k {
            assert(after[i] == sessions[i]);
        }
    }
    assert forall|i: int, j: int| 0 <= i < after.len() && 0 <= j < after.len() && i != j implies (
    #[trigger] after[i]).name != (#[trigger] after[j]).name by {
        if i != k {
            assert(after[i] == sessions[i]);
        }
        if j != k {
            assert(after[j] == sessions[j]);
        }
    }
    match command(line) {
        CommandView::Join(room) if acts(pre, s, line) => {
            let _ = lemma_moved(pre, s, room, post, t);
        },
        CommandView::Leave if acts(pre, s, line) => {
            let _ = lemma_moved(pre, s, general(), post, t);
        },
        CommandView::Nick(new) if acts(pre, s, line) => {
            let _ = lemma_renamed(pre, s, new, post, t);
            renames_keep_everyone_else(pre, s, new, post, t);
        },
        _ => {},
    }
    assert forall|name: Seq<char>| #[trigger] post.users.has(name) implies exists|i: int|
        0 <= i < after.len() && (#[trigger] after[i]).name == name by {
        if name == t.name {
            assert(after[k].name == name);
        } else {
            assert(pre.users.has(name));
            let i = choose|i: int| 0 <= i < sessions.len() && (#[trigger] sessions[i]).name == name;
            assert(after[i] == sessions[i]);
        }
    }
}

/// A client who goes leaves the server and the other sessions in agreement.
pub proof fn departures_keep_agreement(
    pre: ServerView,
    sessions: Seq<SessionView>,
    k: int,
    post: ServerView,
)
    requires
        pre.valid(),
        agreed(pre, sessions),
        0 <= k < sessions.len(),
        disconnected(pre, sessions[k], post),
    ensures
        agreed(post, sessions.remove(k)),
{
    let s = sessions[k];
    let after = sessions.remove(k);
    departures_free_the_name(pre, s, post);
    assert forall|i: int| 0 <= i < after.len() implies in_step(post, #[trigger] after[i]) by {
        let j = if i < k { i } else { i + 1 };
        assert(after[i] == sessions[j]);
        assert(in_step(pre, sessions[j]));
        others_stay_in_step_with_departures(pre, s, post, sessions[j]);
    }
    assert forall|i: int, j: int| 0 <= i < after.len() && 0 <= j < after.len() && i != j implies (
    #[trigger] after[i]).name != (#[trigger] after[j]).name by {
        assert(after[i] == sessions[if i < k { i } else { i + 1 }]);
        assert(after[j] == sessions[if j < k { j } else { j + 1 }]);
    }
    assert forall|name: Seq<char>| #[trigger] post.users.has(name) implies exists|i: int|
        0 <= i < after.len() && (#[trigger] after[i]).name == name by {
        assert(pre.users.has(name));
        let i = choose|i: int| 0 <= i < sessions.len() && (#[trigger] sessions[i]).name == name;
        assert(after[if i < k { i } else { i - 1 }].name == name);
    }
}

/// What a user is shown of a message ends with its content, and is a line.
pub proof fn presented_messages_hold_their_content(m: MessageView, name: Seq<char>, line: Seq<char>)
    requires
        presented(m, name, line),
    ensures
        (m.content + "\n"@).is_suffix_of(line),
        holds(line, m.content),
{
    let (prefix, sender): (Seq<char>, Seq<char>) = choose|prefix: Seq<char>, sender: Seq<char>|
        {
            &&& if private_for(m, name) {
                painted(prefix, "[Private] "@, magenta())
            } else {
                prefix == Seq::<char>::empty()
            }
            &&& painted(sender, m.sender, yellow())
            &&& line == #[trigger] rendered(prefix, sender, m.content)
        };
    let head = prefix + "["@ + sender + "]: "@;
    assert(line =~= head + (m.content + "\n"@));
    parts_are_held(head, m.content, "\n"@);
}

} // verus!
