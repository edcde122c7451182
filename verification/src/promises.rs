//! What each operation is for, in plain terms: over the text that goes in, the
//! fields of what comes out, and the words that are written.

use crate::channel::{capacity_of, channel_of, posted, source_of, start_of, Room, RoomView};
use crate::command::{command, Command, CommandView};
use crate::directory::Table;
use crate::laws::{
    lemma_connected, lemma_disconnected, lemma_moved, lemma_renamed, residents_are_listed_once,
};
use crate::message::{notice, private_for, remark, shown_to, whisper, ChatMessage, MessageView};
use crate::model::{
    addressed_names_agree, addressee, addressee_is_the_longest, addresses, connected, disconnected,
    general, handled, moved, opened, received, rendered, residents,
    texts_are_addressed_by_name_and_space, ActionView, ReceivedView, ServerView, SessionView,
};
use crate::paint::{lemma_resumed, magenta, painted, reset, resumed, yellow};
use crate::session::{Action, Received, Session};
use crate::text::{
    begins, decimal, digit, holds, joined, texts, texts_begin_with_what_stands_in_front, trimmed,
    trimmed_back, trimmed_front, white,
};
use vstd::prelude::*;

verus! {

// How text is treated

/// Blank text in front of a text is cut off.
proof fn lemma_blank_front(lead: Seq<char>, rest: Seq<char>)
    requires
        forall|i: int| 0 <= i < lead.len() ==> white(#[trigger] lead[i]),
    ensures
        trimmed_front(lead + rest) == trimmed_front(rest),
    decreases lead.len(),
{
    if lead.len() > 0 {
        let s = lead + rest;
        assert(s[0] == lead[0]);
        assert(s.skip(1) =~= lead.skip(1) + rest);
        assert forall|i: int| 0 <= i < lead.skip(1).len() implies white(
            #[trigger] lead.skip(1)[i],
        ) by {
            assert(lead.skip(1)[i] == lead[i + 1]);
        }
        lemma_blank_front(lead.skip(1), rest);
    } else {
        assert(lead + rest =~= rest);
    }
}

/// Blank text behind a text is cut off.
proof fn lemma_blank_back(rest: Seq<char>, tail: Seq<char>)
    requires
        forall|i: int| 0 <= i < tail.len() ==> white(#[trigger] tail[i]),
    ensures
        trimmed_back(rest + tail) == trimmed_back(rest),
    decreases tail.len(),
{
    if tail.len() > 0 {
        let s = rest + tail;
        assert(s.last() == tail.last());
        assert(s.drop_last() =~= rest + tail.drop_last());
        lemma_blank_back(rest, tail.drop_last());
    } else {
        assert(rest + tail =~= rest);
    }
}

/// Of any text, trimming leaves what stands between the white space at its ends.
pub proof fn trimming_leaves_the_core(lead: Seq<char>, core: Seq<char>, tail: Seq<char>)
    requires
        forall|i: int| 0 <= i < lead.len() ==> white(#[trigger] lead[i]),
        forall|i: int| 0 <= i < tail.len() ==> white(#[trigger] tail[i]),
        core.len() > 0 ==> !white(core[0]) && !white(core.last()),
    ensures
        trimmed(lead + core + tail) == core,
{
    assert(lead + core + tail =~= lead + (core + tail));
    lemma_blank_front(lead, core + tail);
    if core.len() > 0 {
        assert((core + tail)[0] == core[0]);
        lemma_blank_back(core, tail);
    } else {
        lemma_blank_front(tail, Seq::empty());
        assert(tail + Seq::<char>::empty() =~= tail);
        assert(core + tail =~= tail);
    }
}

/// White space is the tabulator, the line breaks, the spaces and the separators.
pub proof fn white_space_is_what_unicode_says(c: char)
    ensures
        white(c) <==> {
            ||| c == '\t' || c == '\n' || c == '\u{b}' || c == '\u{c}' || c == '\r'
            ||| c == ' ' || c == '\u{85}' || c == '\u{a0}' || c == '\u{1680}'
            ||| '\u{2000}' as int <= c as int <= '\u{200a}' as int
            ||| c == '\u{2028}' || c == '\u{2029}' || c == '\u{202f}' || c == '\u{205f}'
            ||| c == '\u{3000}'
        },
{
}

/// A list is written as its parts in order, with the separator between them: one
/// part is written as it is, and a longer list piece by piece.
pub proof fn lists_are_joined_piece_by_piece(
    a: Seq<Seq<char>>,
    b: Seq<Seq<char>>,
    part: Seq<char>,
    sep: Seq<char>,
)
    requires
        a.len() > 0,
        b.len() > 0,
    ensures
        joined(Seq::empty(), sep) == Seq::<char>::empty(),
        joined(seq![part], sep) == part,
        joined(a + b, sep) == joined(a, sep) + sep + joined(b, sep),
    decreases b.len(),
{
    if b.len() == 1 {
        assert((a + b).drop_last() =~= a);
        assert((a + b).last() == b[0]);
    } else {
        lists_are_joined_piece_by_piece(a, b.drop_last(), part, sep);
        assert((a + b).drop_last() =~= a + b.drop_last());
        assert((a + b).last() == b.last());
        assert(joined(a + b, sep) =~= joined(a, sep) + sep + joined(b, sep));
    }
}

/// A list of strings is read as the list of their texts.
pub proof fn texts_are_those_of_the_strings(v: Seq<String>)
    ensures
        texts(v).len() == v.len(),
        forall|i: int| 0 <= i < v.len() ==> #[trigger] texts(v)[i] == v[i]@,
{
}

/// A number is written in decimal digits, the highest first and never a needless
/// zero, and is read back as itself.
pub proof fn numbers_are_read_back(n: nat)
    ensures
        decimal(n).len() > 0,
        forall|i: int|
            0 <= i < decimal(n).len() ==> '0' as int <= #[trigger] decimal(n)[i] as int
                <= '9' as int,
        decimal(n)[0] == '0' ==> decimal(n).len() == 1,
        decimal(n).fold_left(0int, |value: int, c: char| 10 * value + (c as int - '0' as int)) == n,
    decreases n,
{
    let f = |value: int, c: char| 10 * value + (c as int - '0' as int);
    reveal_with_fuel(Seq::fold_left, 3);
    if n >= 10 {
        numbers_are_read_back(n / 10);
        let s = decimal(n / 10);
        assert(decimal(n).drop_last() =~= s);
        assert(decimal(n).last() == digit(n % 10));
        assert(s.fold_left(0int, f) == n / 10);
        if s[0] == '0' {
            assert(s =~= seq!['0']);
            assert(seq!['0'].drop_last() =~= Seq::<char>::empty());
            assert(s.fold_left(0int, f) == 0);
        }
    } else {
        assert(decimal(n).drop_last() =~= Seq::<char>::empty());
        assert(decimal(n).fold_left(0int, f) == f(0, digit(n)));
    }
}

// How a line is read

/// The words that commands start with.
proof fn lemma_words()
    ensures
        "/quit"@ == seq!['/', 'q', 'u', 'i', 't'],
        "/join"@ == seq!['/', 'j', 'o', 'i', 'n'],
        "/leave"@ == seq!['/', 'l', 'e', 'a', 'v', 'e'],
        "/list"@ == seq!['/', 'l', 'i', 's', 't'],
        "/msg"@ == seq!['/', 'm', 's', 'g'],
        "/nick"@ == seq!['/', 'n', 'i', 'c', 'k'],
        "/help"@ == seq!['/', 'h', 'e', 'l', 'p'],
        "rooms"@ == seq!['r', 'o', 'o', 'm', 's'],
        "users"@ == seq!['u', 's', 'e', 'r', 's'],
{
    reveal_strlit("/quit");
    reveal_strlit("/join");
    reveal_strlit("/leave");
    reveal_strlit("/list");
    reveal_strlit("/msg");
    reveal_strlit("/nick");
    reveal_strlit("/help");
    reveal_strlit("rooms");
    reveal_strlit("users");
    assert("/quit"@ =~= seq!['/', 'q', 'u', 'i', 't']);
    assert("/join"@ =~= seq!['/', 'j', 'o', 'i', 'n']);
    assert("/leave"@ =~= seq!['/', 'l', 'e', 'a', 'v', 'e']);
    assert("/list"@ =~= seq!['/', 'l', 'i', 's', 't']);
    assert("/msg"@ =~= seq!['/', 'm', 's', 'g']);
    assert("/nick"@ =~= seq!['/', 'n', 'i', 'c', 'k']);
    assert("/help"@ =~= seq!['/', 'h', 'e', 'l', 'p']);
    assert("rooms"@ =~= seq!['r', 'o', 'o', 'm', 's']);
    assert("users"@ =~= seq!['u', 's', 'e', 'r', 's']);
}

/// A text begins with each word that something was put behind, and with no word
/// that differs from that one.
proof fn lemma_begins(word: Seq<char>, rest: Seq<char>)
    ensures
        begins(word + rest, word),
        (word + rest).skip(word.len() as int) == rest,
{
    assert((word + rest).take(word.len() as int) =~= word);
    assert((word + rest).skip(word.len() as int) =~= rest);
}

/// Text that begins with one of two words that part before both end does not begin
/// with the other.
proof fn lemma_no_other(text: Seq<char>, word: Seq<char>, other: Seq<char>, i: int)
    requires
        begins(text, word),
        0 <= i < word.len(),
        i < other.len(),
        word[i] != other[i],
    ensures
        !begins(text, other),
{
    assert(text.take(word.len() as int)[i] == text[i]);
    if other.len() <= text.len() {
        assert(text.take(other.len() as int)[i] == text[i]);
    }
}

/// A line is empty, and asks for nothing, exactly where nothing is left of it
/// without the white space.
pub proof fn only_empty_lines_ask_for_nothing(line: Seq<char>)
    ensures
        command(line) is Nothing <==> trimmed(line).len() == 0,
{
}

/// A line that begins with the word of a command is that command, and what follows
/// the word, without the white space around it, is what it is about.
pub proof fn commands_are_known_by_their_word(line: Seq<char>, rest: Seq<char>)
    ensures
        trimmed(line) == "/quit"@ + rest ==> command(line) == CommandView::Quit,
        trimmed(line) == "/join"@ + rest ==> command(line) == CommandView::Join(trimmed(rest)),
        trimmed(line) == "/leave"@ + rest ==> command(line) == CommandView::Leave,
        trimmed(line) == "/list"@ + rest && trimmed(rest) == "rooms"@ ==> command(line)
            == CommandView::ListRooms,
        trimmed(line) == "/list"@ + rest && (trimmed(rest) == "users"@ || trimmed(rest).len() == 0)
            ==> command(line) == CommandView::ListUsers,
        trimmed(line) == "/list"@ + rest && trimmed(rest) != "rooms"@ && trimmed(rest) != "users"@
            && trimmed(rest).len() > 0 ==> command(line) == CommandView::ListUnknown,
        trimmed(line) == "/msg"@ + rest ==> command(line) == CommandView::Tell(trimmed(rest)),
        trimmed(line) == "/nick"@ + rest ==> command(line) == CommandView::Nick(trimmed(rest)),
        trimmed(line) == "/help"@ + rest ==> command(line) == CommandView::Help,
{
    lemma_words();
    let text = trimmed(line);
    lemma_begins("/quit"@, rest);
    lemma_begins("/join"@, rest);
    lemma_begins("/leave"@, rest);
    lemma_begins("/list"@, rest);
    lemma_begins("/msg"@, rest);
    lemma_begins("/nick"@, rest);
    lemma_begins("/help"@, rest);
    if begins(text, "/join"@) {
        lemma_no_other(text, "/join"@, "/quit"@, 1);
    }
    if begins(text, "/leave"@) {
        lemma_no_other(text, "/leave"@, "/quit"@, 1);
        lemma_no_other(text, "/leave"@, "/join"@, 1);
    }
    if begins(text, "/list"@) {
        lemma_no_other(text, "/list"@, "/quit"@, 1);
        lemma_no_other(text, "/list"@, "/join"@, 1);
        lemma_no_other(text, "/list"@, "/leave"@, 2);
    }
    if begins(text, "/msg"@) {
        lemma_no_other(text, "/msg"@, "/quit"@, 1);
        lemma_no_other(text, "/msg"@, "/join"@, 1);
        lemma_no_other(text, "/msg"@, "/leave"@, 1);
        lemma_no_other(text, "/msg"@, "/list"@, 1);
    }
    if begins(text, "/nick"@) {
        lemma_no_other(text, "/nick"@, "/quit"@, 1);
        lemma_no_other(text, "/nick"@, "/join"@, 1);
        lemma_no_other(text, "/nick"@, "/leave"@, 1);
        lemma_no_other(text, "/nick"@, "/list"@, 1);
        lemma_no_other(text, "/nick"@, "/msg"@, 1);
    }
    if begins(text, "/help"@) {
        lemma_no_other(text, "/help"@, "/quit"@, 1);
        lemma_no_other(text, "/help"@, "/join"@, 1);
        lemma_no_other(text, "/help"@, "/leave"@, 1);
        lemma_no_other(text, "/help"@, "/list"@, 1);
        lemma_no_other(text, "/help"@, "/msg"@, 1);
        lemma_no_other(text, "/help"@, "/nick"@, 1);
    }
}

/// Every line that is not empty and begins with no command is said as it is,
/// without the white space around it.
pub proof fn everything_else_is_said(line: Seq<char>)
    requires
        trimmed(line).len() > 0,
        forall|rest: Seq<char>| trimmed(line) != #[trigger] ("/quit"@ + rest),
        forall|rest: Seq<char>| trimmed(line) != #[trigger] ("/join"@ + rest),
        forall|rest: Seq<char>| trimmed(line) != #[trigger] ("/leave"@ + rest),
        forall|rest: Seq<char>| trimmed(line) != #[trigger] ("/list"@ + rest),
        forall|rest: Seq<char>| trimmed(line) != #[trigger] ("/msg"@ + rest),
        forall|rest: Seq<char>| trimmed(line) != #[trigger] ("/nick"@ + rest),
        forall|rest: Seq<char>| trimmed(line) != #[trigger] ("/help"@ + rest),
    ensures
        command(line) == CommandView::Say(trimmed(line)),
{
    let text = trimmed(line);
    texts_begin_with_what_stands_in_front(text, "/quit"@);
    texts_begin_with_what_stands_in_front(text, "/join"@);
    texts_begin_with_what_stands_in_front(text, "/leave"@);
    texts_begin_with_what_stands_in_front(text, "/list"@);
    texts_begin_with_what_stands_in_front(text, "/msg"@);
    texts_begin_with_what_stands_in_front(text, "/nick"@);
    texts_begin_with_what_stands_in_front(text, "/help"@);
}

// What a line does

/// What a post comes to.
proof fn lemma_post(pre: ServerView, room: Seq<char>, m: MessageView)
    ensures
        pre.posting(room, m).users == pre.users,
        pre.rooms.map.contains_key(room) ==> pre.posting(room, m).rooms.map
            == pre.rooms.map.insert(
            room,
            (RoomView {
                channel: pre.rooms.map[room].channel,
                capacity: pre.rooms.map[room].capacity,
                posted: pre.rooms.map[room].posted.push(m),
            }),
        ),
        !pre.rooms.map.contains_key(room) ==> pre.posting(room, m) == pre,
{
}

/// An empty line does nothing.
pub proof fn empty_lines_do_nothing(
    pre: ServerView,
    s: SessionView,
    line: Seq<char>,
    post: ServerView,
    t: SessionView,
    action: ActionView,
)
    requires
        handled(pre, s, line, post, t, action),
        trimmed(line).len() == 0,
    ensures
        post == pre,
        t == s,
        action == ActionView::Continue,
{
    only_empty_lines_ask_for_nothing(line);
}

/// Whoever sends `/quit` is disconnected; nothing else changes yet.
pub proof fn quit_ends_the_session(
    pre: ServerView,
    s: SessionView,
    line: Seq<char>,
    rest: Seq<char>,
    post: ServerView,
    t: SessionView,
    action: ActionView,
)
    requires
        handled(pre, s, line, post, t, action),
        trimmed(line) == "/quit"@ + rest,
    ensures
        post == pre,
        t == s,
        action == ActionView::Close,
{
    commands_are_known_by_their_word(line, rest);
}

/// `/join` without a room, or with the room that the user is in, changes nothing
/// and says so.
pub proof fn join_needs_another_room(
    pre: ServerView,
    s: SessionView,
    line: Seq<char>,
    rest: Seq<char>,
    post: ServerView,
    t: SessionView,
    action: ActionView,
)
    requires
        handled(pre, s, line, post, t, action),
        trimmed(line) == "/join"@ + rest,
        trimmed(rest).len() == 0 || trimmed(rest) == s.room,
    ensures
        post == pre,
        t == s,
        trimmed(rest).len() == 0 ==> action == ActionView::Write("Usage: /join <room>\n"@),
        trimmed(rest).len() > 0 ==> action == ActionView::Write(
            "You are already in "@ + s.room + "\n"@,
        ),
{
    commands_are_known_by_their_word(line, rest);
}

/// What a move from one room to another comes to.
proof fn lemma_move(
    pre: ServerView,
    s: SessionView,
    room: Seq<char>,
    post: ServerView,
    t: SessionView,
) -> (shown: (Seq<char>, Seq<char>))
    requires
        pre.valid(),
        moved(pre, s, room, post, t),
        room != s.room,
    ensures
        t.name == s.name,
        t.room == room,
        post.users.map == pre.users.map.insert(s.name, room),
        post.rooms.map.dom() == pre.rooms.map.dom().insert(room),
        painted(shown.0, s.name + " left "@ + s.room, "\u{1b}[31m"@),
        pre.rooms.map.contains_key(s.room) ==> post.rooms.map[s.room] == (RoomView {
            channel: pre.rooms.map[s.room].channel,
            capacity: pre.rooms.map[s.room].capacity,
            posted: pre.rooms.map[s.room].posted.push(
                MessageView {
                    sender: "System"@,
                    origin: s.name,
                    target: None,
                    content: shown.0,
                },
            ),
        }),
        painted(shown.1, s.name + " joined "@ + room, "\u{1b}[36m"@),
        post.rooms.map[room].posted == (if pre.rooms.map.contains_key(room) {
            pre.rooms.map[room].posted
        } else {
            Seq::empty()
        }).push(
            MessageView { sender: "System"@, origin: s.name, target: None, content: shown.1 },
        ),
        pre.rooms.map.contains_key(room) ==> post.rooms.map[room].channel
            == pre.rooms.map[room].channel && post.rooms.map[room].capacity
            == pre.rooms.map[room].capacity,
        !pre.rooms.map.contains_key(room) ==> post.rooms.map[room].capacity == 100,
        forall|q: Seq<char>|
            q != room && #[trigger] pre.rooms.map.contains_key(q) ==> pre.rooms.map[q].channel
                != post.rooms.map[room].channel,
        forall|q: Seq<char>|
            q != s.room && q != room && #[trigger] pre.rooms.map.contains_key(q)
                ==> post.rooms.map[q] == pre.rooms.map[q],
        t.feed.source == post.rooms.map[room].channel,
        t.feed.start + 1 == post.rooms.map[room].posted.len(),
{
    let shown = lemma_moved(pre, s, room, post, t);
    assert forall|q: Seq<char>|
        q != room && #[trigger] pre.rooms.map.contains_key(q) implies pre.rooms.map[q].channel
        != post.rooms.map[room].channel by {
        assert(pre.rooms.has(q));
        assert(post.rooms.has(q) && post.rooms.has(room));
    }
    assert forall|q: Seq<char>|
        q != s.room && q != room && #[trigger] pre.rooms.map.contains_key(
            q,
        ) implies post.rooms.map[q] == pre.rooms.map[q] by {
        assert(pre.rooms.has(q));
    }
    assert(post.rooms.map.dom() =~= pre.rooms.map.dom().insert(room)) by {
        assert forall|q: Seq<char>|
            post.rooms.map.dom().contains(q) <==> pre.rooms.map.dom().insert(room).contains(q) by {
            assert(post.rooms.has(q) <==> pre.rooms.has(q) || q == room);
        }
    }
    if pre.rooms.map.contains_key(s.room) {
        assert(pre.rooms.has(s.room));
        let m = MessageView { sender: "System"@, origin: s.name, target: None, content: shown.0 };
        assert(post.rooms.map[s.room].posted =~= pre.rooms.map[s.room].posted.push(m));
    }
    let m = MessageView { sender: "System"@, origin: s.name, target: None, content: shown.1 };
    if pre.rooms.map.contains_key(room) {
        assert(pre.rooms.has(room));
        assert(post.rooms.map[room].posted =~= pre.rooms.map[room].posted.push(m));
    } else {
        assert(post.rooms.map[room].posted =~= Seq::empty().push(m));
    }
    shown
}

/// `/join` with another room takes the user there, whichever room they are in.
///
/// They keep their name, are listed in that room and in no other, and listen to it
/// from now on. It is made where it was not there yet, with a channel of its own.
/// The old room is told last that they left it, the new one that they joined it,
/// and no other room changes. The two texts that come out are how the notices were
/// printed.
pub proof fn join_takes_the_user_to_the_room(
    pre: ServerView,
    s: SessionView,
    line: Seq<char>,
    rest: Seq<char>,
    room: Seq<char>,
    post: ServerView,
    t: SessionView,
    action: ActionView,
) -> (shown: (Seq<char>, Seq<char>))
    requires
        pre.valid(),
        handled(pre, s, line, post, t, action),
        trimmed(line) == "/join"@ + rest,
        trimmed(rest) == room,
        room.len() > 0,
        room != s.room,
    ensures
        action == ActionView::Write("You are now in "@ + room + "\n"@),
        t.name == s.name,
        t.room == room,
        post.users.map == pre.users.map.insert(s.name, room),
        post.rooms.map.dom() == pre.rooms.map.dom().insert(room),
        painted(shown.0, s.name + " left "@ + s.room, "\u{1b}[31m"@),
        pre.rooms.map.contains_key(s.room) ==> post.rooms.map[s.room] == (RoomView {
            channel: pre.rooms.map[s.room].channel,
            capacity: pre.rooms.map[s.room].capacity,
            posted: pre.rooms.map[s.room].posted.push(
                MessageView {
                    sender: "System"@,
                    origin: s.name,
                    target: None,
                    content: shown.0,
                },
            ),
        }),
        painted(shown.1, s.name + " joined "@ + room, "\u{1b}[36m"@),
        post.rooms.map[room].posted == (if pre.rooms.map.contains_key(room) {
            pre.rooms.map[room].posted
        } else {
            Seq::empty()
        }).push(
            MessageView { sender: "System"@, origin: s.name, target: None, content: shown.1 },
        ),
        pre.rooms.map.contains_key(room) ==> post.rooms.map[room].channel
            == pre.rooms.map[room].channel && post.rooms.map[room].capacity
            == pre.rooms.map[room].capacity,
        !pre.rooms.map.contains_key(room) ==> post.rooms.map[room].capacity == 100,
        forall|q: Seq<char>|
            q != room && #[trigger] pre.rooms.map.contains_key(q) ==> pre.rooms.map[q].channel
                != post.rooms.map[room].channel,
        forall|q: Seq<char>|
            q != s.room && q != room && #[trigger] pre.rooms.map.contains_key(q)
                ==> post.rooms.map[q] == pre.rooms.map[q],
        t.feed.source == post.rooms.map[room].channel,
        t.feed.start + 1 == post.rooms.map[room].posted.len(),
{
    commands_are_known_by_their_word(line, rest);
    lemma_move(pre, s, room, post, t)
}

/// `/leave` in the general room changes nothing and says so.
pub proof fn leave_needs_another_room(
    pre: ServerView,
    s: SessionView,
    line: Seq<char>,
    rest: Seq<char>,
    post: ServerView,
    t: SessionView,
    action: ActionView,
)
    requires
        handled(pre, s, line, post, t, action),
        trimmed(line) == "/leave"@ + rest,
        s.room == "#general"@,
    ensures
        post == pre,
        t == s,
        action == ActionView::Write("You are already in #general\n"@),
{
    commands_are_known_by_their_word(line, rest);
}

/// `/leave` in any other room takes the user back to the general one, as `/join`
/// with its name would, but for the answer.
pub proof fn leave_takes_the_user_back(
    pre: ServerView,
    s: SessionView,
    line: Seq<char>,
    rest: Seq<char>,
    post: ServerView,
    t: SessionView,
    action: ActionView,
) -> (shown: (Seq<char>, Seq<char>))
    requires
        pre.valid(),
        handled(pre, s, line, post, t, action),
        trimmed(line) == "/leave"@ + rest,
        s.room != "#general"@,
    ensures
        action == ActionView::Write("You are back in #general\n"@),
        t.name == s.name,
        t.room == "#general"@,
        post.users.map == pre.users.map.insert(s.name, "#general"@),
        post.rooms.map.dom() == pre.rooms.map.dom(),
        painted(shown.0, s.name + " left "@ + s.room, "\u{1b}[31m"@),
        pre.rooms.map.contains_key(s.room) ==> post.rooms.map[s.room] == (RoomView {
            channel: pre.rooms.map[s.room].channel,
            capacity: pre.rooms.map[s.room].capacity,
            posted: pre.rooms.map[s.room].posted.push(
                MessageView {
                    sender: "System"@,
                    origin: s.name,
                    target: None,
                    content: shown.0,
                },
            ),
        }),
        painted(shown.1, s.name + " joined "@ + "#general"@, "\u{1b}[36m"@),
        post.rooms.map["#general"@] == (RoomView {
            channel: pre.rooms.map["#general"@].channel,
            capacity: pre.rooms.map["#general"@].capacity,
            posted: pre.rooms.map["#general"@].posted.push(
                MessageView {
                    sender: "System"@,
                    origin: s.name,
                    target: None,
                    content: shown.1,
                },
            ),
        }),
        forall|q: Seq<char>|
            q != s.room && q != "#general"@ && #[trigger] pre.rooms.map.contains_key(q)
                ==> post.rooms.map[q] == pre.rooms.map[q],
        t.feed.source == pre.rooms.map["#general"@].channel,
        t.feed.start == pre.rooms.map["#general"@].posted.len(),
{
    commands_are_known_by_their_word(line, rest);
    let shown = lemma_move(pre, s, "#general"@, post, t);
    assert(pre.rooms.has(general()));
    assert(pre.rooms.map.dom().insert("#general"@) =~= pre.rooms.map.dom());
    shown
}

/// `/list rooms` changes nothing. It answers with a list of all rooms, each once.
pub proof fn list_rooms_names_each_room_once(
    pre: ServerView,
    s: SessionView,
    line: Seq<char>,
    rest: Seq<char>,
    post: ServerView,
    t: SessionView,
    action: ActionView,
) -> (list: Seq<Seq<char>>)
    requires
        pre.valid(),
        handled(pre, s, line, post, t, action),
        trimmed(line) == "/list"@ + rest,
        trimmed(rest) == "rooms"@,
    ensures
        post == pre,
        t == s,
        action == ActionView::Write("Rooms: "@ + joined(list, ", "@) + "\n"@),
        list.no_duplicates(),
        forall|room: Seq<char>| #[trigger]
            list.contains(room) <==> pre.rooms.map.contains_key(room),
{
    commands_are_known_by_their_word(line, rest);
    pre.rooms.order
}

/// `/list users`, and `/list` alone, change nothing. They answer with a list of
/// those who are in the room of the user who asks, whichever room that is: each of
/// them once, and nobody else. A user who is listed in that room finds themselves
/// in it.
pub proof fn list_users_names_each_user_of_the_room_once(
    pre: ServerView,
    s: SessionView,
    line: Seq<char>,
    rest: Seq<char>,
    post: ServerView,
    t: SessionView,
    action: ActionView,
) -> (list: Seq<Seq<char>>)
    requires
        pre.valid(),
        handled(pre, s, line, post, t, action),
        trimmed(line) == "/list"@ + rest,
        trimmed(rest) == "users"@ || trimmed(rest).len() == 0,
    ensures
        post == pre,
        t == s,
        action == ActionView::Write(
            "Users in "@ + s.room + ": "@ + joined(list, ", "@) + "\n"@,
        ),
        list.no_duplicates(),
        forall|name: Seq<char>| #[trigger]
            list.contains(name) <==> pre.users.map.contains_key(name) && pre.users.map[name]
                == s.room,
        pre.users.map.contains_key(s.name) && pre.users.map[s.name] == s.room ==> list.contains(
            s.name,
        ),
{
    commands_are_known_by_their_word(line, rest);
    residents_are_listed_once(pre.users, s.room);
    residents(pre.users, s.room)
}

/// `/list` with anything else changes nothing, and is answered with its usage.
pub proof fn list_lists_nothing_else(
    pre: ServerView,
    s: SessionView,
    line: Seq<char>,
    rest: Seq<char>,
    post: ServerView,
    t: SessionView,
    action: ActionView,
)
    requires
        handled(pre, s, line, post, t, action),
        trimmed(line) == "/list"@ + rest,
        trimmed(rest).len() > 0,
        trimmed(rest) != "rooms"@,
        trimmed(rest) != "users"@,
    ensures
        post == pre,
        t == s,
        action == ActionView::Write("Usage: /list users | /list rooms\n"@),
{
    commands_are_known_by_their_word(line, rest);
}

/// `/nick` without a name, or with one that is taken, changes nothing and says so.
pub proof fn nick_needs_a_free_name(
    pre: ServerView,
    s: SessionView,
    line: Seq<char>,
    rest: Seq<char>,
    post: ServerView,
    t: SessionView,
    action: ActionView,
)
    requires
        handled(pre, s, line, post, t, action),
        trimmed(line) == "/nick"@ + rest,
        trimmed(rest).len() == 0 || pre.users.map.contains_key(trimmed(rest)),
    ensures
        post == pre,
        t == s,
        trimmed(rest).len() == 0 ==> action == ActionView::Write("Usage: /nick <new-nick>\n"@),
        trimmed(rest).len() > 0 ==> action == ActionView::Write(
            "Error: '"@ + trimmed(rest) + "' is already taken\n"@,
        ),
{
    commands_are_known_by_their_word(line, rest);
}

/// `/nick` with a free name gives the user that name, whichever room they are in.
///
/// They stay in their room and keep listening to it. The old name is listed no
/// more, the new one is listed in the room, and no other user is touched. The room
/// is told who took which name; no other room changes. The text that comes out is
/// how the notice was printed.
pub proof fn nick_gives_the_user_the_name(
    pre: ServerView,
    s: SessionView,
    line: Seq<char>,
    rest: Seq<char>,
    name: Seq<char>,
    post: ServerView,
    t: SessionView,
    action: ActionView,
) -> (shown: Seq<char>)
    requires
        pre.valid(),
        handled(pre, s, line, post, t, action),
        trimmed(line) == "/nick"@ + rest,
        trimmed(rest) == name,
        name.len() > 0,
        !pre.users.map.contains_key(name),
    ensures
        action == ActionView::Write("You are now known as "@ + name + "\n"@),
        t.name == name,
        t.room == s.room,
        t.feed == s.feed,
        post.users.map == pre.users.map.remove(s.name).insert(name, s.room),
        painted(shown, s.name + " is now known as "@ + name, "\u{1b}[33m"@),
        pre.rooms.map.contains_key(s.room) ==> post.rooms.map == pre.rooms.map.insert(
            s.room,
            (RoomView {
                channel: pre.rooms.map[s.room].channel,
                capacity: pre.rooms.map[s.room].capacity,
                posted: pre.rooms.map[s.room].posted.push(
                    MessageView {
                        sender: "System"@,
                        origin: name,
                        target: None,
                        content: shown,
                    },
                ),
            }),
        ),
        !pre.rooms.map.contains_key(s.room) ==> post.rooms == pre.rooms,
{
    commands_are_known_by_their_word(line, rest);
    let shown = lemma_renamed(pre, s, name, post, t);
    let m = MessageView { sender: "System"@, origin: name, target: None, content: shown };
    lemma_post(pre, s.room, m);
    shown
}

/// When a user takes a free name, every other session that listens in their room
/// hears one message more than before: the notice that tells the old name and the
/// new one. It is shown to everyone there but the user themselves.
pub proof fn nick_is_heard_in_the_room(
    pre: ServerView,
    s: SessionView,
    line: Seq<char>,
    rest: Seq<char>,
    name: Seq<char>,
    post: ServerView,
    t: SessionView,
    action: ActionView,
    other: SessionView,
) -> (m: MessageView)
    requires
        pre.valid(),
        handled(pre, s, line, post, t, action),
        trimmed(line) == "/nick"@ + rest,
        trimmed(rest) == name,
        name.len() > 0,
        !pre.users.map.contains_key(name),
        pre.rooms.map.contains_key(s.room),
        other.room == s.room,
        other.feed.source == pre.rooms.map[s.room].channel,
        other.feed.start <= pre.rooms.map[s.room].posted.len(),
        other.name != name,
    ensures
        other.feed.source == post.rooms.map[other.room].channel,
        post.rooms.map[other.room].posted.skip(other.feed.start as int)
            == pre.rooms.map[other.room].posted.skip(other.feed.start as int).push(m),
        m.sender == "System"@,
        m.origin == name,
        m.target == None::<Seq<char>>,
        painted(m.content, s.name + " is now known as "@ + name, "\u{1b}[33m"@),
        shown_to(m, other.name),
        !shown_to(m, t.name),
{
    let shown = nick_gives_the_user_the_name(pre, s, line, rest, name, post, t, action);
    let m = MessageView { sender: "System"@, origin: name, target: None, content: shown };
    assert(post.rooms.map[other.room].posted.skip(other.feed.start as int)
        =~= pre.rooms.map[other.room].posted.skip(other.feed.start as int).push(m));
    m
}

/// `/help` changes nothing and explains the commands.
pub proof fn help_explains_the_commands(
    pre: ServerView,
    s: SessionView,
    line: Seq<char>,
    rest: Seq<char>,
    post: ServerView,
    t: SessionView,
    action: ActionView,
)
    requires
        handled(pre, s, line, post, t, action),
        trimmed(line) == "/help"@ + rest,
    ensures
        post == pre,
        t == s,
        action == ActionView::Write(
            "Available commands:\n\
    /join <room>        - Join or create a room\n\
    /leave              - Return to #general\n\
    /msg <nick> <text>  - Send a private message\n\
    /nick <new_nick>    - Set a new nick-name\n\
    /list users         - List users in current room\n\
    /list rooms         - List all rooms\n\
    /help               - Show this help\n\
    /quit               - Disconnect\n"@,
        ),
{
    commands_are_known_by_their_word(line, rest);
}

/// Whatever is not a command is said, whole and as it is, in the room that the
/// user is in: one message, from them, for everyone there. Nothing else changes.
pub proof fn what_is_no_command_is_said(
    pre: ServerView,
    s: SessionView,
    line: Seq<char>,
    post: ServerView,
    t: SessionView,
    action: ActionView,
)
    requires
        handled(pre, s, line, post, t, action),
        trimmed(line).len() > 0,
        forall|rest: Seq<char>| trimmed(line) != #[trigger] ("/quit"@ + rest),
        forall|rest: Seq<char>| trimmed(line) != #[trigger] ("/join"@ + rest),
        forall|rest: Seq<char>| trimmed(line) != #[trigger] ("/leave"@ + rest),
        forall|rest: Seq<char>| trimmed(line) != #[trigger] ("/list"@ + rest),
        forall|rest: Seq<char>| trimmed(line) != #[trigger] ("/msg"@ + rest),
        forall|rest: Seq<char>| trimmed(line) != #[trigger] ("/nick"@ + rest),
        forall|rest: Seq<char>| trimmed(line) != #[trigger] ("/help"@ + rest),
    ensures
        action == ActionView::Continue,
        t == s,
        post.users == pre.users,
        pre.rooms.map.contains_key(s.room) ==> post.rooms.map == pre.rooms.map.insert(
            s.room,
            (RoomView {
                channel: pre.rooms.map[s.room].channel,
                capacity: pre.rooms.map[s.room].capacity,
                posted: pre.rooms.map[s.room].posted.push(
                    MessageView {
                        sender: s.name,
                        origin: s.name,
                        target: None,
                        content: trimmed(line),
                    },
                ),
            }),
        ),
        !pre.rooms.map.contains_key(s.room) ==> post == pre,
{
    everything_else_is_said(line);
    let text = trimmed(line);
    let m = MessageView { sender: s.name, origin: s.name, target: None, content: text };
    lemma_post(pre, s.room, m);
}

/// Text with the longest name that fits, a space and more is for the user of that
/// name.
proof fn lemma_longest_addressee(
    users: Table<Seq<char>>,
    text: Seq<char>,
    name: Seq<char>,
    tail: Seq<char>,
)
    requires
        text == name + " "@ + tail,
        users.map.contains_key(name),
        forall|n: Seq<char>, w: Seq<char>|
            users.map.contains_key(n) && text == #[trigger] (n + " "@ + w) ==> n.len()
                <= name.len(),
    ensures
        addressee(users, text) == Some(name),
{
    texts_are_addressed_by_name_and_space(text, name);
    addressee_is_the_longest(users, text);
    assert(users.has(name) && addresses(text, name));
    let target = addressee(users, text)->0;
    texts_are_addressed_by_name_and_space(text, target);
    addressed_names_agree(text, target, name);
}

/// What is left of a text behind the name that it begins with, without the white
/// space around it.
proof fn lemma_content(name: Seq<char>, tail: Seq<char>)
    ensures
        trimmed((name + " "@ + tail).skip(name.len() as int)) == trimmed(tail),
{
    reveal_strlit(" ");
    assert((name + " "@ + tail).skip(name.len() as int) =~= " "@ + tail);
    lemma_blank_front(" "@, tail);
}

/// `/msg` with the name of a user, a space and a text says that text to that user
/// alone: one message in the room that they are in, from the user who sends it,
/// with the whole text but for the white space around it. Where names of several
/// users fit, the longest is meant. Nothing else changes.
pub proof fn msg_tells_the_user_the_whole_text(
    pre: ServerView,
    s: SessionView,
    line: Seq<char>,
    rest: Seq<char>,
    name: Seq<char>,
    tail: Seq<char>,
    post: ServerView,
    t: SessionView,
    action: ActionView,
)
    requires
        handled(pre, s, line, post, t, action),
        trimmed(line) == "/msg"@ + rest,
        trimmed(rest) == name + " "@ + tail,
        pre.users.map.contains_key(name),
        forall|n: Seq<char>, w: Seq<char>|
            pre.users.map.contains_key(n) && trimmed(rest) == #[trigger] (n + " "@ + w)
                ==> n.len() <= name.len(),
    ensures
        action == ActionView::Continue,
        t == s,
        post.users == pre.users,
        pre.rooms.map.contains_key(pre.users.map[name]) ==> post.rooms.map
            == pre.rooms.map.insert(
            pre.users.map[name],
            (RoomView {
                channel: pre.rooms.map[pre.users.map[name]].channel,
                capacity: pre.rooms.map[pre.users.map[name]].capacity,
                posted: pre.rooms.map[pre.users.map[name]].posted.push(
                    MessageView {
                        sender: s.name,
                        origin: s.name,
                        target: Some(name),
                        content: trimmed(tail),
                    },
                ),
            }),
        ),
        !pre.rooms.map.contains_key(pre.users.map[name]) ==> post == pre,
{
    commands_are_known_by_their_word(line, rest);
    lemma_longest_addressee(pre.users, trimmed(rest), name, tail);
    lemma_content(name, tail);
    let content = trimmed(tail);
    let m = MessageView { sender: s.name, origin: s.name, target: Some(name), content };
    lemma_post(pre, pre.users.map[name], m);
}

/// `/msg` that begins with no user's name and a space changes nothing and says so.
pub proof fn msg_needs_a_user(
    pre: ServerView,
    s: SessionView,
    line: Seq<char>,
    rest: Seq<char>,
    post: ServerView,
    t: SessionView,
    action: ActionView,
)
    requires
        handled(pre, s, line, post, t, action),
        trimmed(line) == "/msg"@ + rest,
        forall|n: Seq<char>, w: Seq<char>|
            pre.users.map.contains_key(n) ==> trimmed(rest) != #[trigger] (n + " "@ + w),
    ensures
        post == pre,
        t == s,
        action == ActionView::Write("Error: User not found\n"@),
{
    commands_are_known_by_their_word(line, rest);
    let text = trimmed(rest);
    addressee_is_the_longest(pre.users, text);
    if addressee(pre.users, text) is Some {
        texts_are_addressed_by_name_and_space(text, addressee(pre.users, text)->0);
    }
}

// How a session starts and ends

/// A client who sends a nick-name gets it, without the white space around it. They
/// start in the general room, are listed there and in no other, and listen to it
/// from now on. The room is told, no other room changes, and they are told where
/// they are. The text that comes out is how the notice was printed.
pub proof fn connecting_leads_to_the_general_room(
    pre: ServerView,
    line: Seq<char>,
    post: ServerView,
    s: SessionView,
    reply: Seq<char>,
) -> (shown: Seq<char>)
    requires
        pre.valid(),
        connected(pre, line, post, s, reply),
    ensures
        reply == "You are now in "@ + "#general"@ + "\n"@,
        s.name == trimmed(line),
        s.room == "#general"@,
        pre.rooms.map.contains_key("#general"@),
        s.feed.source == pre.rooms.map["#general"@].channel,
        s.feed.start == pre.rooms.map["#general"@].posted.len(),
        post.users.map == pre.users.map.insert(trimmed(line), "#general"@),
        painted(shown, trimmed(line) + " joined "@ + "#general"@, "\u{1b}[36m"@),
        post.rooms.map == pre.rooms.map.insert(
            "#general"@,
            (RoomView {
                channel: pre.rooms.map["#general"@].channel,
                capacity: pre.rooms.map["#general"@].capacity,
                posted: pre.rooms.map["#general"@].posted.push(
                    MessageView {
                        sender: "System"@,
                        origin: trimmed(line),
                        target: None,
                        content: shown,
                    },
                ),
            }),
        ),
{
    let shown = lemma_connected(pre, line, post, s, reply);
    let m = MessageView { sender: "System"@, origin: s.name, target: None, content: shown };
    lemma_post(pre, "#general"@, m);
    assert(pre.rooms.has(general()));
    shown
}

/// When a session ends the user is listed no more, and nobody else is touched. The
/// room that they were in is told, and no other room changes. The text that comes
/// out is how the notice was printed.
pub proof fn disconnecting_removes_the_user(
    pre: ServerView,
    s: SessionView,
    post: ServerView,
) -> (shown: Seq<char>)
    requires
        pre.valid(),
        disconnected(pre, s, post),
    ensures
        post.users.map == pre.users.map.remove(s.name),
        painted(shown, s.name + " left the chat."@, "\u{1b}[31m"@),
        pre.rooms.map.contains_key(s.room) ==> post.rooms.map == pre.rooms.map.insert(
            s.room,
            (RoomView {
                channel: pre.rooms.map[s.room].channel,
                capacity: pre.rooms.map[s.room].capacity,
                posted: pre.rooms.map[s.room].posted.push(
                    MessageView {
                        sender: "System"@,
                        origin: s.name,
                        target: None,
                        content: shown,
                    },
                ),
            }),
        ),
        !pre.rooms.map.contains_key(s.room) ==> post.rooms == pre.rooms,
{
    let shown = lemma_disconnected(pre, s, post);
    let m = MessageView { sender: "System"@, origin: s.name, target: None, content: shown };
    lemma_post(pre, s.room, m);
    shown
}

// What a client is shown

/// A message that a user did not cause, and that is for everyone or for them, is
/// written to them whole: the name of its sender in brackets, then its content. A
/// private one is marked as such. Any other message is passed over. The two texts
/// that come out are how the mark and the sender were printed.
pub proof fn messages_are_written_whole(
    name: Seq<char>,
    m: MessageView,
    action: ActionView,
) -> (shown: (Seq<char>, Seq<char>))
    requires
        received(name, ReceivedView::Message(m), action),
    ensures
        m.origin == name ==> action == ActionView::Continue,
        m.target is Some && m.target != Some(name) ==> action == ActionView::Continue,
        m.origin != name && m.target is None ==> action == ActionView::Write(
            "["@ + shown.1 + "]: "@ + m.content + "\n"@,
        ),
        m.origin != name && m.target == Some(name) ==> action == ActionView::Write(
            shown.0 + "["@ + shown.1 + "]: "@ + m.content + "\n"@,
        ),
        painted(shown.0, "[Private] "@, "\u{1b}[35m"@),
        painted(shown.1, m.sender, "\u{1b}[33m"@),
{
    if shown_to(m, name) {
        let line = action->Write_0;
        let (prefix, sender): (Seq<char>, Seq<char>) = choose|prefix: Seq<char>, sender: Seq<char>|
            {
                &&& if private_for(m, name) {
                    painted(prefix, "[Private] "@, magenta())
                } else {
                    prefix == Seq::<char>::empty()
                }
                &&& painted(sender, m.sender, yellow())
                &&& line == #[trigger] rendered(prefix, sender, m.content)
            };
        if m.target is None {
            assert(line =~= "["@ + sender + "]: "@ + m.content + "\n"@);
            ("[Private] "@, sender)
        } else {
            (prefix, sender)
        }
    } else {
        ("[Private] "@, m.sender)
    }
}

/// A client who did not keep up is told how many messages they missed, and one
/// whose channel is gone is disconnected.
pub proof fn losses_are_told(name: Seq<char>, n: nat, lagged: ActionView, closed: ActionView)
    requires
        received(name, ReceivedView::Lagged(n), lagged),
        received(name, ReceivedView::Closed, closed),
    ensures
        lagged == ActionView::Write("--- You missed "@ + decimal(n) + " messages ---\n"@),
        closed == ActionView::Close,
{
}

/// Text that holds no reset is printed as a whole: as it is, or between the start
/// of the colour and a reset, or before a reset alone.
pub proof fn plain_text_is_coloured_as_a_whole(
    shown: Seq<char>,
    text: Seq<char>,
    style: Seq<char>,
)
    requires
        painted(shown, text, style),
        forall|a: Seq<char>, b: Seq<char>| text != #[trigger] (a + "\u{1b}[0m"@ + b),
    ensures
        shown == text || shown == style + text + "\u{1b}[0m"@ || shown == text + "\u{1b}[0m"@,
{
    if holds(text, reset()) {
        let i = choose|i: int|
            0 <= i <= text.len() - reset().len() && #[trigger] text.subrange(i, i + reset().len())
                == reset();
        let a = text.take(i);
        let b = text.skip(i + reset().len());
        assert(text =~= a + text.subrange(i, i + reset().len()) + b);
        assert(text == a + "\u{1b}[0m"@ + b);
    }
    lemma_resumed(text, style);
}

/// Coloured text is the text itself, or the text with its colour started before it
/// and after each reset inside it, with a reset behind it. Where the setting
/// changes meanwhile one of the starts may be missing, or both; the reset behind is
/// there as soon as any start is.
pub proof fn text_is_coloured_or_not(shown: Seq<char>, text: Seq<char>, style: Seq<char>)
    requires
        painted(shown, text, style),
    ensures
        exists|start: Seq<char>, body: Seq<char>, end: Seq<char>|
            {
                &&& shown == #[trigger] (start + body + end)
                &&& start == style || start.len() == 0
                &&& body == text || body == resumed(text, style)
                &&& end == "\u{1b}[0m"@ || (end.len() == 0 && start.len() == 0 && body == text)
            },
{
    let none = Seq::<char>::empty();
    assert(none + text + none =~= text);
    assert(none + text + reset() =~= text + reset());
    assert(none + resumed(text, style) + reset() =~= resumed(text, style) + reset());
}

/// A colour is taken up again right behind each reset inside the text, and
/// everything else of the text is kept.
pub proof fn colours_are_taken_up_again(c: char, text: Seq<char>, style: Seq<char>)
    ensures
        resumed(Seq::empty(), style) == Seq::<char>::empty(),
        resumed("\u{1b}[0m"@ + text, style) == "\u{1b}[0m"@ + style + resumed(text, style),
        (forall|rest: Seq<char>| seq![c] + text != #[trigger] ("\u{1b}[0m"@ + rest)) ==> resumed(
            seq![c] + text,
            style,
        ) == seq![c] + resumed(text, style),
{
    reveal_strlit("\u{1b}[0m");
    let ended = "\u{1b}[0m"@ + text;
    assert(ended.take(4) =~= reset());
    assert(ended.skip(4) =~= text);
    let more = seq![c] + text;
    assert(more.skip(1) =~= text);
    if more.len() >= 4 && more.take(4) == reset() {
        assert(more =~= "\u{1b}[0m"@ + more.skip(4));
    }
}

// What the parts of the model stand for

/// A notice of the server is from `System`, on account of its origin and for
/// everyone.
pub proof fn notices_say_what_they_are_given(origin: Seq<char>, content: Seq<char>)
    ensures
        notice(origin, content).sender == "System"@,
        notice(origin, content).origin == origin,
        notice(origin, content).target == None::<Seq<char>>,
        notice(origin, content).content == content,
{
}

/// A public message is from its author, for everyone, and has the whole content.
pub proof fn remarks_say_what_they_are_given(author: Seq<char>, content: Seq<char>)
    ensures
        remark(author, content).sender == author,
        remark(author, content).origin == author,
        remark(author, content).target == None::<Seq<char>>,
        remark(author, content).content == content,
{
}

/// A private message is from its author, for its target, and has the whole
/// content.
pub proof fn whispers_say_what_they_are_given(
    author: Seq<char>,
    target: Seq<char>,
    content: Seq<char>,
)
    ensures
        whisper(author, target, content).sender == author,
        whisper(author, target, content).origin == author,
        whisper(author, target, content).target == Some(target),
        whisper(author, target, content).content == content,
{
}

/// A message is shown to a user exactly where they did not cause it and it is for
/// everyone or for them.
pub proof fn messages_are_shown_to_those_they_are_for(m: MessageView, name: Seq<char>)
    ensures
        private_for(m, name) <==> m.target == Some(name),
        shown_to(m, name) <==> m.origin != name && (m.target == None::<Seq<char>> || m.target
            == Some(name)),
{
}

/// What is put in a table is found there, and everything else stays as it was. A
/// new name is listed behind the others.
pub proof fn tables_hold_what_is_put_in<T>(table: Table<T>, name: Seq<char>, value: T)
    requires
        table.valid(),
    ensures
        table.put(name, value).map == table.map.insert(name, value),
        table.map.contains_key(name) ==> table.put(name, value).order == table.order,
        !table.map.contains_key(name) ==> table.put(name, value).order == table.order.push(name),
        table.put(name, value).valid(),
{
    table.put_keeps_order(name, value);
}

/// What is taken out of a table is not found there any more, and everything else
/// stays as it was, in the order that it had.
pub proof fn tables_lose_what_is_taken_out<T>(
    table: Table<T>,
    before: Seq<Seq<char>>,
    name: Seq<char>,
    behind: Seq<Seq<char>>,
)
    requires
        table.valid(),
    ensures
        table.without(name).map == table.map.remove(name),
        table.order == before + seq![name] + behind ==> table.without(name).order == before
            + behind,
        !table.map.contains_key(name) ==> table.without(name).order == table.order,
        table.without(name).valid(),
{
    table.without_keeps_order(name);
    if table.order == before + seq![name] + behind {
        let i: int = before.len() as int;
        assert(table.order[i] == name);
        assert(table.order.contains(name));
        let k = table.order.index_of(name);
        assert(table.order[k] == name);
        assert(k == i);
        assert(table.order.remove(i) =~= before + behind);
    }
}

/// A table is in order where its list names each of its names once, and no other.
pub proof fn tables_list_each_name_once<T>(table: Table<T>)
    ensures
        table.valid() <==> {
            &&& forall|i: int, j: int|
                0 <= i < j < table.order.len() ==> table.order[i] != table.order[j]
            &&& forall|name: Seq<char>| #[trigger]
                table.order.contains(name) <==> table.map.contains_key(name)
        },
{
}

/// A server is in order where its tables are, the general room is there, and no
/// two rooms share a channel.
pub proof fn servers_are_in_order(server: ServerView)
    ensures
        server.valid() <==> {
            &&& server.rooms.valid()
            &&& server.users.valid()
            &&& server.rooms.map.contains_key("#general"@)
            &&& forall|a: Seq<char>, b: Seq<char>| #[trigger]
                server.rooms.map.contains_key(a) && #[trigger] server.rooms.map.contains_key(b) && a
                    != b ==> server.rooms.map[a].channel != server.rooms.map[b].channel
        },
{
    if server.valid() {
        assert forall|a: Seq<char>, b: Seq<char>| #[trigger]
            server.rooms.map.contains_key(a) && #[trigger] server.rooms.map.contains_key(b) && a
                != b implies server.rooms.map[a].channel != server.rooms.map[b].channel by {
            assert(server.rooms.has(a) && server.rooms.has(b));
        }
    }
}

/// To post adds one message behind those of one room, to place a user lists them
/// in one room, to release them takes them off the list, and none of these does
/// anything else.
pub proof fn servers_change_where_they_are_told_to(
    server: ServerView,
    name: Seq<char>,
    room: Seq<char>,
    m: MessageView,
)
    ensures
        server.placing(name, room).users.map == server.users.map.insert(name, room),
        server.placing(name, room).rooms == server.rooms,
        server.releasing(name).users.map == server.users.map.remove(name),
        server.releasing(name).rooms == server.rooms,
        server.posting(room, m).users == server.users,
        server.rooms.map.contains_key(room) ==> server.posting(room, m).rooms.map
            == server.rooms.map.insert(
            room,
            (RoomView {
                channel: server.rooms.map[room].channel,
                capacity: server.rooms.map[room].capacity,
                posted: server.rooms.map[room].posted.push(m),
            }),
        ),
        !server.rooms.map.contains_key(room) ==> server.posting(room, m) == server,
{
    lemma_post(server, room, m);
}

/// A new room keeps as many messages as the others, nothing was posted in it, and
/// its channel is none of theirs; a receiver made in a room gets what is posted in
/// it afterwards.
pub proof fn rooms_start_empty(room: RoomView, rooms: Table<RoomView>)
    ensures
        room.fresh(rooms) <==> {
            &&& room.capacity == 100
            &&& room.posted.len() == 0
            &&& forall|q: Seq<char>| #[trigger]
                rooms.map.contains_key(q) ==> rooms.map[q].channel != room.channel
        },
        room.feed().source == room.channel,
        room.feed().start == room.posted.len(),
{
    if room.fresh(rooms) {
        assert forall|q: Seq<char>| #[trigger]
            rooms.map.contains_key(q) implies rooms.map[q].channel != room.channel by {
            assert(rooms.has(q));
        }
    }
    if room.posted.len() == 0 {
        assert(room.posted =~= Seq::empty());
    }
}

/// To make a room that is there changes nothing; another one comes to the rooms
/// that there are, empty and with a channel of its own.
pub proof fn rooms_are_made_once(pre: ServerView, room: Seq<char>, post: ServerView)
    requires
        opened(pre, room, post),
    ensures
        pre.rooms.map.contains_key(room) ==> post == pre,
        post.users == pre.users,
        !pre.rooms.map.contains_key(room) ==> {
            &&& post.rooms.map == pre.rooms.map.insert(room, post.rooms.map[room])
            &&& post.rooms.order == pre.rooms.order.push(room)
            &&& post.rooms.map[room].capacity == 100
            &&& post.rooms.map[room].posted.len() == 0
            &&& forall|q: Seq<char>| #[trigger]
                pre.rooms.map.contains_key(q) ==> pre.rooms.map[q].channel
                    != post.rooms.map[room].channel
        },
{
    if !pre.rooms.map.contains_key(room) {
        assert forall|q: Seq<char>| #[trigger]
            pre.rooms.map.contains_key(q) implies pre.rooms.map[q].channel
            != post.rooms.map[room].channel by {
            assert(pre.rooms.has(q));
        }
    }
}

// What the views show

/// The view of a message shows each of its parts.
pub proof fn messages_are_viewed_as_they_are(m: ChatMessage)
    ensures
        m@.sender == m.sender@,
        m@.origin == m.origin@,
        m.target is None <==> m@.target is None,
        m.target matches Some(name) ==> m@.target == Some(name@),
        m@.content == m.content@,
{
}

/// The view of a session shows each of its parts.
pub proof fn sessions_are_viewed_as_they_are(s: Session)
    ensures
        s@.name == s.username@,
        s@.room == s.current_room@,
        s@.feed.source == source_of(s.rx),
        s@.feed.start == start_of(s.rx),
{
}

/// The view of an action shows what is to be done.
pub proof fn actions_are_viewed_as_they_are(action: Action)
    ensures
        action is Continue <==> action@ == ActionView::Continue,
        action matches Action::Write(text) ==> action@ == ActionView::Write(text@),
        action is Close <==> action@ == ActionView::Close,
{
}

/// The view of an event shows what came.
pub proof fn events_are_viewed_as_they_are(event: Received)
    ensures
        event matches Received::Message(m) ==> event@ == ReceivedView::Message(m@),
        event matches Received::Lagged(n) ==> event@ == ReceivedView::Lagged(n as nat),
        event is Closed ==> event@ == ReceivedView::Closed,
{
}

/// The view of a command shows what it asks for.
pub proof fn commands_are_viewed_as_they_are(c: Command)
    ensures
        c is Nothing ==> c@ == CommandView::Nothing,
        c is Quit ==> c@ == CommandView::Quit,
        c matches Command::Join(room) ==> c@ == CommandView::Join(room@),
        c is Leave ==> c@ == CommandView::Leave,
        c is ListRooms ==> c@ == CommandView::ListRooms,
        c is ListUsers ==> c@ == CommandView::ListUsers,
        c is ListUnknown ==> c@ == CommandView::ListUnknown,
        c matches Command::Tell(text) ==> c@ == CommandView::Tell(text@),
        c matches Command::Nick(name) ==> c@ == CommandView::Nick(name@),
        c is Help ==> c@ == CommandView::Help,
        c matches Command::Say(text) ==> c@ == CommandView::Say(text@),
{
}

/// The view of a room shows its channel and what was posted there.
pub proof fn rooms_are_viewed_as_they_are(room: Room)
    ensures
        room@.channel == channel_of(room.tx),
        room@.capacity == capacity_of(room.tx),
        room@.posted == posted(room.tx),
{
}

} // verus!
