//! What a client can ask for, and how a line is read.

use crate::text::{
    after, begins, same, starts_with, tight, trim, trimmed, trimming_cuts_the_white_ends,
    trimming_twice_is_trimming_once,
};
use vstd::prelude::*;
use vstd::string::*;

verus! {

/// A line that a client sent, understood.
pub enum Command {
    /// The line is empty.
    Nothing,
    /// `/quit`: disconnect.
    Quit,
    /// `/join <room>`: go to a room.
    Join(String),
    /// `/leave`: go back to the general room.
    Leave,
    /// `/list rooms`: name the rooms.
    ListRooms,
    /// `/list` or `/list users`: name the users in the room.
    ListUsers,
    /// `/list` with anything else.
    ListUnknown,
    /// `/msg <nick> <text>`: say something to one user. What follows the command
    /// is not split yet, since a nick-name may hold spaces.
    Tell(String),
    /// `/nick <new-nick>`: take another nick-name.
    Nick(String),
    /// `/help`: explain the commands.
    Help,
    /// Anything else is said to the room.
    Say(String),
}

/// What a [`Command`] asks for.
pub enum CommandView {
    Nothing,
    Quit,
    Join(Seq<char>),
    Leave,
    ListRooms,
    ListUsers,
    ListUnknown,
    Tell(Seq<char>),
    Nick(Seq<char>),
    Help,
    Say(Seq<char>),
}

impl View for Command {
    type V = CommandView;

    open spec fn view(&self) -> CommandView {
        match self {
            Command::Nothing => CommandView::Nothing,
            Command::Quit => CommandView::Quit,
            Command::Join(room) => CommandView::Join(room@),
            Command::Leave => CommandView::Leave,
            Command::ListRooms => CommandView::ListRooms,
            Command::ListUsers => CommandView::ListUsers,
            Command::ListUnknown => CommandView::ListUnknown,
            Command::Tell(text) => CommandView::Tell(text@),
            Command::Nick(name) => CommandView::Nick(name@),
            Command::Help => CommandView::Help,
            Command::Say(text) => CommandView::Say(text@),
        }
    }
}

/// What follows `prefix` in `input`, without the white space around it.
pub open spec fn argument(input: Seq<char>, prefix: Seq<char>) -> Seq<char> {
    trimmed(input.skip(prefix.len() as int))
}

/// What `/list` asks for with the argument `arg`.
pub open spec fn listing(arg: Seq<char>) -> CommandView {
    if arg == "rooms"@ {
        CommandView::ListRooms
    } else if arg == "users"@ || arg.len() == 0 {
        CommandView::ListUsers
    } else {
        CommandView::ListUnknown
    }
}

/// The command that a client gives by `line`. The first of these prefixes that
/// the line begins with decides, whatever follows it.
pub open spec fn command(line: Seq<char>) -> CommandView {
    let input = trimmed(line);
    if input.len() == 0 {
        CommandView::Nothing
    } else if begins(input, "/quit"@) {
        CommandView::Quit
    } else if begins(input, "/join"@) {
        CommandView::Join(argument(input, "/join"@))
    } else if begins(input, "/leave"@) {
        CommandView::Leave
    } else if begins(input, "/list"@) {
        listing(argument(input, "/list"@))
    } else if begins(input, "/msg"@) {
        CommandView::Tell(argument(input, "/msg"@))
    } else if begins(input, "/nick"@) {
        CommandView::Nick(argument(input, "/nick"@))
    } else if begins(input, "/help"@) {
        CommandView::Help
    } else {
        CommandView::Say(input)
    }
}

/// What follows `prefix` in `input`, without the white space around it.
fn argument_of(input: &str, prefix: &str) -> (r: String)
    requires
        begins(input@, prefix@),
    ensures
        r@ == argument(input@, prefix@),
{
    trim(after(input, prefix.unicode_len())).to_string()
}

/// Reads a line.
pub fn parse(line: &str) -> (c: Command)
    ensures
        c@ == command(line@),
{
    let input = trim(line);
    if input.is_empty() {
        Command::Nothing
    } else if starts_with(input, "/quit") {
        Command::Quit
    } else if starts_with(input, "/join") {
        Command::Join(argument_of(input, "/join"))
    } else if starts_with(input, "/leave") {
        Command::Leave
    } else if starts_with(input, "/list") {
        let arg = argument_of(input, "/list");
        if same(arg.as_str(), "rooms") {
            Command::ListRooms
        } else if same(arg.as_str(), "users") || arg.as_str().is_empty() {
            Command::ListUsers
        } else {
            Command::ListUnknown
        }
    } else if starts_with(input, "/msg") {
        Command::Tell(argument_of(input, "/msg"))
    } else if starts_with(input, "/nick") {
        Command::Nick(argument_of(input, "/nick"))
    } else if starts_with(input, "/help") {
        Command::Help
    } else {
        Command::Say(input.to_string())
    }
}

/// White space around a line makes no difference.
pub proof fn white_space_around_a_line_is_ignored(line: Seq<char>)
    ensures
        command(trimmed(line)) == command(line),
{
    trimming_twice_is_trimming_once(line);
}

/// What a command carries has no white space around it, and what is said to a
/// room is not empty.
pub proof fn arguments_are_tight(line: Seq<char>)
    ensures
        command(line) matches CommandView::Join(room) ==> tight(room),
        command(line) matches CommandView::Tell(text) ==> tight(text),
        command(line) matches CommandView::Nick(name) ==> tight(name),
        command(line) matches CommandView::Say(text) ==> tight(text) && text.len() > 0,
{
    let input = trimmed(line);
    trimming_cuts_the_white_ends(line);
    trimming_cuts_the_white_ends(input.skip("/join"@.len() as int));
    trimming_cuts_the_white_ends(input.skip("/msg"@.len() as int));
    trimming_cuts_the_white_ends(input.skip("/nick"@.len() as int));
}

} // verus!
