//! The state that all clients share.

use crate::channel::{feed_of, source_of, start_of, Room, RoomView};
use crate::directory::{Directory, Table};
use crate::laws::residents_are_listed_once;
use crate::message::{notice, system_message, ChatMessage, MessageView};
use crate::model::{
    addressed_names_agree, addressee, addressee_is_the_longest, addresses, general, opened,
    opening_keeps_order, posting_keeps_order, residents, texts_are_addressed_by_name_and_space,
    ServerView, GENERAL,
};
use crate::text::{same, starts_with, texts};
use tokio::sync::broadcast;
use vstd::prelude::*;
use vstd::string::*;

verus! {

/// The rooms by their names.
pub type RoomMap = Directory<Room>;

/// The room that each user is in, by their nick-names.
pub type UserMap = Directory<String>;

/// All that the clients share.
pub struct Server {
    rooms: RoomMap,
    users: UserMap,
}

impl View for Server {
    type V = ServerView;

    closed spec fn view(&self) -> ServerView {
        ServerView { rooms: self.rooms@, users: self.users@ }
    }
}

/// Tells whether a text begins with a name and a space.
fn is_addressed_to(text: &str, name: &str) -> (b: bool)
    ensures
        b == addresses(text@, name@),
        b <==> exists|tail: Seq<char>| text@ == #[trigger] (name@ + " "@ + tail),
{
    proof {
        texts_are_addressed_by_name_and_space(text@, name@);
    }
    let n: usize = name.unicode_len();
    n < text.unicode_len() && starts_with(text, name) && text.get_char(n) == ' '
}

impl Server {
    /// A server with the general room and no users.
    pub fn new() -> (r: Server)
        ensures
            r@.valid(),
            r@.rooms.map[general()].fresh(Table::empty()),
            r@.rooms == Table::empty().put(general(), r@.rooms.map[general()]),
            r@.users == Table::<Seq<char>>::empty(),
            r@.users.map == Map::<Seq<char>, Seq<char>>::empty(),
            r@.rooms.map.dom() == set!["#general"@],
            r@.rooms.map["#general"@].posted.len() == 0,
            r@.rooms.map["#general"@].capacity == 100,
    {
        let mut rooms: RoomMap = Directory::new();
        let room = Room::new(&rooms);
        rooms.insert(GENERAL, room);
        Server { rooms, users: Directory::new() }
    }

    /// Hands a message to everyone who listens in a room. Where there is no such
    /// room, the message is dropped.
    pub fn broadcast_to_room(&mut self, room_name: &str, msg: ChatMessage)
        requires
            old(self)@.valid(),
        ensures
            final(self)@ == old(self)@.posting(room_name@, msg@),
            final(self)@.users == old(self)@.users,
            old(self)@.rooms.map.contains_key(room_name@) ==> final(self)@.rooms.map
                == old(self)@.rooms.map.insert(
                room_name@,
                (RoomView {
                    posted: old(self)@.rooms.map[room_name@].posted.push(msg@),
                    ..old(self)@.rooms.map[room_name@]
                }),
            ),
            !old(self)@.rooms.map.contains_key(room_name@) ==> final(self)@ == old(self)@,
            final(self)@.valid(),
    {
        proof {
            posting_keeps_order(self@, room_name@, msg@);
        }
        match self.rooms.get_mut(room_name) {
            Some(room) => {
                room.post(msg);
            },
            None => {},
        }
    }

    /// Says something in a room in the name of the server, on account of `origin`.
    pub fn announce(&mut self, room_name: &str, origin: &str, content: String)
        requires
            old(self)@.valid(),
        ensures
            final(self)@ == old(self)@.posting(room_name@, notice(origin@, content@)),
            final(self)@.users == old(self)@.users,
            old(self)@.rooms.map.contains_key(room_name@) ==> final(self)@.rooms.map
                == old(self)@.rooms.map.insert(
                room_name@,
                (RoomView {
                    posted: old(self)@.rooms.map[room_name@].posted.push(
                        MessageView {
                            sender: "System"@,
                            origin: origin@,
                            target: None,
                            content: content@,
                        },
                    ),
                    ..old(self)@.rooms.map[room_name@]
                }),
            ),
            !old(self)@.rooms.map.contains_key(room_name@) ==> final(self)@ == old(self)@,
            final(self)@.valid(),
    {
        self.broadcast_to_room(room_name, system_message(origin, content));
    }

    /// Makes a room where it is not there yet.
    pub fn open_room(&mut self, room_name: &str)
        requires
            old(self)@.valid(),
        ensures
            opened(old(self)@, room_name@, final(self)@),
            final(self)@.valid(),
            final(self)@.rooms.has(room_name@),
            old(self)@.rooms.map.contains_key(room_name@) ==> final(self)@ == old(self)@,
            !old(self)@.rooms.map.contains_key(room_name@) ==> {
                let room = final(self)@.rooms.map[room_name@];
                &&& final(self)@.rooms.map == old(self)@.rooms.map.insert(room_name@, room)
                &&& room.posted.len() == 0
                &&& room.capacity == 100
                &&& final(self)@.users == old(self)@.users
            },
    {
        let ghost pre = self@;
        if !self.rooms.contains(room_name) {
            let room = Room::new(&self.rooms);
            self.rooms.insert(room_name, room);
        }
        proof {
            opening_keeps_order(pre, room_name@, self@);
        }
    }

    /// Starts to listen in a room.
    pub fn subscribe(&self, room_name: &str) -> (rx: broadcast::Receiver<ChatMessage>)
        requires
            self@.valid(),
            self@.rooms.has(room_name@),
        ensures
            feed_of(rx) == self@.rooms.map[room_name@].feed(),
            source_of(rx) == self@.rooms.map[room_name@].channel,
            start_of(rx) == self@.rooms.map[room_name@].posted.len(),
    {
        self.rooms.get(room_name).unwrap().subscribe()
    }

    /// Lists a user in a room, and in no other.
    pub fn place(&mut self, name: &str, room_name: &str)
        requires
            old(self)@.valid(),
        ensures
            final(self)@ == old(self)@.placing(name@, room_name@),
            final(self)@.users.map == old(self)@.users.map.insert(name@, room_name@),
            final(self)@.rooms == old(self)@.rooms,
            final(self)@.valid(),
    {
        self.users.insert(name, room_name.to_string());
    }

    /// Forgets a user.
    pub fn release(&mut self, name: &str)
        requires
            old(self)@.valid(),
        ensures
            final(self)@ == old(self)@.releasing(name@),
            final(self)@.users.map == old(self)@.users.map.remove(name@),
            final(self)@.rooms == old(self)@.rooms,
            final(self)@.valid(),
    {
        self.users.remove(name);
    }

    /// Tells whether a nick-name is taken.
    pub fn has_user(&self, name: &str) -> (b: bool)
        ensures
            b == self@.users.has(name@),
            b == self@.users.map.contains_key(name@),
    {
        self.users.contains(name)
    }

    /// The names of all rooms.
    pub fn room_names(&self) -> (r: Vec<String>)
        requires
            self@.valid(),
        ensures
            texts(r@) == self@.rooms.order,
            r@.len() == self@.rooms.order.len(),
            forall|i: int| 0 <= i < r@.len() ==> (#[trigger] r@[i])@ == self@.rooms.order[i],
    {
        self.rooms.names()
    }

    /// The names of the users in a room.
    pub fn user_names(&self, room_name: &str) -> (r: Vec<String>)
        requires
            self@.valid(),
        ensures
            texts(r@) == residents(self@.users, room_name@),
            texts(r@).no_duplicates(),
            forall|name: Seq<char>| #[trigger]
                texts(r@).contains(name) <==> self@.users.map.contains_key(name)
                    && self@.users.map[name] == room_name@,
    {
        let mut r: Vec<String> = Vec::new();
        let n: usize = self.users.len();
        let ghost users = self@.users;
        proof {
            reveal(Seq::filter);
            assert(texts(r@) =~= residents(
                Table { order: users.order.take(0), ..users },
                room_name@,
            ));
        }
        for i in 0..n
            invariant
                self@.valid(),
                users == self@.users,
                n == users.order.len(),
                texts(r@) == residents(
                    Table { order: users.order.take(i as int), ..users },
                    room_name@,
                ),
        {
            let (name, room) = self.users.entry(i);
            let ghost before = r@;
            if same(room.as_str(), room_name) {
                r.push(name.to_string());
                assert(texts(r@) =~= texts(before).push(name@));
            }
            proof {
                reveal(Seq::filter);
                assert(users.order.take(i + 1).drop_last() =~= users.order.take(i as int));
            }
        }
        assert(users.order.take(n as int) =~= users.order);
        proof {
            residents_are_listed_once(users, room_name@);
        }
        r
    }

    /// The user that a text is addressed to, and the room that they are in.
    pub fn find_addressee(&self, text: &str) -> (r: Option<(String, String)>)
        requires
            self@.valid(),
        ensures
            r is Some <==> addressee(self@.users, text@) is Some,
            r matches Some(found) ==> addressee(self@.users, text@) == Some(found.0@) && found.1@
                == self@.users.map[found.0@],
            r matches Some(found) ==> {
                &&& self@.users.map.contains_key(found.0@)
                &&& exists|tail: Seq<char>| text@ == #[trigger] (found.0@ + " "@ + tail)
                &&& forall|n: Seq<char>, tail: Seq<char>|
                    self@.users.map.contains_key(n) && text@ == #[trigger] (n + " "@ + tail)
                        ==> n.len() <= found.0@.len()
            },
            r is None ==> forall|n: Seq<char>, tail: Seq<char>|
                self@.users.map.contains_key(n) ==> text@ != #[trigger] (n + " "@ + tail),
    {
        let mut best: Option<(String, String)> = None;
        let mut best_len: usize = 0;
        let n: usize = self.users.len();
        let ghost users = self@.users;
        for i in 0..n
            invariant
                self@.valid(),
                users == self@.users,
                n == users.order.len(),
                best is None ==> forall|j: int|
                    0 <= j < i ==> !addresses(text@, #[trigger] users.order[j]),
                best matches Some(found) ==> {
                    &&& users.has(found.0@)
                    &&& addresses(text@, found.0@)
                    &&& found.1@ == users.map[found.0@]
                    &&& best_len == found.0@.len()
                    &&& forall|j: int|
                        0 <= j < i && addresses(text@, #[trigger] users.order[j])
                            ==> users.order[j].len() <= best_len
                },
        {
            let (name, room) = self.users.entry(i);
            if is_addressed_to(text, name) {
                let len: usize = name.unicode_len();
                if best.is_none() || len > best_len {
                    best = Some((name.to_string(), room.clone()));
                    best_len = len;
                }
            }
        }
        proof {
            addressee_is_the_longest(users, text@);
            assert forall|name: Seq<char>| users.has(name) implies exists|j: int|
                0 <= j < n && #[trigger] users.order[j] == name by {
                assert(users.order.contains(name));
            }
            assert forall|n: Seq<char>, tail: Seq<char>|
                users.map.contains_key(n) && text@ == #[trigger] (n + " "@
                    + tail) implies users.has(n) && addresses(text@, n) by {
                texts_are_addressed_by_name_and_space(text@, n);
            }
            if best is Some {
                texts_are_addressed_by_name_and_space(text@, (best->0).0@);
            }
            if best is Some && addressee(users, text@) is Some {
                let found = best->0;
                addressed_names_agree(text@, found.0@, addressee(users, text@)->0);
            }
        }
        best
    }
}

} // verus!
