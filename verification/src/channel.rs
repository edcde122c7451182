//! Rooms and the channels that carry their messages.

use crate::directory::{Directory, Table};
use crate::message::{ChatMessage, MessageView};
use tokio::sync::broadcast;
use vstd::prelude::*;

verus! {

/// How many messages the channel of a room is asked to keep for a slow reader.
pub const ROOM_CAPACITY: usize = 100;

/// The sending half of a broadcast channel.
#[verifier::external_type_specification]
#[verifier::external_body]
#[verifier::reject_recursive_types(T)]
pub struct ExSender<T>(broadcast::Sender<T>);

/// A receiving half of a broadcast channel.
#[verifier::external_type_specification]
#[verifier::external_body]
#[verifier::reject_recursive_types(T)]
pub struct ExReceiver<T>(broadcast::Receiver<T>);

/// The messages that were handed to the channel through `tx`, oldest first.
pub uninterp spec fn posted(tx: broadcast::Sender<ChatMessage>) -> Seq<MessageView>;

/// How many messages the channel of `tx` was asked to keep.
pub uninterp spec fn capacity_of(tx: broadcast::Sender<ChatMessage>) -> nat;

/// The channel that `tx` sends to.
pub uninterp spec fn channel_of(tx: broadcast::Sender<ChatMessage>) -> int;

/// The channel that `rx` receives from.
pub uninterp spec fn source_of(rx: broadcast::Receiver<ChatMessage>) -> int;

/// How many messages had been posted when `rx` was made. Those do not reach it;
/// the later ones do, unless it falls behind by more than the channel keeps.
pub uninterp spec fn start_of(rx: broadcast::Receiver<ChatMessage>) -> nat;

/// Opens a channel beside those of `_rooms`.
///
/// Calls `tokio::sync::broadcast::channel`, which makes a new channel that
/// nothing has been sent to, keeping at least `capacity` messages, and its first
/// two halves. No sender that there is already belongs to it, as
/// `Sender::same_channel` would tell; so it is none of the channels of `_rooms`.
/// The call panics where `capacity` is zero or too large to be allocated.
#[verifier::external_body]
fn open_channel(capacity: usize, _rooms: &Directory<Room>) -> (r: (
    broadcast::Sender<ChatMessage>,
    broadcast::Receiver<ChatMessage>,
))
    requires
        0 < capacity <= ROOM_CAPACITY,
    ensures
        posted(r.0) == Seq::<MessageView>::empty(),
        capacity_of(r.0) == capacity,
        source_of(r.1) == channel_of(r.0),
        start_of(r.1) == 0,
        forall|name: Seq<char>| #[trigger]
            _rooms@.has(name) ==> _rooms@.map[name].channel != channel_of(r.0),
{
    broadcast::channel(capacity)
}

/// Hands a message to a channel.
///
/// Calls `tokio::sync::broadcast::Sender::send`, which stores the message behind
/// those before it, for every receiver that there is. Where there is none it
/// gives the message back, which is not an error: nobody is listening. How many
/// receivers there are at that moment is not known here, so nothing is said of
/// what the call returns.
#[verifier::external_body]
fn send(tx: &mut broadcast::Sender<ChatMessage>, msg: ChatMessage)
    ensures
        posted(*final(tx)) == posted(*old(tx)).push(msg@),
        capacity_of(*final(tx)) == capacity_of(*old(tx)),
        channel_of(*final(tx)) == channel_of(*old(tx)),
{
    let _ = tx.send(msg);
}

/// Makes a new receiver of a channel.
///
/// Calls `tokio::sync::broadcast::Sender::subscribe`. The receiver gets the
/// messages sent after the call. The call panics where the channel has a quarter
/// of `usize::MAX` receivers, more than memory has room for.
#[verifier::external_body]
fn listen(tx: &broadcast::Sender<ChatMessage>) -> (rx: broadcast::Receiver<ChatMessage>)
    ensures
        source_of(rx) == channel_of(*tx),
        start_of(rx) == posted(*tx).len(),
{
    tx.subscribe()
}

/// What is known of a [`Room`].
#[verifier::ext_equal]
pub struct RoomView {
    /// The channel that carries its messages.
    pub channel: int,
    /// How many messages the channel was asked to keep.
    pub capacity: nat,
    /// The messages that were posted in the room, oldest first.
    pub posted: Seq<MessageView>,
}

/// What is known of a receiver.
pub struct FeedView {
    /// The channel that it receives from.
    pub source: int,
    /// How many messages had been posted there when it was made.
    pub start: nat,
}

impl RoomView {
    /// Whether this is a room as it is when it is made beside `rooms`: its
    /// channel is its own, and nothing was posted yet.
    pub open spec fn fresh(self, rooms: Table<RoomView>) -> bool {
        &&& self.capacity == ROOM_CAPACITY
        &&& self.posted == Seq::<MessageView>::empty()
        &&& forall|name: Seq<char>| #[trigger]
            rooms.has(name) ==> rooms.map[name].channel != self.channel
    }

    /// The room after `m` was posted in it.
    pub open spec fn posting(self, m: MessageView) -> RoomView {
        RoomView { posted: self.posted.push(m), ..self }
    }

    /// A receiver made at this moment.
    pub open spec fn feed(self) -> FeedView {
        FeedView { source: self.channel, start: self.posted.len() }
    }
}

/// Whether no two rooms share a channel.
pub open spec fn separate(rooms: Table<RoomView>) -> bool {
    forall|a: Seq<char>, b: Seq<char>| #[trigger]
        rooms.has(a) && #[trigger] rooms.has(b) && a != b ==> rooms.map[a].channel
            != rooms.map[b].channel
}

/// What is known of `rx`.
pub open spec fn feed_of(rx: broadcast::Receiver<ChatMessage>) -> FeedView {
    FeedView { source: source_of(rx), start: start_of(rx) }
}

/// A chat room with a channel of its own, so that what is said in one room is not
/// heard in another.
pub struct Room {
    pub tx: broadcast::Sender<ChatMessage>,
}

impl View for Room {
    type V = RoomView;

    open spec fn view(&self) -> RoomView {
        RoomView {
            channel: channel_of(self.tx),
            capacity: capacity_of(self.tx),
            posted: posted(self.tx),
        }
    }
}

impl Room {
    /// A new room, to go beside those that there are. Nobody is in it yet.
    pub fn new(rooms: &Directory<Room>) -> (r: Room)
        ensures
            r@.fresh(rooms@),
            posted(r.tx).len() == 0,
            capacity_of(r.tx) == 100,
            forall|name: Seq<char>| #[trigger]
                rooms@.map.contains_key(name) ==> rooms@.map[name].channel != channel_of(r.tx),
    {
        let (tx, _rx) = open_channel(ROOM_CAPACITY, rooms);
        assert forall|name: Seq<char>| #[trigger]
            rooms@.map.contains_key(name) implies rooms@.map[name].channel != channel_of(tx) by {
            assert(rooms@.has(name));
        }
        Room { tx }
    }

    /// Hands a message to everyone who listens in the room.
    pub fn post(&mut self, msg: ChatMessage)
        ensures
            final(self)@ == old(self)@.posting(msg@),
            posted(final(self).tx) == posted(old(self).tx).push(msg@),
            channel_of(final(self).tx) == channel_of(old(self).tx),
            capacity_of(final(self).tx) == capacity_of(old(self).tx),
    {
        send(&mut self.tx, msg);
    }

    /// Starts to listen in the room.
    pub fn subscribe(&self) -> (rx: broadcast::Receiver<ChatMessage>)
        ensures
            feed_of(rx) == self@.feed(),
            source_of(rx) == channel_of(self.tx),
            start_of(rx) == posted(self.tx).len(),
    {
        listen(&self.tx)
    }
}

} // verus!
