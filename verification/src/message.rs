//! Chat messages and who gets to see them.

use crate::text::same;
use vstd::prelude::*;

verus! {

/// A chat message on its way through the channel of a room.
pub struct ChatMessage {
    /// The name shown to those who get the message: a nick-name, or `System`.
    pub sender: String,
    /// The nick-name of the user who caused the message. That user is never
    /// shown it, also where the sender is `System`.
    pub origin: String,
    /// The one user that a private message is for; `None` in a public message.
    pub target: Option<String>,
    /// The body of the message.
    pub content: String,
}

/// What a [`ChatMessage`] says.
pub struct MessageView {
    pub sender: Seq<char>,
    pub origin: Seq<char>,
    pub target: Option<Seq<char>>,
    pub content: Seq<char>,
}

impl View for ChatMessage {
    type V = MessageView;

    open spec fn view(&self) -> MessageView {
        MessageView {
            sender: self.sender@,
            origin: self.origin@,
            target: match self.target {
                Some(name) => Some(name@),
                None => None,
            },
            content: self.content@,
        }
    }
}

impl Clone for ChatMessage {
    /// The same message once more, for another receiver.
    fn clone(&self) -> (m: Self)
        ensures
            m@ == self@,
            m.sender@ == self.sender@,
            m.origin@ == self.origin@,
            m.target is None <==> self.target is None,
            m.target matches Some(name) ==> self.target == Some(name),
            m.content@ == self.content@,
    {
        ChatMessage {
            sender: self.sender.clone(),
            origin: self.origin.clone(),
            target: match &self.target {
                Some(name) => Some(name.clone()),
                None => None,
            },
            content: self.content.clone(),
        }
    }
}

/// A public notice of the server with the given body, caused by `origin`.
pub open spec fn notice(origin: Seq<char>, content: Seq<char>) -> MessageView {
    MessageView { sender: "System"@, origin, target: None, content }
}

/// What `author` says to everyone in a room.
pub open spec fn remark(author: Seq<char>, content: Seq<char>) -> MessageView {
    MessageView { sender: author, origin: author, target: None, content }
}

/// What `author` says to `target` alone.
pub open spec fn whisper(author: Seq<char>, target: Seq<char>, content: Seq<char>) -> MessageView {
    MessageView { sender: author, origin: author, target: Some(target), content }
}

/// Whether `m` is a private message for `name`.
pub open spec fn private_for(m: MessageView, name: Seq<char>) -> bool {
    m.target == Some(name)
}

/// Whether the user called `name` is shown `m`: they did not cause it, and it is
/// public or meant for them.
pub open spec fn shown_to(m: MessageView, name: Seq<char>) -> bool {
    m.origin != name && (m.target is None || private_for(m, name))
}

/// The notice of the server with the body `content`, caused by `origin`.
pub fn system_message(origin: &str, content: String) -> (m: ChatMessage)
    ensures
        m@ == notice(origin@, content@),
        m.sender@ == "System"@,
        m.origin@ == origin@,
        m.target is None,
        m.content@ == content@,
{
    ChatMessage {
        sender: "System".to_string(),
        origin: origin.to_string(),
        target: None,
        content,
    }
}

/// What `author` says to everyone in a room.
pub fn public_message(author: &str, content: &str) -> (m: ChatMessage)
    ensures
        m@ == remark(author@, content@),
        m.sender@ == author@,
        m.origin@ == author@,
        m.target is None,
        m.content@ == content@,
{
    ChatMessage {
        sender: author.to_string(),
        origin: author.to_string(),
        target: None,
        content: content.to_string(),
    }
}

/// What `author` says to `target` alone.
pub fn private_message(author: &str, target: &str, content: &str) -> (m: ChatMessage)
    ensures
        m@ == whisper(author@, target@, content@),
        m.sender@ == author@,
        m.origin@ == author@,
        m.target matches Some(name) && name@ == target@,
        m.content@ == content@,
{
    ChatMessage {
        sender: author.to_string(),
        origin: author.to_string(),
        target: Some(target.to_string()),
        content: content.to_string(),
    }
}

impl ChatMessage {
    /// Tells whether this is a private message for `name`.
    pub fn is_for(&self, name: &str) -> (b: bool)
        ensures
            b == private_for(self@, name@),
            b <==> (self.target matches Some(target) && target@ == name@),
    {
        match &self.target {
            Some(target) => same(target.as_str(), name),
            None => false,
        }
    }

    /// Tells whether the user called `name` is shown this message.
    pub fn is_shown_to(&self, name: &str) -> (b: bool)
        ensures
            b == shown_to(self@, name@),
            b <==> self.origin@ != name@ && (self.target matches Some(target) ==> target@ == name@),
    {
        !same(self.origin.as_str(), name) && (self.target.is_none() || self.is_for(name))
    }
}

} // verus!
