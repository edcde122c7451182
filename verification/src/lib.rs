//! The core of Rusty-Chat, a multi-room chat server.
//!
//! A [`Server`] holds what all clients share: the rooms, each with a broadcast
//! channel of its own, and the room that each user is in. A [`Session`] belongs to
//! one client. It starts with the line in which they give their nick-name, handles
//! the lines that they send and the messages that reach them, and ends when they
//! go. Each of these steps changes the server and the session, and says what to
//! write to the client; reading and writing are left to the caller.
//!
//! What each step does is stated in [`model`]. What follows for the server as a
//! whole is proved in [`laws`]: that messages stay in their room, that a private
//! message is shown to one user only, that nobody is shown what they said
//! themselves, that rooms persist, and that sessions and server stay in agreement.
//! What a client can count on, command by command, is proved in [`promises`], in
//! terms of what was sent, what the tables and rooms hold and what is answered.
//!
//! | Command | What it does |
//! |---------|--------------|
//! | `/join <room>` | Join or create a room |
//! | `/leave` | Return to `#general` |
//! | `/msg <nick> <text>` | Send a private message (a nick-name may hold spaces) |
//! | `/nick <new-nick>` | Take another nick-name |
//! | `/list users` | List the users in the room |
//! | `/list rooms` | List all rooms |
//! | `/help` | Show the commands |
//! | `/quit` | Disconnect |

pub mod channel;
pub mod command;
pub mod directory;
pub mod laws;
pub mod message;
pub mod model;
pub mod paint;
pub mod promises;
pub mod server;
pub mod session;
pub mod text;

pub use channel::Room;
pub use message::ChatMessage;
pub use server::{RoomMap, Server, UserMap};
pub use session::{greeting, Action, Received, Session};
