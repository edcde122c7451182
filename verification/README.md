# Rusty-Chat

A multi-room TCP chat server whose behaviour is stated in contracts and proved
with [Verus](https://github.com/verus-lang/verus).

- Rooms are made on the fly and persist. Everyone starts in `#general`.
- Messages are public, to the room, or private, to one user in whatever room.
- Nick-names can be changed during a session, and may hold spaces.

## Commands

| Command | What it does |
|---------|--------------|
| `/join <room>` | Join or create a room |
| `/leave` | Return to `#general` |
| `/msg <nick> <text>` | Send a private message |
| `/nick <new-nick>` | Take another nick-name |
| `/list users` | List the users in the room |
| `/list rooms` | List all rooms |
| `/help` | Show the commands |
| `/quit` | Disconnect |

Anything else is said to the room. Empty lines are ignored.

## Layout

| Path | What it holds |
|------|---------------|
| `src/model.rs` | What each event makes of the server and of a session |
| `src/laws.rs` | What follows for the server as a whole, proved |
| `src/session.rs` | One client, from the nick-name to the end |
| `src/server.rs` | The rooms and users that all clients share |
| `src/command.rs` | How a line is read |
| `src/message.rs` | Messages, and who is shown them |
| `src/channel.rs` | Rooms and their broadcast channels (`tokio`) |
| `src/paint.rs` | Coloured text (`colored`) |
| `src/directory.rs` | Tables from names to values |
| `src/text.rs` | Operations on text |
| `app/main.rs` | The program: sockets, tasks, the lock around the server |
| `tests/` | Conversations and single steps |

What is not proved is what `tokio` and `colored` do. Each call into them stands in
a small function of `src/channel.rs` or `src/paint.rs`, whose contract says what is
relied on.
