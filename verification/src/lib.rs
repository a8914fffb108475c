//! Xodus brings games from Microsoft's store to other systems: it keeps the credentials that its
//! services ask for, talks to local clients, keeps installed games up to date and starts them.
//!
//! - `connection`: frames of messages, and which handler a connection goes to.
//! - `shared_key`, `signing`, `soap`: derived keys, signed requests and encrypted answers.
//! - `tokens`: what is kept of the device and its user, and for how long.
//! - `xbox`: the sign-in of a user to Xbox services.
//! - `package`, `segments`, `streaming`, `progress`: where packages come from, what of them has to
//!   be fetched, and how far that has come.
//! - `game_config`, `launch`: which executable a game has, and how it is started.
//! - `names`, `text`, `time`: what the others are built from.
//!
//! Nothing here reads a file, a socket or a terminal. Where a decision follows on something that
//! happened outside, a function takes the event and returns the action.

pub mod connection;
pub mod game_config;
pub mod launch;
pub mod names;
pub mod package;
pub mod progress;
pub mod segments;
pub mod shared_key;
pub mod signing;
pub mod soap;
pub mod streaming;
pub mod text;
pub mod time;
pub mod tokens;
pub mod xbox;
