//! honest-irc: identity registry, session encryption, an IRC-like daemon core,
//! music choreographies, post-quantum key material and peer rotation policy.

pub mod clock;
pub mod crypto;
pub mod entropy;
pub mod frozen;
pub mod irc;
pub mod music;
pub mod pqc;
pub mod primitives;
pub mod rate;
pub mod text;

pub use crypto::{route_id, CryptoSession, DisplayName, Identity, NameRegistry};
pub use irc::{Envelope, IrcDaemon, Message, Room};
pub use music::{Choreography, MusicClient, Track};
