//! Decision logic of a voice-chat music bot: a supervisor that leases names
//! and identities to per-channel agents, and the playback state machine each
//! agent runs.
//!
//! Everything here is pure: connections, the audio pipeline and the file
//! system are driven by the caller, which feeds observations in and carries
//! the returned effects out.

pub mod text;
pub mod bbcode;
pub mod duration;
pub mod track;
pub mod playlist;
pub mod command;
pub mod volume;
pub mod pool;
pub mod music;
pub mod local;
pub mod master;
pub mod player;
pub mod channels;
pub mod resolver;
pub mod front_end;
