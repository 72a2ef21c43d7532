//! Netplay for a four-player rollback session.
//!
//! * [`peers`] keeps the books on N input streams: what is known, what was
//!   guessed, and when a guess turned out wrong.
//! * [`netcode`] runs a session frame by frame. [`session`] is the picture of a
//!   session that its contracts speak of, and [`packet`], [`keys`], [`budget`],
//!   [`timesync`] and [`desync`] hold its parts.
//! * [`mesh`] finds direct paths between the players, and [`dispatch`] gets a
//!   packet to everyone, directly or through the relay.
//! * [`peers_laws`], [`session_laws`] and [`mesh_laws`] state what holds over
//!   several calls, and [`arrival_laws`] and [`frame_laws`] what one packet and
//!   one frame do to a session.
//! * [`clock`], [`words`] and [`text`] are for moments, little-endian words and
//!   decimal numbers.
pub mod arrival_laws;
pub mod budget;
pub mod clock;
pub mod desync;
pub mod dispatch;
pub mod frame_laws;
pub mod keys;
pub mod mesh;
pub mod mesh_laws;
pub mod netcode;
pub mod packet;
pub mod peers;
pub mod peers_laws;
pub mod session;
pub mod session_laws;
pub mod text;
pub mod timesync;
pub mod words;
