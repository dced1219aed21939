//! The decisions of a session server, as verified functions on plain values.
//!
//! A server of this kind mostly waits: for a model, a tool, a file, a human, a
//! socket. Nothing here waits. Every function takes what came of the waiting and
//! says what is to be done next, and its contract says so on every input that it
//! takes.

pub mod acp;
pub mod audio;
pub mod count;
pub mod editor;
pub mod frames;
pub mod host;
pub mod json;
pub mod message;
pub mod outside;
pub mod persistence;
pub mod policy;
pub mod rehearsal;
pub mod residency;
pub mod rpc;
pub mod scripted;
pub mod speech;
pub mod state;
pub mod table;
pub mod terminals;
pub mod text;
pub mod title;
pub mod turn;
pub mod turn_loop;
pub mod voice;
