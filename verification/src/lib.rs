//! Client-side core of a line-delimited JSON control protocol for a media
//! player: request framing, response correlation and classification, and
//! the release discipline of the connection that carries them.

pub mod command;
pub mod connection;
pub mod errors;
pub mod protocol;
pub mod text;
