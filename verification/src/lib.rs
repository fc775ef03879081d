//! A node of a peer-to-peer network in which every peer keeps a collection of
//! book reviews, some private and some shared.
//!
//! Peers find each other on the local network and talk over one broadcast
//! channel. A peer asks for reviews with a request and is answered with a
//! response that holds the public reviews of the peer that answers.
//!
//! - [`model`]: the records and the two messages.
//! - [`store`]: what creating, publishing and deleting do to a collection.
//! - [`protocol`]: which messages a peer shows, which it answers, and with
//!   what.
//! - [`discovery`]: which peers the broadcast channel forwards to.
//! - [`command`]: the lines an operator may enter.
//! - [`event_loop`]: what one turn of the node's loop does.
//! - [`text`]: the text functions the commands are read with.
//!
//! The library decides; it reads no file and sends nothing. Its caller reads
//! the collection, hands it over, and writes back what it gets.

pub mod command;
pub mod discovery;
pub mod event_loop;
pub mod model;
pub mod protocol;
pub mod store;
pub mod text;
