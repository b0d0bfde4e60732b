//! A client for a line-oriented chat protocol: the decoder of inbound
//! lines, the badge resolver, the handshake, and the decisions of the
//! duplex loop and of the acquisition of the account settings.

pub mod account;
pub mod auth;
pub mod badges;
pub mod clock;
pub mod connection;
pub mod duplex;
pub mod message_interface;
pub mod parser;
pub mod reader;
pub mod store;
pub mod tags;
pub mod text;
pub mod wire;
pub mod writer;
