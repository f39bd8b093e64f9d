//! Secure channels between workers: the decisions, without the input and output and without the
//! cipher.
//!
//! * [`manager`] creates channels on demand and carries messages through them, encrypted.
//! * [`worker`] asks for a channel, sends one message through it and answers messages.
//! * [`node`] reads the arguments of a node that has one of each.
//! * [`protocol`] is the model that the manager is verified against. [`conduct`] says what it and a
//!   worker do with every message, [`laws`] what holds of them as a whole, and [`runs`] what they
//!   make of everything in their queues.

pub mod address;
pub mod channel;
pub mod conduct;
pub mod encoding;
pub mod error;
pub mod laws;
pub mod manager;
pub mod message;
pub mod node;
pub mod protocol;
pub mod runs;
pub mod worker;
