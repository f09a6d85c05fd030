//! The authority for durable relay identity, tombstones and generations.
//!
//! A store holds the rows that a transaction has read. Its operations change them as the
//! transaction is to change the database; the program around it reads the rows before and
//! writes the changes after.

pub mod admission;
pub mod alerts;
pub mod challenges;
pub mod credentials;
pub mod duties;
pub mod effects;
pub mod identity;
pub mod laws;
pub mod model;
pub mod outbox;
pub mod transparency;
pub mod tunnels;
pub mod witness;
