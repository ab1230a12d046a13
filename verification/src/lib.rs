//! Core of a ticket-sales backend: event inventory, a purchase ledger with a
//! payment state machine, the purchase service that orchestrates them under
//! ownership checks, bearer-credential verification, and the payload framing
//! for payment notifications. HTTP plumbing and message-broker I/O live in the
//! surrounding application; everything here is verified.

pub mod auth;
pub mod books;
pub mod clock;
pub mod error;
pub mod inventory;
pub mod laws;
pub mod ledger;
pub mod model;
pub mod notify;
pub mod rooms;
pub mod service;
