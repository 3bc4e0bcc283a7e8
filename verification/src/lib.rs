//! Walks the management hierarchy below one user of an organizational
//! directory and writes it out as flat rows, one per user.
//!
//! The library holds every decision of that walk and none of its waiting:
//! which query to send, how an answer is read, in which order users are
//! visited, and what each row says. Sending a query is left to the caller.

pub mod client;
pub mod limiter;
pub mod order;
pub mod page;
pub mod row;
pub mod selector;
pub mod text;
pub mod traversal;
pub mod user;
