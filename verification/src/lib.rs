//! Core pipeline of a DAG-based distributed ledger node: the tangle store and
//! its traversal primitive, the request/dedup subsystem, the milestone
//! solidification state machine, and the white-flag confirmation engine.


pub mod api;
pub mod dashboard;
pub mod dtos;
pub mod event;
pub mod hexutil;
pub mod ledger;
pub mod ledger_types;
pub mod message;
pub mod output;
pub mod payload;
pub mod packet;
pub mod random;
pub mod requester;
pub mod solidifier;
pub mod traversal;
pub mod tangle;
pub mod types;
