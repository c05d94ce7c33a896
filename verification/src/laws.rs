//! What the operations of the library are for, stated of their calls: what a
//! result must be, and how the results of several calls relate.

pub mod block_strings;
pub mod client;
pub mod codegen;
pub mod messages;
pub mod subscriptions;
pub mod text;
