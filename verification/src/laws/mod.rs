//! What the operations are for, stated in terms of what goes in and what comes out.

pub mod agent_management;
pub mod audit;
pub mod bridges;
pub mod bulk_operations;
pub mod colors;
pub mod exports;
pub mod health;
pub mod highlighting;
pub mod hosts;
pub mod inventory;
pub mod keys;
pub mod locks;
pub mod naming;
pub mod navigation;
pub mod notifications;
pub mod outcomes;
pub mod requests;
pub mod room;
pub mod schedule;
pub mod session;
pub mod texts;
pub mod writing;
