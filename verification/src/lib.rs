pub mod agents;
pub mod app;
pub mod audit;
pub mod audit_history;
pub mod bulk;
pub mod clipboard;
pub mod clock;
pub mod color;
pub mod config;
pub mod db;
pub mod exec;
pub mod health;
pub mod highlight;
pub mod input;
pub mod json;
pub mod keys;
pub mod launchagent;
pub mod laws;
pub mod lines;
pub mod notify;
pub mod order;
pub mod palette;
pub mod pane;
pub mod poll;
pub mod remote;
pub mod search;
pub mod sorting;
pub mod state;
pub mod strings;
pub mod timefmt;
