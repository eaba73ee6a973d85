//! The state machine behind the screens.

pub mod agent_dialog;
pub mod agents_screen;
pub mod audit_screen;
pub mod background;
pub mod bulk_dialog;
pub mod bulk_screen;
pub mod completion;
pub mod composer;
pub mod dispatch;
pub mod display;
pub mod drafts;
pub mod effects;
pub mod event_loop;
pub mod filter_screen;
pub mod filters;
pub mod health_screen;
pub mod laws;
pub mod model;
pub mod notices;
pub mod plan;
pub mod reset_targets;
pub mod room;
pub mod room_actions;
pub mod room_keys;
pub mod room_load;
pub mod room_search;
pub mod status;
pub mod supply;
pub mod views;
pub mod writing;
