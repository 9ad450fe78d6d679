//! Window-manager decision logic, verified.
pub mod autostart;
pub mod config;
pub mod dialog;
pub mod event_hooks;
pub mod focus;
pub mod geometry;
pub mod gestures;
pub mod ghosts;
pub mod hook_thread;
pub mod inspect;
pub mod ipc_security;
pub mod mouse_hook;
pub mod policies;
pub mod state;
pub mod text;
pub mod transitions;
pub mod ui_sync;
pub mod update_check;
pub mod wheel;
pub mod window_identity;
pub mod window_rules;
