//! Verified core of a markdown-backed todo and notes manager.
pub mod api_config;
pub mod api_error;
pub mod api_url;
pub mod auth;
pub mod content;
pub mod editor;
pub mod editor_model;
pub mod journal;
pub mod journal_model;
pub mod keys;
pub mod listing;
pub mod mailer;
pub mod screen;
pub mod store_config;
pub mod store_rules;
pub mod text;
pub mod tui;
pub mod tui_model;
pub mod validate;
