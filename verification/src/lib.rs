//! A verified model of the Hindsight agent client: the agent configuration
//! store and its file format, the HTTP requests that each operation sends to
//! the Hindsight API and the way their replies are judged, and the decisions
//! that the command-line front end takes around them.

pub mod json;
pub mod text;
pub mod config;
pub mod config_json;
pub mod api;
pub mod content_dir;
pub mod commands;
