//! The decisions, texts and parsers of `ghwf`, a driver that takes a GitHub
//! issue through a fixed sequence of phases. Everything that reads or sends
//! stays with the program; what it decides and writes is here, with contracts.

pub mod access;
pub mod attach;
pub mod clone;
pub mod collect_garbage;
pub mod config;
pub mod config_schema;
pub mod convert;
pub mod git;
pub mod github;
pub mod implement;
pub mod init;
pub mod install;
pub mod json;
pub mod labels;
pub mod launch;
pub mod laws;
pub mod models;
pub mod next;
pub mod notification_hook;
pub mod onboarding;
pub mod options;
pub mod plan_cleanup;
pub mod posting;
pub mod prep;
pub mod priority_labels;
pub mod record;
pub mod render;
pub mod resync;
pub mod run;
pub mod seen;
pub mod session_binding;
pub mod state;
pub mod stop_hook;
pub mod store;
pub mod target;
pub mod text;
pub mod threads;
pub mod toml_doc;
pub mod wait;
pub mod work_on;
pub mod workflow;
