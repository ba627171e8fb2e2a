//! Verified core of `ragent`: the session control model (facts, projections and
//! commit planning), the command line grammar, hook protocol rules and
//! dispatch decisions, the agent loop's decisions, configuration resolution,
//! and the logic of the bundled extensions.

pub mod ids;
pub mod item;
pub mod json;
pub mod json_text;
pub mod time;
pub mod activation;
pub mod event;
pub mod text;
pub mod batch;
pub mod session;
pub mod projection;
pub mod store;
pub mod cli;
pub mod cli_laws;
pub mod context;
pub mod agent_context;
pub mod error;
pub mod request;
pub mod hooks;
pub mod agent_core;
pub mod hook_manager;
pub mod dispatch_order;
pub mod ext_config;
pub mod agent_event;
pub mod runner;
pub mod agent_loop;
pub mod image_view;
pub mod file_edit;
pub mod config;
pub mod config_load;
pub mod session_files;
pub mod canonical;
pub mod canonical_order;
pub mod config_revision;
pub mod cli_support;
