//! Aggregate health of Docker containers on a remote host, reduced to a
//! four-counter tally and rendered for a status bar or an interactive prompt.
//!
//! The library holds the pipeline's logic: validating connection parameters,
//! reducing the captured output of the remote listing command to a tally,
//! and formatting the tally (or a down-state notice) for either output mode.
//! Opening sockets, the remote-shell session itself, and reading the
//! configuration file are left to the surrounding binary.

pub mod config;
pub mod render;
pub mod tally;

pub use config::config_from_fields;
pub use config::Config;
pub use config::ConfigError;
pub use config::ConfigField;
pub use config::Opt;
pub use render::format_for_prompt;
pub use render::format_for_tmux;
pub use render::render_report;
pub use render::server_down_message;
pub use render::Outcome;
pub use tally::tally_states;
pub use tally::LineClass;
