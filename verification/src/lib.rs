//! Plugin installation core: spec-string parsing, download-URL resolution and
//! the decision logic of the retrying, progress-reporting installer.

pub mod address;
pub mod config;
pub mod fetch;
pub mod install;
pub mod path;
pub mod plugin;
pub mod progress;
pub mod provider;
pub mod repo;
pub mod text;

pub use config::Config;
pub use path::expand_path;
pub use plugin::{ArchivePlugin, Plugin, PluginParseError};
pub use provider::{GitProvider, GitProviderParseError};
pub use repo::{GitRepo, GitRepoParseError};
pub use text::split_on_pattern;
