//! What a batch run is configured with.

use crate::path::{expand_path, expand_tilde};
use crate::plugin::Plugin;
use vstd::prelude::*;

verus! {

/// The directory that plugins are installed into, and the plugins to install
/// there, in the order in which they were listed.
#[derive(Clone, Debug, PartialEq, Eq)]
pub struct Config {
    pub plugin_dir: String,
    pub plugins: Vec<Plugin>,
}

impl Config {
    /// Replaces a leading `~` of the plugin directory by `home_dir`. The
    /// plugins stay as they are.
    pub fn expand_plugin_dir(&mut self, home_dir: &str)
        ensures
            final(self).plugin_dir@ == expand_tilde(old(self).plugin_dir@, home_dir@),
            final(self).plugins == old(self).plugins,
    {
        let expanded = expand_path(self.plugin_dir.as_str(), home_dir);
        self.plugin_dir = expanded;
    }
}

} // verus!
