//! Application configuration: the directories the workbench keeps its
//! state in, passed in explicitly by whoever resolved them.

use vstd::prelude::*;
use vstd::string::StringExecFns;

verus! {

/// The resolved per-user directories of the application.
#[allow(non_snake_case)]
#[derive(Debug, Clone)]
pub struct AppConfig {
    pub CONFIG_DIR: String,
    pub DATA_DIR: String,
    pub CACHE_DIR: String,
}

/// Assembles the application configuration from resolved directories.
pub fn app_config(config_dir: String, data_dir: String, cache_dir: String) -> (c: AppConfig)
    ensures
        c.CONFIG_DIR == config_dir,
        c.DATA_DIR == data_dir,
        c.CACHE_DIR == cache_dir,
{
    AppConfig { CONFIG_DIR: config_dir, DATA_DIR: data_dir, CACHE_DIR: cache_dir }
}

impl AppConfig {
    /// The path of the store's single document inside the data directory.
    pub fn projects_file(&self) -> (p: String)
        ensures
            p@ == self.DATA_DIR@ + "/falcon_projects.toml"@,
    {
        self.DATA_DIR.clone().concat("/falcon_projects.toml")
    }
}

} // verus!
