use vstd::prelude::*;

use crate::naming::DiscoveryError;
use crate::registry::{all_named, registry_of, TemplateRegistry};

verus! {

/// Settings of the template server.
pub struct TemplateServerConfig {
    /// Whether the root path stands for the `index` template.
    pub use_index_files: bool,
}

impl Default for TemplateServerConfig {
    fn default() -> (r: TemplateServerConfig)
        ensures
            !r.use_index_files,
    {
        TemplateServerConfig { use_index_files: false }
    }
}

/// A template server that resolves requests through a request guard, with
/// no index files and no sub-root.
pub struct TemplateServer;

impl TemplateServer {
    /// The registry of every file found under the template root.
    pub fn registry_from_files(files: &Vec<String>) -> (r: Result<TemplateRegistry, DiscoveryError>)
        ensures
            match r {
                Ok(reg) => reg.wf() && all_named(files@.map_values(|f: String| f@)) && reg@
                    == registry_of(files@.map_values(|f: String| f@)),
                Err(e) => !all_named(files@.map_values(|f: String| f@))
                    && e is MalformedTemplateName,
            },
    {
        TemplateRegistry::from_files(files)
    }
}

} // verus!
