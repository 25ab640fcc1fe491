use vstd::prelude::*;

use std::sync::Arc;

use crate::naming::DiscoveryError;
use crate::registry::TemplateRegistry;
use crate::router::{resolve_in, resolve_segments_in, resolves_segments_to, resolves_to, Resolution};

verus! {

/// A request handler that answers paths with the templates of a registry and
/// declines the others.
#[derive(Clone)]
pub struct TemplateFileServer {
    /// Place of the handler in the chain: lower ranks are tried first.
    pub rank: isize,
    /// Whether the root path stands for the `index` template.
    pub use_index_files: bool,
    /// The registry looked up, shared with every other reader.
    pub template_registry: Option<Arc<TemplateRegistry>>,
    /// A directory placed in front of every identifier before lookup.
    pub custom_template_page_sub_root: Option<String>,
    /// The directory of static files served beside the templates, for naming only.
    pub public_root: String,
}

/// The sub-root of a server, as a sequence.
pub open spec fn sub_root_view(s: Option<String>) -> Option<Seq<char>> {
    match s {
        Some(r) => Some(r@),
        None => None,
    }
}

impl TemplateFileServer {
    /// The registry, if any, is well formed.
    pub open spec fn wf(&self) -> bool {
        match self.template_registry {
            Some(reg) => reg.wf(),
            None => true,
        }
    }

    /// A builder that starts from the default configuration.
    pub fn builder() -> (r: TemplateFileServerBuilder)
        ensures
            r.0.wf(),
            r.0.is_default(),
    {
        TemplateFileServerBuilder(TemplateFileServer::default())
    }

    /// The default configuration: rank 10, no index files, no registry, no
    /// sub-root, static files under `public`.
    pub open spec fn is_default(&self) -> bool {
        &&& self.rank == 10
        &&& !self.use_index_files
        &&& self.template_registry is None
        &&& self.custom_template_page_sub_root is None
        &&& self.public_root@ == seq!['p', 'u', 'b', 'l', 'i', 'c']
    }

    /// Resolves a request path. Without a registry every decodable path declines.
    pub fn resolve(&self, path: &str) -> (r: Resolution)
        requires
            self.wf(),
        ensures
            match self.template_registry {
                Some(reg) => resolves_to(
                    r,
                    reg@,
                    self.use_index_files,
                    sub_root_view(self.custom_template_page_sub_root),
                    path@,
                ),
                None => resolves_to(
                    r,
                    Map::empty(),
                    self.use_index_files,
                    sub_root_view(self.custom_template_page_sub_root),
                    path@,
                ),
            },
    {
        match &self.template_registry {
            Some(reg) => resolve_in(
                reg,
                self.use_index_files,
                &self.custom_template_page_sub_root,
                path,
            ),
            None => {
                let empty = TemplateRegistry::new();
                resolve_in(
                    &empty,
                    self.use_index_files,
                    &self.custom_template_page_sub_root,
                    path,
                )
            },
        }
    }
}

impl TemplateFileServer {
    /// Resolves request segments that the HTTP layer has already percent-decoded.
    pub fn resolve_segments(&self, segs: &Vec<String>) -> (r: Resolution)
        requires
            self.wf(),
        ensures
            match self.template_registry {
                Some(reg) => resolves_segments_to(
                    r,
                    reg@,
                    self.use_index_files,
                    sub_root_view(self.custom_template_page_sub_root),
                    segs@.map_values(|s: String| s@),
                ),
                None => resolves_segments_to(
                    r,
                    Map::empty(),
                    self.use_index_files,
                    sub_root_view(self.custom_template_page_sub_root),
                    segs@.map_values(|s: String| s@),
                ),
            },
    {
        match &self.template_registry {
            Some(reg) => resolve_segments_in(
                reg,
                self.use_index_files,
                &self.custom_template_page_sub_root,
                segs,
            ),
            None => {
                let empty = TemplateRegistry::new();
                resolve_segments_in(
                    &empty,
                    self.use_index_files,
                    &self.custom_template_page_sub_root,
                    segs,
                )
            },
        }
    }
}

impl Default for TemplateFileServer {
    fn default() -> (r: TemplateFileServer)
        ensures
            r.wf(),
            r.is_default(),
    {
        proof {
            reveal_strlit("public");
            assert("public"@ =~= seq!['p', 'u', 'b', 'l', 'i', 'c']);
        }
        TemplateFileServer {
            rank: 10,
            use_index_files: false,
            template_registry: None,
            custom_template_page_sub_root: None,
            public_root: String::from_str("public"),
        }
    }
}

/// Gathers the configuration of a [`TemplateFileServer`] one setting at a time.
pub struct TemplateFileServerBuilder(pub TemplateFileServer);

impl TemplateFileServerBuilder {
    pub fn rank(self, rank: isize) -> (r: Self)
        ensures
            r.0 == (TemplateFileServer { rank, ..self.0 }),
    {
        let mut s = self;
        s.0.rank = rank;
        s
    }

    pub fn use_index_files(self, use_index_files: bool) -> (r: Self)
        ensures
            r.0 == (TemplateFileServer { use_index_files, ..self.0 }),
    {
        let mut s = self;
        s.0.use_index_files = use_index_files;
        s
    }

    pub fn template_registry(self, template_registry: Arc<TemplateRegistry>) -> (r: Self)
        ensures
            r.0 == (TemplateFileServer { template_registry: Some(template_registry), ..self.0 }),
    {
        let mut s = self;
        s.0.template_registry = Some(template_registry);
        s
    }

    pub fn template_page_root(self, template_page_root: Option<String>) -> (r: Self)
        ensures
            r.0 == (TemplateFileServer {
                custom_template_page_sub_root: template_page_root,
                ..self.0
            }),
    {
        let mut s = self;
        s.0.custom_template_page_sub_root = template_page_root;
        s
    }

    pub fn public_root(self, public_root: String) -> (r: Self)
        ensures
            r.0 == (TemplateFileServer { public_root, ..self.0 }),
    {
        let mut s = self;
        s.0.public_root = public_root;
        s
    }

    /// Builds the registry of the files found under the template root (paths
    /// relative to it, `/` between components) and uses it.
    pub fn generate_template_registry(self, files: &Vec<String>) -> (r: Result<Self, DiscoveryError>)
        ensures
            match r {
                Ok(b) => match b.0.template_registry {
                    Some(reg) => reg.wf() && crate::registry::all_named(
                        files@.map_values(|f: String| f@),
                    ) && reg@ == crate::registry::registry_of(files@.map_values(|f: String| f@))
                        && b.0 == (TemplateFileServer { template_registry: Some(reg), ..self.0 }),
                    None => false,
                },
                Err(e) => !crate::registry::all_named(files@.map_values(|f: String| f@))
                    && e is MalformedTemplateName,
            },
    {
        match TemplateRegistry::from_files(files) {
            Ok(reg) => Ok(self.template_registry(Arc::new(reg))),
            Err(e) => Err(e),
        }
    }

    pub fn build(self) -> (r: TemplateFileServer)
        ensures
            r == self.0,
    {
        self.0
    }
}

} // verus!
