//! Template discovery and request-time template routing.
pub mod discovery;
pub mod laws;
pub mod naming;
pub mod registry;
pub mod router;
pub mod server;
pub mod template_server;

pub use naming::{remove_extension, DiscoveryError};
pub use registry::{TemplateEntry, TemplateRegistry};
pub use router::{Resolution, Templated};
pub use server::{TemplateFileServer, TemplateFileServerBuilder};
pub use template_server::{TemplateServer, TemplateServerConfig};
pub use discovery::Discovery;
