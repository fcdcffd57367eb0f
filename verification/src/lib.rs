//! iPXE OS definitions and script templates: checking a definition against
//! its template, hashing it, and rendering it to a boot script.

pub mod text;
pub mod model;
pub mod entries;
pub mod digest;
pub mod script;
pub mod validation;
pub mod renderer;
pub mod laws;
pub mod properties;
pub mod operating_system;
pub mod listing;

pub use model::{
    ArtifactCacheStrategy, IpxeOs, IpxeOsArtifact, IpxeOsError, IpxeOsParameter,
    IpxeScriptTemplate, OsScope,
};
pub use renderer::{DefaultIpxeOsRenderer, IpxeOsRenderer};
