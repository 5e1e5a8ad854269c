//! Backend-agnostic GPU resource and pipeline management: layout reflection,
//! a registry of resource handles and metadata, and content-keyed caches for
//! bind groups and render pipelines, so that equivalent descriptions reuse
//! rather than duplicate GPU objects.

pub mod assignments;
pub mod binding;
pub mod context;
pub mod layout;
pub mod pipeline;
pub mod resource;
pub mod shader;
pub mod state;
pub mod vertex;
