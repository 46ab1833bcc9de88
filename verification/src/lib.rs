//! Pipeline-compilation and hot-reload core of a real-time GPU renderer.
//!
//! The library turns declarative pipeline descriptors plus a shader source
//! path into stable handles to compiled pipeline objects, deduplicates
//! structurally identical descriptors so the same pipeline is never built
//! twice, and re-materializes every pipeline built from a file when that
//! file changes, without invalidating any handle already held elsewhere.
//!
//! The GPU backend itself (module compilation and pipeline materialization)
//! is an external collaborator: callers hand the arena closures that perform
//! those steps, and every contract states what holds for whatever those
//! closures return.

pub mod descriptor;
pub mod handle;
pub mod info;
pub mod material;
pub mod mesh;
pub mod pipeline;
pub mod state;

pub use descriptor::{ComputePipelineDescriptor, RenderPipelineDescriptor, VertexState};
pub use handle::{ComputeHandle, RenderHandle, TaggedHandle};
pub use material::MaterialId;
pub use mesh::MeshId;
pub use pipeline::{Arena, Handle, PipelineError, ReloadFailure};
pub use state::StateAction;
