//! Batched, instanced forward rendering: entities that share a mesh are
//! grouped, their per-instance data is packed into one byte image per group,
//! and one indexed, instanced draw is planned per group.
//!
//! Floating-point values are carried as their 32-bit patterns throughout, so
//! that every value the library touches is an integer.

pub mod batch;
pub mod layout;
pub mod pipeline;
pub mod record;

pub use batch::{group_by_mesh, Batch, InstancedEntity};
pub use pipeline::{DrawCommand, ForwardInstancedPipeline, InstanceBufferInfo, VertexSource};
pub use record::{InstanceRecord, LocalToWorld, Material};
