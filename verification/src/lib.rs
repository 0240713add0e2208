//! Frame scheduling and GPU resource bookkeeping for a real-time voxel
//! renderer: the pass graph, the hand-off of named resources between passes,
//! and the tables that map a changing set of host entities onto fixed-size
//! GPU buffers.
//!
//! Entities and views are identified by the 64 bits of their host identifier.

pub mod entity_map;
pub mod slot_table;
pub mod entity_table;
pub mod physics;
pub mod settings;
pub mod attachments;
pub mod trace;
pub mod voxelization;
pub mod compute;
pub mod layout;
pub mod world;
pub mod mirror;
pub mod graph;
pub mod pipeline;
pub mod frame;
pub mod commands;
pub mod context;

pub use compute::AnimationData;
pub use physics::PhysicsData;
pub use settings::RenderGraphSettings;
pub use trace::{TraceSettings, TraceUniforms};
pub use voxelization::{VoxelizationMaterial, VoxelizationMaterialType, VoxelizationUniforms};
