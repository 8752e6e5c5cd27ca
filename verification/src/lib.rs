//! The verified core of a Vulkan render hardware interface: every
//! decision the GPU backend makes that is a function of plain values —
//! descriptor contracts, layout arithmetic, selection among what a
//! driver reports, the frame contract and the barrier table it feeds,
//! the host-allocation and validation tallies, and the bookkeeping state
//! machines of the targets.
//!
//! Resources and Vulkan enumerants appear as plain values: a resource by
//! an identity key and the facts the rules read about it, an enumerant
//! by the number the Vulkan registry gives it. The driver calls stay at
//! the edge that owns the handles.

pub mod buffer;
pub mod config;
pub mod contract_laws;
pub mod debug;
pub mod device;
pub mod error;
pub mod formats;
pub mod frame;
pub mod host_alloc;
pub mod memory;
pub mod mesh;
pub mod offscreen;
pub mod pipeline;
pub mod render_image;
pub mod retention;
pub mod spirv;
pub mod swapchain;
pub mod texture;
pub mod transition;
pub mod walk;

pub use config::{AdapterInfo, AdapterKind, Color, Extent, SurfaceTransform, Validation};
pub use error::{DeviceError, PipelineError, TargetError};
pub use pipeline::{
    AddressMode, Blend, DepthState, Filter, MeshShaders, PipelineDesc, PipelineInfo, SamplerDesc,
    Shaders, TargetFormat, VertexAttribute,
};
