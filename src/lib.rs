//! Handles for GPU resources: a generational allocator of `(index, epoch)`
//! pairs and an epoch-checked storage of payloads keyed by those handles.
use vstd::prelude::*;

pub mod id;
pub mod identity;
pub mod storage;

pub use id::{
    AdapterId, BindGroupId, BindGroupLayoutId, BufferId, CommandBufferId, ComputePassId,
    ComputePipelineId, DeviceId, Epoch, Id, Index, InstanceId, PipelineLayoutId, RenderPassId,
    RenderPipelineId, SamplerId, ShaderModuleId, SurfaceId, TextureId, TextureViewId,
};
pub use identity::IdentityManager;
pub use storage::Storage;

verus! {

} // verus!
