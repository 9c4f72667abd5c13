use vstd::prelude::*;

verus! {

/// Position of a slot in a kind's storage.
pub type Index = u32;

/// Generation counter of a slot.
pub type Epoch = u32;

/// An opaque handle for one resource kind `K`: a slot index and the epoch
/// of the occupant it names. Handles of different kinds are different types.
#[derive(Debug)]
pub struct Id<K> {
    pub index: Index,
    pub epoch: Epoch,
    pub kind: core::marker::PhantomData<K>,
}

impl<K> Clone for Id<K> {
    fn clone(&self) -> (r: Self)
        ensures
            r == *self,
    {
        Id { index: self.index, epoch: self.epoch, kind: core::marker::PhantomData }
    }
}

impl<K> Copy for Id<K> {

}

impl<K> PartialEq for Id<K> {
    fn eq(&self, o: &Id<K>) -> (r: bool) {
        self.index == o.index && self.epoch == o.epoch
    }
}

impl<K> vstd::std_specs::cmp::PartialEqSpecImpl for Id<K> {
    open spec fn obeys_eq_spec() -> bool {
        true
    }

    open spec fn eq_spec(&self, o: &Id<K>) -> bool {
        self.index == o.index && self.epoch == o.epoch
    }
}

impl<K> Eq for Id<K> {

}

impl<K> Id<K> {
    /// Builds the handle for slot `index` at generation `epoch`.
    pub fn new(index: Index, epoch: Epoch) -> (r: Self)
        ensures
            r.index == index,
            r.epoch == epoch,
    {
        Id { index, epoch, kind: core::marker::PhantomData }
    }

    /// The slot this handle names.
    pub fn index(&self) -> (r: Index)
        ensures
            r == self.index,
    {
        self.index
    }

    /// The generation of the slot's occupant this handle names.
    pub fn epoch(&self) -> (r: Epoch)
        ensures
            r == self.epoch,
    {
        self.epoch
    }
}

// The resource kinds, each tagging its own handle type.
#[derive(Debug)]
pub struct InstanceKind;

pub type InstanceId = Id<InstanceKind>;

#[derive(Debug)]
pub struct SurfaceKind;

pub type SurfaceId = Id<SurfaceKind>;

#[derive(Debug)]
pub struct AdapterKind;

pub type AdapterId = Id<AdapterKind>;

#[derive(Debug)]
pub struct DeviceKind;

pub type DeviceId = Id<DeviceKind>;

#[derive(Debug)]
pub struct PipelineLayoutKind;

pub type PipelineLayoutId = Id<PipelineLayoutKind>;

#[derive(Debug)]
pub struct BindGroupLayoutKind;

pub type BindGroupLayoutId = Id<BindGroupLayoutKind>;

#[derive(Debug)]
pub struct BindGroupKind;

pub type BindGroupId = Id<BindGroupKind>;

#[derive(Debug)]
pub struct ShaderModuleKind;

pub type ShaderModuleId = Id<ShaderModuleKind>;

#[derive(Debug)]
pub struct CommandBufferKind;

pub type CommandBufferId = Id<CommandBufferKind>;

#[derive(Debug)]
pub struct RenderPipelineKind;

pub type RenderPipelineId = Id<RenderPipelineKind>;

#[derive(Debug)]
pub struct ComputePipelineKind;

pub type ComputePipelineId = Id<ComputePipelineKind>;

#[derive(Debug)]
pub struct RenderPassKind;

pub type RenderPassId = Id<RenderPassKind>;

#[derive(Debug)]
pub struct ComputePassKind;

pub type ComputePassId = Id<ComputePassKind>;

#[derive(Debug)]
pub struct BufferKind;

pub type BufferId = Id<BufferKind>;

#[derive(Debug)]
pub struct TextureKind;

pub type TextureId = Id<TextureKind>;

#[derive(Debug)]
pub struct TextureViewKind;

pub type TextureViewId = Id<TextureViewKind>;

#[derive(Debug)]
pub struct SamplerKind;

pub type SamplerId = Id<SamplerKind>;

} // verus!
