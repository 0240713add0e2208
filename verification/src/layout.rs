//! The bind group layouts of the compute, trace and voxelization
//! pipelines, as plain descriptions that the host turns into GPU objects.

use vstd::prelude::*;
use crate::attachments::AttachmentFormat;

verus! {

/// The shader stage that can see a binding.
#[derive(Clone, Copy, PartialEq, Eq, Structural, Debug)]
pub enum ShaderStage {
    Compute,
    Fragment,
}

/// What is bound at a binding.
#[derive(Clone, Copy, PartialEq, Eq, Structural, Debug)]
pub enum BindingKind {
    /// A uniform buffer of at least `min_size` bytes.
    Uniform { min_size: u64 },
    /// A storage buffer of at least `min_size` bytes.
    Storage { read_only: bool, min_size: u64 },
    /// A two-dimensional storage texture, read and written.
    StorageTexture { format: AttachmentFormat },
    /// A two-dimensional texture of unfilterable floats.
    Texture,
    /// A non-filtering sampler.
    Sampler,
}

/// One entry of a bind group layout.
#[derive(Clone, Copy, PartialEq, Eq, Structural, Debug)]
pub struct LayoutEntry {
    pub binding: u32,
    pub visibility: ShaderStage,
    pub kind: BindingKind,
}

/// The bindings of a layout are numbered from zero without a gap, in order.
pub open spec fn bindings_dense(layout: Seq<LayoutEntry>) -> bool {
    forall|i: int| 0 <= i < layout.len() ==> (#[trigger] layout[i]).binding == i
}

/// The layout of the compute passes: the frame's uniforms, the physics
/// buffer for reading and writing, the animation buffer for reading.
pub open spec fn compute_entries(uniform_size: u64) -> Seq<LayoutEntry> {
    seq![
        LayoutEntry {
            binding: 0,
            visibility: ShaderStage::Compute,
            kind: BindingKind::Uniform { min_size: uniform_size },
        },
        LayoutEntry {
            binding: 1,
            visibility: ShaderStage::Compute,
            kind: BindingKind::Storage { read_only: false, min_size: 4 },
        },
        LayoutEntry {
            binding: 2,
            visibility: ShaderStage::Compute,
            kind: BindingKind::Storage { read_only: true, min_size: 4 },
        },
    ]
}

/// The layout of the trace pass: the view's uniforms, then its normal and
/// position attachments.
pub open spec fn trace_entries(uniform_size: u64) -> Seq<LayoutEntry> {
    seq![
        LayoutEntry {
            binding: 0,
            visibility: ShaderStage::Fragment,
            kind: BindingKind::Uniform { min_size: uniform_size },
        },
        LayoutEntry {
            binding: 1,
            visibility: ShaderStage::Fragment,
            kind: BindingKind::StorageTexture { format: AttachmentFormat::Rgba16Float },
        },
        LayoutEntry {
            binding: 2,
            visibility: ShaderStage::Fragment,
            kind: BindingKind::StorageTexture { format: AttachmentFormat::Rgba32Float },
        },
    ]
}

/// The layout of the voxelization pass: the entity's material uniforms, its
/// texture, and the sampler.
pub open spec fn voxelization_entries(uniform_size: u64) -> Seq<LayoutEntry> {
    seq![
        LayoutEntry {
            binding: 0,
            visibility: ShaderStage::Fragment,
            kind: BindingKind::Uniform { min_size: uniform_size },
        },
        LayoutEntry { binding: 1, visibility: ShaderStage::Fragment, kind: BindingKind::Texture },
        LayoutEntry { binding: 2, visibility: ShaderStage::Fragment, kind: BindingKind::Sampler },
    ]
}

/// The bind group layout of the compute passes, with uniforms of
/// `uniform_size` bytes.
pub fn compute_layout(uniform_size: u64) -> (layout: Vec<LayoutEntry>)
    ensures
        layout@ == compute_entries(uniform_size),
        bindings_dense(layout@),
{
    let mut layout: Vec<LayoutEntry> = Vec::new();
    layout.push(
        LayoutEntry {
            binding: 0,
            visibility: ShaderStage::Compute,
            kind: BindingKind::Uniform { min_size: uniform_size },
        },
    );
    layout.push(
        LayoutEntry {
            binding: 1,
            visibility: ShaderStage::Compute,
            kind: BindingKind::Storage { read_only: false, min_size: 4 },
        },
    );
    layout.push(
        LayoutEntry {
            binding: 2,
            visibility: ShaderStage::Compute,
            kind: BindingKind::Storage { read_only: true, min_size: 4 },
        },
    );
    assert(layout@ =~= compute_entries(uniform_size));
    layout
}

/// The bind group layout of the trace pass, with uniforms of `uniform_size`
/// bytes.
pub fn trace_layout(uniform_size: u64) -> (layout: Vec<LayoutEntry>)
    ensures
        layout@ == trace_entries(uniform_size),
        bindings_dense(layout@),
{
    let mut layout: Vec<LayoutEntry> = Vec::new();
    layout.push(
        LayoutEntry {
            binding: 0,
            visibility: ShaderStage::Fragment,
            kind: BindingKind::Uniform { min_size: uniform_size },
        },
    );
    layout.push(
        LayoutEntry {
            binding: 1,
            visibility: ShaderStage::Fragment,
            kind: BindingKind::StorageTexture { format: AttachmentFormat::Rgba16Float },
        },
    );
    layout.push(
        LayoutEntry {
            binding: 2,
            visibility: ShaderStage::Fragment,
            kind: BindingKind::StorageTexture { format: AttachmentFormat::Rgba32Float },
        },
    );
    assert(layout@ =~= trace_entries(uniform_size));
    layout
}

/// The bind group layout of the voxelization pass, with uniforms of
/// `uniform_size` bytes.
pub fn voxelization_layout(uniform_size: u64) -> (layout: Vec<LayoutEntry>)
    ensures
        layout@ == voxelization_entries(uniform_size),
        bindings_dense(layout@),
{
    let mut layout: Vec<LayoutEntry> = Vec::new();
    layout.push(
        LayoutEntry {
            binding: 0,
            visibility: ShaderStage::Fragment,
            kind: BindingKind::Uniform { min_size: uniform_size },
        },
    );
    layout.push(
        LayoutEntry { binding: 1, visibility: ShaderStage::Fragment, kind: BindingKind::Texture },
    );
    layout.push(
        LayoutEntry { binding: 2, visibility: ShaderStage::Fragment, kind: BindingKind::Sampler },
    );
    assert(layout@ =~= voxelization_entries(uniform_size));
    layout
}

/// The bind groups of a voxelization draw, by the index each is set at.
#[derive(Clone, Copy, PartialEq, Eq, Structural, Debug)]
pub enum DrawBindGroup {
    MeshView,
    Mesh,
    VoxelWorld,
    Voxelization,
}

/// The index that a bind group of a voxelization draw is set at.
pub fn bind_group_index(group: DrawBindGroup) -> (index: usize)
    ensures
        index == (match group {
            DrawBindGroup::MeshView => 0usize,
            DrawBindGroup::Mesh => 1usize,
            DrawBindGroup::VoxelWorld => 2usize,
            DrawBindGroup::Voxelization => 3usize,
        }),
{
    match group {
        DrawBindGroup::MeshView => 0,
        DrawBindGroup::Mesh => 1,
        DrawBindGroup::VoxelWorld => 2,
        DrawBindGroup::Voxelization => 3,
    }
}

} // verus!
