//! The CPU-side descriptor of the voxel world: how large the world is and
//! how many voxels its backing buffer holds.

use vstd::prelude::*;

verus! {

/// Why a world cannot be loaded.
#[derive(Clone, Copy, PartialEq, Eq, Structural, Debug)]
pub enum WorldError {
    /// The world has more voxels than a buffer length can count.
    TooLarge,
}

/// The number of voxels in a cubic world with the given edge length.
pub open spec fn voxel_count(texture_size: u32) -> nat {
    (texture_size * texture_size * texture_size) as nat
}

/// Edge length, scale and capacity of the voxel world. The scale is carried
/// as a value of the caller's type `S`.
pub struct VoxelWorldDescriptor<S> {
    texture_size: u32,
    voxels_per_meter: S,
    capacity: u64,
}

impl<S> VoxelWorldDescriptor<S> {
    /// The edge length of the world, in voxels.
    pub closed spec fn spec_texture_size(&self) -> u32 {
        self.texture_size
    }

    /// The number of voxels that the backing buffer holds.
    pub closed spec fn spec_capacity(&self) -> u64 {
        self.capacity
    }

    /// The scale of the world.
    pub closed spec fn spec_voxels_per_meter(&self) -> S {
        self.voxels_per_meter
    }

    /// The backing buffer has room for every voxel of the world.
    pub open spec fn wf(&self) -> bool {
        self.spec_capacity() >= voxel_count(self.spec_texture_size())
    }

    /// The descriptor of a world with the given edge length, backed by a
    /// buffer of one element per voxel.
    pub fn new(texture_size: u32, voxels_per_meter: S) -> (world: Result<
        VoxelWorldDescriptor<S>,
        WorldError,
    >)
        ensures
            world.is_ok() == (voxel_count(texture_size) <= u64::MAX),
            world.is_err() ==> world == Err::<VoxelWorldDescriptor<S>, WorldError>(
                WorldError::TooLarge,
            ),
            world.is_ok() ==> {
                &&& world.unwrap().wf()
                &&& world.unwrap().spec_texture_size() == texture_size
                &&& world.unwrap().spec_capacity() == voxel_count(texture_size)
                &&& world.unwrap().spec_voxels_per_meter() == voxels_per_meter
            },
    {
        match cube(texture_size) {
            Some(capacity) => Ok(VoxelWorldDescriptor { texture_size, voxels_per_meter, capacity }),
            None => Err(WorldError::TooLarge),
        }
    }

    /// The edge length of the world, in voxels.
    pub fn texture_size(&self) -> (size: u32)
        ensures
            size == self.spec_texture_size(),
    {
        self.texture_size
    }

    /// The number of voxels that the backing buffer holds.
    pub fn capacity(&self) -> (capacity: u64)
        ensures
            capacity == self.spec_capacity(),
    {
        self.capacity
    }

    /// The scale of the world.
    pub fn voxels_per_meter(&self) -> (scale: &S)
        ensures
            *scale == self.spec_voxels_per_meter(),
    {
        &self.voxels_per_meter
    }

    /// Loads a world with the given edge length in place of the current one
    /// and tells whether the size changed, in which case the attachments
    /// and voxelization cameras that follow it have to be resized. A world
    /// that is too large leaves the descriptor as it is.
    pub fn load(&mut self, texture_size: u32) -> (resized: Result<bool, WorldError>)
        requires
            old(self).wf(),
        ensures
            final(self).wf(),
            final(self).spec_voxels_per_meter() == old(self).spec_voxels_per_meter(),
            resized.is_ok() == (voxel_count(texture_size) <= u64::MAX),
            resized.is_ok() ==> {
                &&& resized.unwrap() == (texture_size != old(self).spec_texture_size())
                &&& final(self).spec_texture_size() == texture_size
                &&& final(self).spec_capacity() == voxel_count(texture_size)
            },
            resized.is_err() ==> {
                &&& resized == Err::<bool, WorldError>(WorldError::TooLarge)
                &&& final(self).spec_texture_size() == old(self).spec_texture_size()
                &&& final(self).spec_capacity() == old(self).spec_capacity()
            },
    {
        match cube(texture_size) {
            Some(capacity) => {
                let resized = texture_size != self.texture_size;
                self.texture_size = texture_size;
                self.capacity = capacity;
                Ok(resized)
            },
            None => Err(WorldError::TooLarge),
        }
    }
}

/// The cube of `edge`, if a buffer length can hold it.
fn cube(edge: u32) -> (volume: Option<u64>)
    ensures
        volume == (if voxel_count(edge) <= u64::MAX {
            Some(voxel_count(edge) as u64)
        } else {
            None
        }),
{
    let wide: u128 = edge as u128;
    assert(wide * wide <= 0xffff_ffff * 0xffff_ffff) by (nonlinear_arith)
        requires
            0 <= wide <= 0xffff_ffff,
    ;
    let square: u128 = wide * wide;
    assert(square * wide <= 0xffff_ffff * 0xffff_ffff * 0xffff_ffff) by (nonlinear_arith)
        requires
            0 <= wide <= 0xffff_ffff,
            0 <= square <= 0xffff_ffff * 0xffff_ffff,
    ;
    let volume: u128 = square * wide;
    if volume <= 0xffff_ffff_ffff_ffff {
        Some(volume as u64)
    } else {
        None
    }
}

} // verus!
