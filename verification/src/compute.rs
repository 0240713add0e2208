//! The buffers that the compute passes share: how large they are, what they
//! hold when they are created, and what each may be used for.

use vstd::prelude::*;

pub use crate::physics::PhysicsData;

verus! {

/// Capacity of each GPU data buffer, in 32-bit words (4 MB).
pub const MAX_TYPE_BUFFER_DATA: usize = 1000000;

/// Byte `k` of `word`, counted from the least significant.
pub open spec fn word_byte(word: u32, k: int) -> u8 {
    if k == 0 {
        (word % 256) as u8
    } else if k == 1 {
        ((word / 256) % 256) as u8
    } else if k == 2 {
        ((word / 65536) % 256) as u8
    } else {
        (word / 16777216) as u8
    }
}

/// The bytes of `words` as they lie in memory, each word with its least
/// significant byte first, or, on a big-endian machine, last.
pub open spec fn memory_bytes(words: Seq<u32>, big_endian: bool) -> Seq<u8> {
    Seq::new(
        4 * words.len(),
        |i: int|
            word_byte(
                words[i / 4],
                if big_endian {
                    3 - i % 4
                } else {
                    i % 4
                },
            ),
    )
}

/// `bytemuck::cast_slice` from `u32` to `u8`: the same memory read as
/// bytes, four per word, in the byte order of the machine. The cast cannot
/// fail, since bytes need no alignment and any length of words is a whole
/// number of bytes.
#[verifier::external_body]
fn words_as_bytes(words: &Vec<u32>) -> (bytes: Vec<u8>)
    ensures
        bytes@ == memory_bytes(words@, false) || bytes@ == memory_bytes(words@, true),
{
    let bytes: &[u8] = bytemuck::cast_slice(words.as_slice());
    bytes.to_vec()
}

/// The contents of a buffer that holds `words`: four bytes per word, in
/// the machine's byte order.
pub fn buffer_contents(words: &Vec<u32>) -> (bytes: Vec<u8>)
    ensures
        bytes@.len() == 4 * words@.len(),
        bytes@ == memory_bytes(words@, false) || bytes@ == memory_bytes(words@, true),
        forall|i: int| 0 <= i < bytes@.len() && words@[i / 4] == 0 ==> bytes@[i] == 0,
{
    words_as_bytes(words)
}

/// The contents that a data buffer of `words` words is created with: all
/// bytes zero.
pub fn zeroed_buffer(words: usize) -> (bytes: Vec<u8>)
    ensures
        bytes@.len() == 4 * words,
        forall|i: int| 0 <= i < bytes@.len() ==> bytes@[i] == 0,
{
    let mut zeros: Vec<u32> = Vec::new();
    while zeros.len() < words
        invariant
            zeros@.len() <= words,
            forall|i: int| 0 <= i < zeros@.len() ==> zeros@[i] == 0,
        decreases words - zeros@.len(),
    {
        zeros.push(0u32);
    }
    buffer_contents(&zeros)
}

/// The buffers of the compute passes.
#[derive(Clone, Copy, PartialEq, Eq, Structural, Debug)]
pub enum BufferRole {
    /// Physics state on the GPU: written by the physics pass.
    PhysicsGpu,
    /// The CPU-readable mirror of the physics state.
    PhysicsCpu,
    /// Animation instructions: read by the animation pass.
    Animation,
}

/// What a buffer may be used for.
#[derive(Clone, Copy, PartialEq, Eq, Structural, Debug)]
pub struct BufferUsage {
    pub storage: bool,
    pub copy_dst: bool,
    pub copy_src: bool,
    pub map_read: bool,
}

/// The usage of each buffer: the physics state is storage that can be
/// copied from, its mirror can be copied to and mapped for reading, and the
/// animation buffer is storage that the CPU writes.
pub open spec fn usage_of(role: BufferRole) -> BufferUsage {
    match role {
        BufferRole::PhysicsGpu => BufferUsage {
            storage: true,
            copy_dst: true,
            copy_src: true,
            map_read: false,
        },
        BufferRole::PhysicsCpu => BufferUsage {
            storage: false,
            copy_dst: true,
            copy_src: false,
            map_read: true,
        },
        BufferRole::Animation => BufferUsage {
            storage: true,
            copy_dst: true,
            copy_src: false,
            map_read: false,
        },
    }
}

/// The usage that the buffer of `role` is created with.
pub fn buffer_usage(role: BufferRole) -> (usage: BufferUsage)
    ensures
        usage == usage_of(role),
{
    match role {
        BufferRole::PhysicsGpu => BufferUsage {
            storage: true,
            copy_dst: true,
            copy_src: true,
            map_read: false,
        },
        BufferRole::PhysicsCpu => BufferUsage {
            storage: false,
            copy_dst: true,
            copy_src: false,
            map_read: true,
        },
        BufferRole::Animation => BufferUsage {
            storage: true,
            copy_dst: true,
            copy_src: false,
            map_read: false,
        },
    }
}

/// CPU-side bookkeeping of the animation buffer.
#[derive(Clone, Copy, PartialEq, Eq, Structural, Debug)]
pub struct AnimationData {
    /// The number of animation instructions to dispatch over.
    pub dispatch_size: u32,
}

impl AnimationData {
    /// Bookkeeping for a buffer without instructions.
    pub fn new() -> (data: AnimationData)
        ensures
            data.dispatch_size == 0,
    {
        AnimationData { dispatch_size: 0 }
    }
}

} // verus!
