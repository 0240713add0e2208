//! Per-view auxiliary render targets, sized to the view's physical viewport.

use vstd::prelude::*;

verus! {

/// Width, height and layer count of a texture.
#[derive(Clone, Copy, PartialEq, Eq, Structural, Debug)]
pub struct Extent {
    pub width: u32,
    pub height: u32,
    pub depth_or_array_layers: u32,
}

/// The texel formats of the two attachments.
#[derive(Clone, Copy, PartialEq, Eq, Structural, Debug)]
pub enum AttachmentFormat {
    /// Four 16-bit floats: the normal target.
    Rgba16Float,
    /// Four 32-bit floats: the position target.
    Rgba32Float,
}

/// The number of bytes in one texel of `format`.
pub open spec fn texel_bytes(format: AttachmentFormat) -> nat {
    match format {
        AttachmentFormat::Rgba16Float => 8,
        AttachmentFormat::Rgba32Float => 16,
    }
}

/// The texel that a new attachment is filled with: all bytes zero.
pub fn fill_texel(format: AttachmentFormat) -> (texel: Vec<u8>)
    ensures
        texel@.len() == texel_bytes(format),
        forall|i: int| 0 <= i < texel@.len() ==> texel@[i] == 0,
{
    let n: usize = match format {
        AttachmentFormat::Rgba16Float => 8,
        AttachmentFormat::Rgba32Float => 16,
    };
    let mut texel: Vec<u8> = Vec::new();
    while texel.len() < n
        invariant
            texel@.len() <= n,
            n == texel_bytes(format),
            forall|i: int| 0 <= i < texel@.len() ==> texel@[i] == 0,
        decreases n - texel@.len(),
    {
        texel.push(0u8);
    }
    texel
}

/// The extent that a new attachment is created with: one texel.
pub fn initial_extent() -> (extent: Extent)
    ensures
        extent == (Extent { width: 1, height: 1, depth_or_array_layers: 1 }),
{
    Extent { width: 1, height: 1, depth_or_array_layers: 1 }
}

/// The normal and position targets of one view, as handles of type `H`,
/// with the size that they were last allocated at.
#[derive(Clone, Debug)]
pub struct RenderAttachments<H> {
    width: u32,
    height: u32,
    normal: H,
    position: H,
}

/// The extent to reallocate to, when `viewport` is not the current size.
pub open spec fn reallocation(current: (u32, u32), viewport: (u32, u32)) -> Option<Extent> {
    if viewport == current {
        None
    } else {
        Some(Extent { width: viewport.0, height: viewport.1, depth_or_array_layers: 1 })
    }
}

/// The number of reallocations that a run of viewport sizes causes, one
/// frame after the other, starting from attachments of size `current`.
pub open spec fn reallocation_count(current: (u32, u32), viewports: Seq<(u32, u32)>) -> nat
    decreases viewports.len(),
{
    if viewports.len() == 0 {
        0
    } else {
        let first = if reallocation(current, viewports[0]).is_some() {
            1nat
        } else {
            0nat
        };
        first + reallocation_count(viewports[0], viewports.skip(1))
    }
}

impl<H> RenderAttachments<H> {
    /// The size that the attachments were last allocated at.
    pub closed spec fn size(&self) -> (u32, u32) {
        (self.width, self.height)
    }

    /// The handle of the normal target.
    pub closed spec fn spec_normal(&self) -> H {
        self.normal
    }

    /// The handle of the position target.
    pub closed spec fn spec_position(&self) -> H {
        self.position
    }

    /// Attachments that have just been created, one texel large.
    pub fn new(normal: H, position: H) -> (attachments: RenderAttachments<H>)
        ensures
            attachments.size() == (1u32, 1u32),
            attachments.spec_normal() == normal,
            attachments.spec_position() == position,
    {
        RenderAttachments { width: 1, height: 1, normal, position }
    }

    /// The size that the attachments were last allocated at.
    pub fn current_size(&self) -> (size: (u32, u32))
        ensures
            size == self.size(),
    {
        (self.width, self.height)
    }

    /// The handle of the normal target.
    pub fn normal(&self) -> (handle: &H)
        ensures
            *handle == self.spec_normal(),
    {
        &self.normal
    }

    /// The handle of the position target.
    pub fn position(&self) -> (handle: &H)
        ensures
            *handle == self.spec_position(),
    {
        &self.position
    }

    /// Follows the view's physical viewport: returns the extent to
    /// reallocate both targets to if the viewport is not the current size,
    /// and nothing if it is.
    pub fn resize(&mut self, viewport: (u32, u32)) -> (extent: Option<Extent>)
        ensures
            extent == reallocation(old(self).size(), viewport),
            final(self).size() == viewport,
            final(self).spec_normal() == old(self).spec_normal(),
            final(self).spec_position() == old(self).spec_position(),
    {
        if viewport.0 != self.width || viewport.1 != self.height {
            self.width = viewport.0;
            self.height = viewport.1;
            Some(Extent { width: viewport.0, height: viewport.1, depth_or_array_layers: 1 })
        } else {
            None
        }
    }
}

/// Frames at the size that the attachments already have reallocate nothing.
pub proof fn lemma_steady_size(size: (u32, u32), frames: nat)
    ensures
        reallocation_count(size, Seq::new(frames, |i: int| size)) == 0,
    decreases frames,
{
    let run = Seq::new(frames, |i: int| size);
    if frames > 0 {
        lemma_steady_size(size, (frames - 1) as nat);
        assert(run.skip(1) =~= Seq::new((frames - 1) as nat, |i: int| size));
        assert(run[0] == size);
    }
}

/// A change of viewport from `a` to a different `b` reallocates once, to
/// `b`, however many frames the viewport then stays at `b`.
pub proof fn lemma_resize_once(a: (u32, u32), b: (u32, u32), frames: nat)
    requires
        a != b,
    ensures
        reallocation(a, b) == Some(Extent { width: b.0, height: b.1, depth_or_array_layers: 1 }),
        reallocation(b, b).is_none(),
        reallocation_count(a, Seq::new(frames + 1, |i: int| b)) == 1,
{
    let run = Seq::new(frames + 1, |i: int| b);
    lemma_steady_size(b, frames);
    assert(run.skip(1) =~= Seq::new(frames, |i: int| b));
    assert(run[0] == b);
}

} // verus!
