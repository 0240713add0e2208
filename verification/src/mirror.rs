//! The read-back of the physics buffer, as a channel that is one frame
//! late: what the GPU wrote in one frame is copied to a CPU-visible buffer
//! and can be read in the next frame, and in no other.

use vstd::prelude::*;

verus! {

/// A single-slot channel from the GPU to the CPU, carrying data of type
/// `D`.
pub struct MirrorChannel<D> {
    frame: u64,
    in_flight: Option<u64>,
    landed_frame: Option<u64>,
    landed: Option<D>,
}

impl<D> MirrorChannel<D> {
    /// The number of the current frame.
    pub closed spec fn frame(&self) -> u64 {
        self.frame
    }

    /// The frame whose copy is under way, if one is.
    pub closed spec fn in_flight(&self) -> Option<u64> {
        self.in_flight
    }

    /// The frame whose copy has landed, if one has.
    pub closed spec fn landed_frame(&self) -> Option<u64> {
        self.landed_frame
    }

    /// The data of the copy that has landed.
    pub closed spec fn landed(&self) -> Option<D> {
        self.landed
    }

    /// Nothing is in the channel that the current frame did not put there
    /// or the frame before.
    pub open spec fn wf(&self) -> bool {
        &&& self.landed().is_some() == self.landed_frame().is_some()
        &&& self.landed_frame().is_some() ==> self.landed_frame().unwrap() <= self.frame()
            && self.frame() - self.landed_frame().unwrap() <= 1
        &&& self.in_flight().is_some() ==> self.in_flight().unwrap() <= self.frame()
            && self.frame() - self.in_flight().unwrap() <= 1
    }

    /// What a reader sees: the data that was copied in the frame before
    /// the current one.
    pub open spec fn readable(&self) -> Option<D> {
        if self.landed_frame().is_some() && self.landed_frame().unwrap() + 1 == self.frame() {
            self.landed()
        } else {
            None
        }
    }

    /// An empty channel at frame zero.
    pub fn new() -> (channel: MirrorChannel<D>)
        ensures
            channel.wf(),
            channel.frame() == 0,
            channel.in_flight().is_none(),
            channel.landed_frame().is_none(),
            channel.readable().is_none(),
    {
        MirrorChannel { frame: 0, in_flight: None, landed_frame: None, landed: None }
    }

    /// The number of the current frame.
    pub fn current_frame(&self) -> (frame: u64)
        ensures
            frame == self.frame(),
    {
        self.frame
    }

    /// Starts the next frame. Data that landed before the frame that just
    /// ended is stale and is dropped, and so is a copy of such a frame that
    /// never landed.
    pub fn begin_frame(&mut self)
        requires
            old(self).wf(),
            old(self).frame() < u64::MAX,
        ensures
            final(self).wf(),
            final(self).frame() == old(self).frame() + 1,
            final(self).in_flight() == (if old(self).in_flight() == Some(old(self).frame()) {
                old(self).in_flight()
            } else {
                None
            }),
            final(self).landed_frame() == (if old(self).landed_frame() == Some(old(self).frame()) {
                old(self).landed_frame()
            } else {
                None
            }),
            final(self).landed_frame().is_some() ==> final(self).landed() == old(self).landed(),
    {
        let ended = self.frame;
        let keep_flight = match self.in_flight {
            Some(issued) => issued == ended,
            None => false,
        };
        if !keep_flight {
            self.in_flight = None;
        }
        let keep_landed = match self.landed_frame {
            Some(issued) => issued == ended,
            None => false,
        };
        if !keep_landed {
            self.landed_frame = None;
            self.landed = None;
        }
        self.frame = ended + 1;
    }

    /// Schedules the copy of this frame's physics buffer to the mirror and
    /// returns the frame that it is issued in.
    pub fn schedule_copy(&mut self) -> (issued: u64)
        requires
            old(self).wf(),
        ensures
            final(self).wf(),
            issued == old(self).frame(),
            final(self).frame() == old(self).frame(),
            final(self).in_flight() == Some(issued),
            final(self).landed_frame() == old(self).landed_frame(),
            final(self).landed() == old(self).landed(),
    {
        self.in_flight = Some(self.frame);
        self.frame
    }

    /// The copy issued in frame `issued` has completed with `data`. It
    /// lands if it is the copy under way, and is dropped if it is not, and
    /// the result tells which.
    pub fn complete(&mut self, issued: u64, data: D) -> (accepted: bool)
        requires
            old(self).wf(),
        ensures
            final(self).wf(),
            final(self).frame() == old(self).frame(),
            accepted == (old(self).in_flight() == Some(issued)),
            accepted ==> {
                &&& final(self).in_flight().is_none()
                &&& final(self).landed_frame() == Some(issued)
                &&& final(self).landed() == Some(data)
            },
            !accepted ==> *final(self) == *old(self),
    {
        let accepted = match self.in_flight {
            Some(expected) => expected == issued,
            None => false,
        };
        if accepted {
            self.in_flight = None;
            self.landed_frame = Some(issued);
            self.landed = Some(data);
        }
        accepted
    }

    /// The physics state of the frame before, if its copy has landed.
    pub fn read(&self) -> (data: Option<&D>)
        requires
            self.wf(),
        ensures
            match data {
                Some(d) => self.readable() == Some(*d),
                None => self.readable().is_none(),
            },
    {
        match self.landed_frame {
            Some(issued) => {
                if issued < self.frame {
                    self.landed.as_ref()
                } else {
                    None
                }
            },
            None => None,
        }
    }
}

/// What lands in a frame cannot be read in that frame: a reader never sees
/// a copy of the frame that is still being written.
pub proof fn lemma_never_read_same_frame<D>(channel: MirrorChannel<D>)
    requires
        channel.wf(),
        channel.landed_frame() == Some(channel.frame()),
    ensures
        channel.readable().is_none(),
{
}

/// What can be read was copied exactly one frame ago.
pub proof fn lemma_read_is_one_frame_late<D>(channel: MirrorChannel<D>)
    requires
        channel.wf(),
        channel.readable().is_some(),
    ensures
        channel.landed_frame() == Some((channel.frame() - 1) as u64),
        channel.readable() == channel.landed(),
{
}

} // verus!
