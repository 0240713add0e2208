//! The per-view uniform stream of the trace pass: each view's camera and the
//! camera it had one frame earlier, for temporal reprojection.
//!
//! Matrices and time are carried as values of the caller's types `M` and
//! `T`; nothing here computes with them.

use vstd::prelude::*;
use crate::entity_table::EntityTable;
use crate::slot_table::SlotTable;

verus! {

/// Per-view switches of the trace pass.
#[derive(Clone, Copy, PartialEq, Eq, Structural, Debug)]
pub struct TraceSettings {
    pub show_ray_steps: bool,
    pub samples: u32,
    pub shadows: bool,
}

impl Default for TraceSettings {
    /// No ray-step debugging, one sample, shadows on.
    fn default() -> (settings: TraceSettings)
        ensures
            !settings.show_ray_steps,
            settings.samples == 1,
            settings.shadows,
    {
        TraceSettings { show_ray_steps: false, samples: 1, shadows: true }
    }
}

/// The matrices that a view supplies each frame.
#[derive(Clone, Copy, Debug, PartialEq)]
pub struct ViewMatrices<M> {
    pub camera: M,
    pub camera_inverse: M,
    pub projection: M,
}

/// What the trace pass reads for one view.
#[derive(Clone, Copy, Debug, PartialEq)]
pub struct TraceUniforms<M, T> {
    pub camera: M,
    pub camera_inverse: M,
    pub last_camera: M,
    pub projection: M,
    pub time: T,
    pub show_ray_steps: u32,
    pub samples: u32,
    pub shadows: u32,
}

/// A switch as the shader reads it.
pub open spec fn flag(on: bool) -> u32 {
    if on {
        1
    } else {
        0
    }
}

/// The camera that a view reprojects from: the one recorded for it, or its
/// current camera if none is recorded.
pub open spec fn last_camera_of<M>(recorded: Map<u64, M>, view: u64, camera: M) -> M {
    if recorded.contains_key(view) {
        recorded[view]
    } else {
        camera
    }
}

/// The uniforms of `view` for a frame, given the cameras recorded so far.
pub open spec fn view_uniforms<M, T>(
    recorded: Map<u64, M>,
    view: u64,
    settings: TraceSettings,
    matrices: ViewMatrices<M>,
    time: T,
) -> TraceUniforms<M, T> {
    TraceUniforms {
        camera: matrices.camera,
        camera_inverse: matrices.camera_inverse,
        last_camera: last_camera_of(recorded, view, matrices.camera),
        projection: matrices.projection,
        time,
        show_ray_steps: flag(settings.show_ray_steps),
        samples: settings.samples,
        shadows: flag(settings.shadows),
    }
}

/// The camera of each view as of the frame before. The view is the map from
/// view to camera.
pub struct LastCameras<M> {
    cameras: EntityTable<M>,
}

impl<M> View for LastCameras<M> {
    type V = Map<u64, M>;

    closed spec fn view(&self) -> Map<u64, M> {
        self.cameras@
    }
}

impl<M: Copy> LastCameras<M> {
    /// The table of cameras is well formed.
    pub closed spec fn wf(&self) -> bool {
        self.cameras.wf()
    }

    /// No view has been seen yet.
    pub fn new() -> (cameras: LastCameras<M>)
        ensures
            cameras.wf(),
            cameras@ == Map::<u64, M>::empty(),
    {
        LastCameras { cameras: EntityTable::new() }
    }

    /// The number of views with a recorded camera.
    pub fn len(&self) -> (n: usize)
        requires
            self.wf(),
        ensures
            self@.dom().finite(),
            n == self@.len(),
    {
        proof {
            self.cameras.lemma_finite();
        }
        self.cameras.len()
    }

    /// Records `camera` for `view` and returns the camera to reproject
    /// from: the one recorded before, or `camera` itself on the view's
    /// first frame.
    pub fn advance(&mut self, view: u64, camera: M) -> (last_camera: M)
        requires
            old(self).wf(),
        ensures
            final(self).wf(),
            last_camera == last_camera_of(old(self)@, view, camera),
            final(self)@ == old(self)@.insert(view, camera),
    {
        let last_camera = match self.cameras.get(view) {
            Some(recorded) => *recorded,
            None => camera,
        };
        self.cameras.insert(view, camera);
        last_camera
    }

    /// Builds the uniforms of `view` for this frame and records its camera
    /// for the next.
    pub fn prepare_view<T>(
        &mut self,
        view: u64,
        settings: &TraceSettings,
        matrices: ViewMatrices<M>,
        time: T,
    ) -> (uniforms: TraceUniforms<M, T>)
        requires
            old(self).wf(),
        ensures
            final(self).wf(),
            uniforms == view_uniforms(old(self)@, view, *settings, matrices, time),
            final(self)@ == old(self)@.insert(view, matrices.camera),
    {
        let last_camera = self.advance(view, matrices.camera);
        TraceUniforms {
            camera: matrices.camera,
            camera_inverse: matrices.camera_inverse,
            last_camera,
            projection: matrices.projection,
            time,
            show_ray_steps: if settings.show_ray_steps {
                1
            } else {
                0
            },
            samples: settings.samples,
            shadows: if settings.shadows {
                1
            } else {
                0
            },
        }
    }

    /// Forgets every view that is not among `seen`, the views of this frame,
    /// and returns the views forgotten. Afterwards no more cameras are
    /// recorded than there are views.
    pub fn prune(&mut self, seen: &Vec<u64>) -> (forgotten: Vec<u64>)
        requires
            old(self).wf(),
        ensures
            final(self).wf(),
            final(self)@ == old(self)@.restrict(seen@.to_set()),
            final(self)@.dom().finite(),
            final(self)@.len() <= seen@.len(),
            forgotten@.no_duplicates(),
            forgotten@.to_set() == old(self)@.dom().difference(seen@.to_set()),
    {
        let present = SlotTable::collect(seen);
        proof {
            crate::slot_table::lemma_first_occurrences(seen@);
            assert(present@.to_set() =~= seen@.to_set());
        }
        let forgotten = self.cameras.retain(&present);
        proof {
            self.cameras.lemma_finite();
            vstd::seq_lib::seq_to_set_is_finite(seen@);
            seen@.lemma_cardinality_of_set();
            vstd::set_lib::lemma_len_subset(self@.dom(), seen@.to_set());
        }
        forgotten
    }
}

/// On a view's first frame its last camera is its camera: nothing is
/// reprojected from a camera that the view never had.
pub proof fn lemma_first_frame<M>(recorded: Map<u64, M>, view: u64, camera: M)
    requires
        !recorded.contains_key(view),
    ensures
        last_camera_of(recorded, view, camera) == camera,
{
}

/// A view's last camera on one frame is its camera of the frame before,
/// whatever other views were prepared in between.
pub proof fn lemma_one_frame_history<M>(
    recorded: Map<u64, M>,
    view: u64,
    before: M,
    other: u64,
    other_camera: M,
    now: M,
)
    requires
        other != view,
    ensures
        last_camera_of(recorded.insert(view, before), view, now) == before,
        last_camera_of(recorded.insert(view, before).insert(other, other_camera), view, now)
            == before,
{
}

/// A view that was pruned and comes back is on its first frame again.
pub proof fn lemma_pruned_view_restarts<M>(
    recorded: Map<u64, M>,
    seen: Set<u64>,
    view: u64,
    camera: M,
)
    requires
        !seen.contains(view),
    ensures
        last_camera_of(recorded.restrict(seen), view, camera) == camera,
{
}

} // verus!
