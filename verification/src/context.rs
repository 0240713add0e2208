//! The state of the pipeline in one place: the world's descriptor, the
//! physics slots with their read-back channel, the settings, and the two
//! graphs with their schedules.

use vstd::prelude::*;
use crate::commands::{
    Command, DispatchSizes, dispatch_sizes, frame_commands, lemma_physics_off_frame, record,
    writes_physics,
};
use crate::compute::{AnimationData, MAX_TYPE_BUFFER_DATA};
use crate::frame::{PipelineStatus, ScheduledGraph, ViewResources};
use crate::mirror::MirrorChannel;
use crate::physics::{PhysicsData, SlotReport, assigned_slots, excluded_entities};
use crate::pipeline::{global_order, is_global_graph, is_view_graph, view_order};
use crate::settings::RenderGraphSettings;
use crate::world::{VoxelWorldDescriptor, WorldError, voxel_count};

verus! {

/// Everything that the pipeline keeps from frame to frame.
pub struct World<S> {
    descriptor: VoxelWorldDescriptor<S>,
    physics: PhysicsData,
    animation: AnimationData,
    mirror: MirrorChannel<Vec<u32>>,
    settings: RenderGraphSettings,
    global: ScheduledGraph,
    view: ScheduledGraph,
}

/// The resources of no view: what the global graph runs with.
pub open spec fn no_view<R>() -> ViewResources<R> {
    ViewResources { target: false, uniforms: false, normal: None, position: None }
}

impl<S> World<S> {
    /// The descriptor of the world that is loaded.
    pub closed spec fn descriptor(&self) -> VoxelWorldDescriptor<S> {
        self.descriptor
    }

    /// The physics slots.
    pub closed spec fn physics(&self) -> PhysicsData {
        self.physics
    }

    /// The bookkeeping of the animation buffer.
    pub closed spec fn animation(&self) -> AnimationData {
        self.animation
    }

    /// The read-back channel of the physics buffer.
    pub closed spec fn mirror(&self) -> MirrorChannel<Vec<u32>> {
        self.mirror
    }

    /// The settings in force.
    pub closed spec fn settings(&self) -> RenderGraphSettings {
        self.settings
    }

    /// The global graph with its order.
    pub closed spec fn global(&self) -> ScheduledGraph {
        self.global
    }

    /// The graph of a view with its order.
    pub closed spec fn view(&self) -> ScheduledGraph {
        self.view
    }

    /// Each part is well formed, and the graphs are the two graphs of the
    /// pipeline in their orders.
    pub open spec fn wf(&self) -> bool {
        &&& self.descriptor().wf()
        &&& self.physics().wf()
        &&& self.mirror().wf()
        &&& self.global().wf()
        &&& is_global_graph(self.global().graph())
        &&& self.global().order() == global_order()
        &&& self.view().wf()
        &&& is_view_graph(self.view().graph())
        &&& self.view().order() == view_order()
    }

    /// The sizes that this frame's passes are dispatched over.
    pub open spec fn sizes(&self) -> DispatchSizes {
        DispatchSizes {
            world: self.descriptor().spec_texture_size(),
            animation: self.animation().dispatch_size,
            physics: self.physics().spec_dispatch_size(),
            physics_elements: self.physics().spec_buffer_length(),
        }
    }

    /// Whether the rest of the state is as in `other`: everything but the
    /// physics slots, the animation size and the read-back channel.
    pub open spec fn same_setup(&self, other: &World<S>) -> bool {
        &&& self.descriptor() == other.descriptor()
        &&& self.settings() == other.settings()
        &&& self.global() == other.global()
        &&& self.view() == other.view()
    }

    /// The state of a pipeline that has just loaded a world with the given
    /// edge length: no physics slots, every pass on, frame zero.
    pub fn new(texture_size: u32, voxels_per_meter: S) -> (world: Result<World<S>, WorldError>)
        ensures
            world.is_ok() == (voxel_count(texture_size) <= u64::MAX),
            world.is_err() ==> world->Err_0 == WorldError::TooLarge,
            world.is_ok() ==> {
                let w = world.unwrap();
                &&& w.wf()
                &&& w.descriptor().spec_texture_size() == texture_size
                &&& w.descriptor().spec_capacity() == voxel_count(texture_size)
                &&& w.descriptor().spec_voxels_per_meter() == voxels_per_meter
                &&& w.physics().slots() == Seq::<u64>::empty()
                &&& w.physics().spec_dispatch_size() == 0
                &&& w.animation().dispatch_size == 0
                &&& w.mirror().frame() == 0
                &&& w.mirror().readable().is_none()
                &&& w.settings() == (RenderGraphSettings {
                    clear: true,
                    automata: true,
                    animation: true,
                    voxelization: true,
                    rebuild: true,
                    physics: true,
                    trace: true,
                })
            },
    {
        match VoxelWorldDescriptor::new(texture_size, voxels_per_meter) {
            Ok(descriptor) => Ok(
                World {
                    descriptor,
                    physics: PhysicsData::new(),
                    animation: AnimationData::new(),
                    mirror: MirrorChannel::new(),
                    settings: RenderGraphSettings::default(),
                    global: ScheduledGraph::global(),
                    view: ScheduledGraph::view(),
                },
            ),
            Err(e) => Err(e),
        }
    }

    /// Loads a world with the given edge length and tells whether the size
    /// changed. A world that is too large leaves everything as it is.
    pub fn load(&mut self, texture_size: u32) -> (resized: Result<bool, WorldError>)
        requires
            old(self).wf(),
        ensures
            final(self).wf(),
            final(self).physics() == old(self).physics(),
            final(self).animation() == old(self).animation(),
            final(self).mirror() == old(self).mirror(),
            final(self).settings() == old(self).settings(),
            final(self).global() == old(self).global(),
            final(self).view() == old(self).view(),
            resized.is_ok() == (voxel_count(texture_size) <= u64::MAX),
            resized.is_ok() ==> {
                &&& resized.unwrap() == (texture_size
                    != old(self).descriptor().spec_texture_size())
                &&& final(self).descriptor().spec_texture_size() == texture_size
                &&& final(self).descriptor().spec_capacity() == voxel_count(texture_size)
            },
            resized.is_err() ==> {
                &&& resized->Err_0 == WorldError::TooLarge
                &&& final(self).descriptor().spec_texture_size() == old(self).descriptor().spec_texture_size()
                &&& final(self).descriptor().spec_capacity() == old(self).descriptor().spec_capacity()
            },
    {
        self.descriptor.load(texture_size)
    }

    /// The edge length of the world, in voxels.
    pub fn texture_size(&self) -> (size: u32)
        ensures
            size == self.descriptor().spec_texture_size(),
    {
        self.descriptor.texture_size()
    }

    /// The number of the current frame: the number of frames extracted.
    pub fn frame(&self) -> (frame: u64)
        ensures
            frame == self.mirror().frame(),
    {
        self.mirror.current_frame()
    }

    /// The settings in force.
    pub fn current_settings(&self) -> (settings: RenderGraphSettings)
        ensures
            settings == self.settings(),
    {
        self.settings
    }

    /// Puts `settings` in force. Nothing else changes: a pass that is
    /// switched off keeps its place in the graph.
    pub fn set_settings(&mut self, settings: RenderGraphSettings)
        requires
            old(self).wf(),
        ensures
            final(self).wf(),
            final(self).settings() == settings,
            final(self).descriptor() == old(self).descriptor(),
            final(self).physics() == old(self).physics(),
            final(self).animation() == old(self).animation(),
            final(self).mirror() == old(self).mirror(),
            final(self).global() == old(self).global(),
            final(self).view() == old(self).view(),
    {
        self.settings = settings;
    }

    /// The physics bookkeeping.
    pub fn physics_data(&self) -> (physics: &PhysicsData)
        ensures
            *physics == self.physics(),
    {
        &self.physics
    }

    /// The sizes that this frame's passes are dispatched over.
    pub fn dispatch_sizes(&self) -> (sizes: DispatchSizes)
        ensures
            sizes == self.sizes(),
    {
        dispatch_sizes(self.descriptor.texture_size(), &self.animation, &self.physics)
    }

    /// Starts a frame: the physics-active entities are laid out anew on the
    /// data buffer, the animation size is taken over, and the read-back
    /// channel moves on by one frame.
    pub fn extract(&mut self, active: &Vec<u64>, animation_size: u32) -> (report: SlotReport)
        requires
            old(self).wf(),
            old(self).mirror().frame() < u64::MAX,
        ensures
            final(self).wf(),
            final(self).same_setup(old(self)),
            final(self).physics().slots() == assigned_slots(active@, MAX_TYPE_BUFFER_DATA as u64),
            final(self).physics().spec_buffer_length() == MAX_TYPE_BUFFER_DATA,
            final(self).animation().dispatch_size == animation_size,
            final(self).mirror().frame() == old(self).mirror().frame() + 1,
            final(self).mirror().in_flight() == (if old(self).mirror().in_flight() == Some(
                old(self).mirror().frame(),
            ) {
                old(self).mirror().in_flight()
            } else {
                None
            }),
            final(self).mirror().readable() == (if old(self).mirror().landed_frame() == Some(
                old(self).mirror().frame(),
            ) {
                old(self).mirror().landed()
            } else {
                None
            }),
            report.excluded@ == excluded_entities(active@, MAX_TYPE_BUFFER_DATA as u64),
            report.mirror_rebound == (old(self).physics().spec_buffer_length()
                != MAX_TYPE_BUFFER_DATA),
    {
        let report = self.physics.rebuild(active, MAX_TYPE_BUFFER_DATA as u64);
        self.animation.dispatch_size = animation_size;
        self.mirror.begin_frame();
        report
    }

    /// Runs the global graph for this frame and returns what the host has
    /// to record.
    pub fn record_global<R: Copy>(&self, pipelines: &PipelineStatus) -> (recorded: Vec<
        Command<R>,
    >)
        requires
            self.wf(),
        ensures
            recorded@ == frame_commands(
                self.global().graph(),
                global_order(),
                self.settings(),
                *pipelines,
                no_view::<R>(),
                self.sizes(),
            ),
    {
        let nothing: ViewResources<R> = ViewResources {
            target: false,
            uniforms: false,
            normal: None,
            position: None,
        };
        let sizes = self.dispatch_sizes();
        record(&self.global, &self.settings, pipelines, &nothing, &sizes)
    }

    /// Runs the graph of one view for this frame and returns what the host
    /// has to record. When the physics pass runs, the copy of its buffer to
    /// the mirror is under way afterwards; when physics is switched off,
    /// nothing recorded writes the physics buffer or its mirror, and the
    /// read-back channel is as it was.
    pub fn record_view<R: Copy>(&mut self, pipelines: &PipelineStatus, view: &ViewResources<R>) -> (recorded:
        Vec<Command<R>>)
        requires
            old(self).wf(),
        ensures
            final(self).wf(),
            final(self).same_setup(old(self)),
            final(self).physics() == old(self).physics(),
            final(self).animation() == old(self).animation(),
            recorded@ == frame_commands(
                old(self).view().graph(),
                view_order(),
                old(self).settings(),
                *pipelines,
                *view,
                old(self).sizes(),
            ),
            old(self).settings().physics && pipelines.physics ==> {
                &&& final(self).mirror().in_flight() == Some(old(self).mirror().frame())
                &&& final(self).mirror().frame() == old(self).mirror().frame()
                &&& final(self).mirror().landed_frame() == old(self).mirror().landed_frame()
                &&& final(self).mirror().landed() == old(self).mirror().landed()
            },
            !(old(self).settings().physics && pipelines.physics) ==> final(self).mirror() == old(self).mirror(),
            !old(self).settings().physics ==> forall|i: int|
                0 <= i < recorded@.len() ==> !writes_physics(#[trigger] recorded@[i]),
    {
        let sizes = self.dispatch_sizes();
        let recorded = record(&self.view, &self.settings, pipelines, view, &sizes);
        proof {
            if !self.settings().physics {
                lemma_physics_off_frame(
                    self.view().graph(),
                    view_order(),
                    self.settings(),
                    *pipelines,
                    *view,
                    self.sizes(),
                );
            }
        }
        if self.settings.physics && pipelines.physics {
            self.mirror.schedule_copy();
        }
        recorded
    }

    /// The copy issued in frame `issued` has completed with `data`: it
    /// lands if it is the copy under way.
    pub fn complete_copy(&mut self, issued: u64, data: Vec<u32>) -> (accepted: bool)
        requires
            old(self).wf(),
        ensures
            final(self).wf(),
            final(self).same_setup(old(self)),
            final(self).physics() == old(self).physics(),
            final(self).animation() == old(self).animation(),
            final(self).mirror().frame() == old(self).mirror().frame(),
            accepted == (old(self).mirror().in_flight() == Some(issued)),
            accepted ==> final(self).mirror().landed_frame() == Some(issued) && final(self).mirror().landed() == Some(data),
            !accepted ==> final(self).mirror() == old(self).mirror(),
    {
        self.mirror.complete(issued, data)
    }

    /// The physics state that the GPU wrote in the frame before, if its
    /// copy has landed.
    pub fn read_back(&self) -> (data: Option<&Vec<u32>>)
        requires
            self.wf(),
        ensures
            match data {
                Some(d) => self.mirror().readable() == Some(*d),
                None => self.mirror().readable().is_none(),
            },
    {
        self.mirror.read()
    }
}

} // verus!
