//! What the host has to record for a pass that ran: the dispatches, copies
//! and draws of a frame, as plain values.

use vstd::prelude::*;
use crate::compute::AnimationData;
use crate::frame::{
    Binding, NodeRun, Outcome, PipelineStatus, ScheduledGraph, ViewResources, input_resource,
    inputs_present, node_inputs, node_outcome, runs_of,
};
use crate::graph::{RenderGraph, SlotName, provides, reads};
use crate::physics::PhysicsData;
use crate::settings::{PassKind, RenderGraphSettings};

verus! {

/// One thing for the host to record, with GPU resources as handles of type
/// `R`.
#[derive(Clone, Copy, Debug, PartialEq, Eq)]
pub enum Command<R> {
    /// Dispatch the compute kernel of `pass` over `size` invocations.
    Dispatch { pass: PassKind, size: u32 },
    /// Copy `elements` elements of the physics buffer to its CPU mirror.
    CopyToMirror { elements: u64 },
    /// Draw the trace pass with the two attachments bound.
    Draw { normal: R, position: R },
    /// Run the host's own node for `pass`.
    Host { pass: PassKind },
}

/// The sizes that the compute passes are dispatched over.
#[derive(Clone, Copy, PartialEq, Eq, Structural, Debug)]
pub struct DispatchSizes {
    /// Edge length of the voxel world.
    pub world: u32,
    /// Number of animation instructions.
    pub animation: u32,
    /// Number of physics slots in use.
    pub physics: u32,
    /// Capacity of the physics buffer, in elements.
    pub physics_elements: u64,
}

/// The sizes of a frame, from the bookkeeping of the world, the animation
/// buffer and the physics slots.
pub fn dispatch_sizes(texture_size: u32, animation: &AnimationData, physics: &PhysicsData) -> (sizes:
    DispatchSizes)
    ensures
        sizes.world == texture_size,
        sizes.animation == animation.dispatch_size,
        sizes.physics == physics.spec_dispatch_size(),
        sizes.physics_elements == physics.spec_buffer_length(),
{
    DispatchSizes {
        world: texture_size,
        animation: animation.dispatch_size,
        physics: physics.dispatch_size(),
        physics_elements: physics.buffer_length(),
    }
}

/// What the host records for a pass with the given outcome and inputs: for
/// a pass that did not run, nothing.
pub open spec fn commands_of<R>(
    pass: PassKind,
    outcome: Outcome,
    inputs: Seq<Binding<R>>,
    sizes: DispatchSizes,
) -> Seq<Command<R>> {
    if outcome != Outcome::Ran {
        Seq::empty()
    } else {
        match pass {
            PassKind::Clear | PassKind::Automata | PassKind::Rebuild => seq![
                Command::Dispatch { pass, size: sizes.world },
            ],
            PassKind::Animation => seq![Command::Dispatch { pass, size: sizes.animation }],
            PassKind::Physics => seq![
                Command::Dispatch { pass, size: sizes.physics },
                Command::CopyToMirror { elements: sizes.physics_elements },
            ],
            PassKind::Trace => if inputs.len() == 2 {
                seq![Command::Draw { normal: inputs[0].resource, position: inputs[1].resource }]
            } else {
                Seq::empty()
            },
            PassKind::Attachments => Seq::empty(),
            _ => seq![Command::Host { pass }],
        }
    }
}

/// Whether a command writes the physics buffer or its mirror.
pub open spec fn writes_physics<R>(command: Command<R>) -> bool {
    match command {
        Command::Dispatch { pass, size } => pass == PassKind::Physics,
        Command::CopyToMirror { elements } => true,
        _ => false,
    }
}

/// What the host records for the run of one pass.
pub fn commands<R: Copy>(run: &NodeRun<R>, sizes: &DispatchSizes) -> (recorded: Vec<Command<R>>)
    ensures
        recorded@ == commands_of(run.pass, run.outcome, run.inputs@, *sizes),
{
    let mut recorded: Vec<Command<R>> = Vec::new();
    if run.outcome != Outcome::Ran {
        return recorded;
    }
    match run.pass {
        PassKind::Clear | PassKind::Automata | PassKind::Rebuild => {
            recorded.push(Command::Dispatch { pass: run.pass, size: sizes.world });
        },
        PassKind::Animation => {
            recorded.push(Command::Dispatch { pass: run.pass, size: sizes.animation });
        },
        PassKind::Physics => {
            recorded.push(Command::Dispatch { pass: run.pass, size: sizes.physics });
            recorded.push(Command::CopyToMirror { elements: sizes.physics_elements });
        },
        PassKind::Trace => {
            if run.inputs.len() == 2 {
                recorded.push(
                    Command::Draw {
                        normal: run.inputs[0].resource,
                        position: run.inputs[1].resource,
                    },
                );
            }
        },
        PassKind::Attachments => {},
        _ => {
            recorded.push(Command::Host { pass: run.pass });
        },
    }
    assert(recorded@ =~= commands_of(run.pass, run.outcome, run.inputs@, *sizes));
    recorded
}

/// What the host records for the pass at node `v`.
pub open spec fn node_commands<R>(
    graph: RenderGraph,
    settings: RenderGraphSettings,
    pipelines: PipelineStatus,
    view: ViewResources<R>,
    sizes: DispatchSizes,
    v: int,
) -> Seq<Command<R>> {
    commands_of(
        graph.nodes()[v],
        node_outcome(graph, settings, pipelines, view, v),
        node_inputs(graph, settings, pipelines, view, v),
        sizes,
    )
}

/// What the host records for the nodes of `order`, one after the other.
pub open spec fn frame_commands<R>(
    graph: RenderGraph,
    order: Seq<usize>,
    settings: RenderGraphSettings,
    pipelines: PipelineStatus,
    view: ViewResources<R>,
    sizes: DispatchSizes,
) -> Seq<Command<R>>
    decreases order.len(),
{
    if order.len() == 0 {
        Seq::empty()
    } else {
        frame_commands(graph, order.drop_last(), settings, pipelines, view, sizes) + node_commands(
            graph,
            settings,
            pipelines,
            view,
            sizes,
            order.last() as int,
        )
    }
}

/// Runs a graph once and returns what the host has to record, pass by pass
/// in the order of the schedule.
pub fn record<R: Copy>(
    scheduled: &ScheduledGraph,
    settings: &RenderGraphSettings,
    pipelines: &PipelineStatus,
    view: &ViewResources<R>,
    sizes: &DispatchSizes,
) -> (recorded: Vec<Command<R>>)
    requires
        scheduled.wf(),
    ensures
        recorded@ == frame_commands(
            scheduled.graph(),
            scheduled.order(),
            *settings,
            *pipelines,
            *view,
            *sizes,
        ),
{
    let runs = scheduled.run(settings, pipelines, view);
    let ghost order = scheduled.order();
    let mut recorded: Vec<Command<R>> = Vec::new();
    let mut i: usize = 0;
    assert(order.take(0) =~= Seq::<usize>::empty());
    while i < runs.len()
        invariant
            i <= runs@.len(),
            order == scheduled.order(),
            runs_of(runs@, scheduled.graph(), order, *settings, *pipelines, *view),
            recorded@ == frame_commands(
                scheduled.graph(),
                order.take(i as int),
                *settings,
                *pipelines,
                *view,
                *sizes,
            ),
        decreases runs@.len() - i,
    {
        let mut more = commands(&runs[i], sizes);
        proof {
            assert(order.take(i + 1).drop_last() =~= order.take(i as int));
            assert(order.take(i + 1).last() == order[i as int]);
            assert(runs@[i as int].pass == scheduled.graph().nodes()[order[i as int] as int]);
        }
        recorded.append(&mut more);
        i += 1;
    }
    assert(order.take(i as int) =~= order);
    recorded
}

/// A pass that is switched off does nothing: it reads no input and the
/// host records nothing for it.
pub proof fn lemma_disabled_pass_does_nothing<R>(
    graph: RenderGraph,
    settings: RenderGraphSettings,
    pipelines: PipelineStatus,
    view: ViewResources<R>,
    sizes: DispatchSizes,
    v: int,
)
    requires
        0 <= v < graph.nodes().len(),
        !settings.enables(graph.nodes()[v]),
    ensures
        node_outcome(graph, settings, pipelines, view, v) == Outcome::Disabled,
        node_inputs(graph, settings, pipelines, view, v) == Seq::<Binding<R>>::empty(),
        commands_of(
            graph.nodes()[v],
            node_outcome(graph, settings, pipelines, view, v),
            node_inputs(graph, settings, pipelines, view, v),
            sizes,
        ) == Seq::<Command<R>>::empty(),
{
}

/// With physics switched off, nothing that the host records for any pass
/// writes the physics buffer or its mirror: both stay as the frame before
/// left them, however many frames run.
pub proof fn lemma_physics_off_writes_nothing<R>(
    graph: RenderGraph,
    settings: RenderGraphSettings,
    pipelines: PipelineStatus,
    view: ViewResources<R>,
    sizes: DispatchSizes,
    v: int,
)
    requires
        0 <= v < graph.nodes().len(),
        !settings.physics,
    ensures
        forall|i: int|
            0 <= i < commands_of(
                graph.nodes()[v],
                node_outcome(graph, settings, pipelines, view, v),
                node_inputs(graph, settings, pipelines, view, v),
                sizes,
            ).len() ==> !writes_physics(
                #[trigger] commands_of(
                    graph.nodes()[v],
                    node_outcome(graph, settings, pipelines, view, v),
                    node_inputs(graph, settings, pipelines, view, v),
                    sizes,
                )[i],
            ),
{
    if graph.nodes()[v] == PassKind::Physics {
        lemma_disabled_pass_does_nothing(graph, settings, pipelines, view, sizes, v);
    }
}

/// With physics switched off, a whole frame of any graph writes neither the
/// physics buffer nor its mirror.
pub proof fn lemma_physics_off_frame<R>(
    graph: RenderGraph,
    order: Seq<usize>,
    settings: RenderGraphSettings,
    pipelines: PipelineStatus,
    view: ViewResources<R>,
    sizes: DispatchSizes,
)
    requires
        forall|i: int| 0 <= i < order.len() ==> #[trigger] order[i] < graph.nodes().len(),
        !settings.physics,
    ensures
        forall|i: int|
            0 <= i < frame_commands(graph, order, settings, pipelines, view, sizes).len()
                ==> !writes_physics(
                #[trigger] frame_commands(graph, order, settings, pipelines, view, sizes)[i],
            ),
    decreases order.len(),
{
    if order.len() > 0 {
        let sooner = order.drop_last();
        assert forall|i: int| 0 <= i < sooner.len() implies #[trigger] sooner[i]
            < graph.nodes().len() by {
            assert(sooner[i] == order[i]);
        }
        lemma_physics_off_frame(graph, sooner, settings, pipelines, view, sizes);
        assert(order[order.len() - 1] < graph.nodes().len());
        lemma_physics_off_writes_nothing(
            graph,
            settings,
            pipelines,
            view,
            sizes,
            order.last() as int,
        );
        let all = frame_commands(graph, order, settings, pipelines, view, sizes);
        let head = frame_commands(graph, sooner, settings, pipelines, view, sizes);
        let tail = node_commands(graph, settings, pipelines, view, sizes, order.last() as int);
        assert(all == head + tail);
        assert forall|i: int| 0 <= i < all.len() implies !writes_physics(#[trigger] all[i]) by {
            if i < head.len() {
                assert(all[i] == head[i]);
            } else {
                assert(all[i] == tail[i - head.len()]);
            }
        }
    }
}

/// Whether two settings agree on every pass but `pass`.
pub open spec fn differ_only_on(
    a: RenderGraphSettings,
    b: RenderGraphSettings,
    pass: PassKind,
) -> bool {
    forall|other: PassKind| other != pass ==> a.enables(other) == #[trigger] b.enables(other)
}

/// Switching a pass off or on changes what that pass does and nothing
/// else: the edges of the graph stay, and every other pass has the outcome
/// and the inputs that it would have had.
pub proof fn lemma_switch_is_local<R>(
    graph: RenderGraph,
    a: RenderGraphSettings,
    b: RenderGraphSettings,
    pass: PassKind,
    pipelines: PipelineStatus,
    view: ViewResources<R>,
    v: int,
)
    requires
        graph.wf(),
        0 <= v < graph.nodes().len(),
        differ_only_on(a, b, pass),
        pass != PassKind::Attachments,
        graph.nodes()[v] != pass,
    ensures
        node_outcome(graph, a, pipelines, view, v) == node_outcome(graph, b, pipelines, view, v),
        node_inputs(graph, a, pipelines, view, v) == node_inputs(graph, b, pipelines, view, v),
{
    assert(a.enables(graph.nodes()[v]) == b.enables(graph.nodes()[v]));
    assert(a.enables(PassKind::Attachments) == b.enables(PassKind::Attachments));
    assert forall|slot: SlotName|
        input_resource(graph, a, pipelines, view, v, slot) == input_resource(
            graph,
            b,
            pipelines,
            view,
            v,
            slot,
        ) by {
        lemma_feeder_provides(graph, v, slot);
    }
    assert(inputs_present(graph, a, pipelines, view, v) == inputs_present(
        graph,
        b,
        pipelines,
        view,
        v,
    )) by {
        assert(input_resource(graph, a, pipelines, view, v, SlotName::Normal) == input_resource(
            graph,
            b,
            pipelines,
            view,
            v,
            SlotName::Normal,
        ));
        assert(input_resource(graph, a, pipelines, view, v, SlotName::Position)
            == input_resource(graph, b, pipelines, view, v, SlotName::Position));
    }
}

/// The pass at the far end of a feeding edge is one that provides.
proof fn lemma_feeder_provides(graph: RenderGraph, v: int, slot: SlotName)
    requires
        graph.wf(),
    ensures
        graph.feeder(v, slot).is_some() ==> {
            let edge = graph.feeder(v, slot).unwrap();
            &&& 0 <= edge.from < graph.nodes().len()
            &&& graph.nodes()[edge.from as int] == PassKind::Attachments
        },
{
    if graph.feeder(v, slot).is_some() {
        let i = crate::graph::feeder_index(graph.slot_edges(), v, slot);
        assert(provides(graph.nodes()[graph.slot_edges()[i].from as int], graph.slot_edges()[i].output));
    }
}

/// A view that lacks an attachment loses its attachments pass and its trace
/// pass for the frame, and nothing else: every other pass has the outcome
/// that it has for a view with both attachments.
pub proof fn lemma_missing_attachment_is_local<R>(
    graph: RenderGraph,
    settings: RenderGraphSettings,
    pipelines: PipelineStatus,
    bare: ViewResources<R>,
    full: ViewResources<R>,
    v: int,
)
    requires
        graph.wf(),
        graph.inputs_bound(),
        0 <= v < graph.nodes().len(),
        bare.normal.is_none() || bare.position.is_none(),
        bare.target == full.target,
        bare.uniforms == full.uniforms,
    ensures
        graph.nodes()[v] == PassKind::Attachments || graph.nodes()[v] == PassKind::Trace
            ==> node_outcome(graph, settings, pipelines, bare, v) != Outcome::Ran,
        graph.nodes()[v] != PassKind::Attachments && graph.nodes()[v] != PassKind::Trace
            ==> node_outcome(graph, settings, pipelines, bare, v) == node_outcome(
            graph,
            settings,
            pipelines,
            full,
            v,
        ),
{
    let pass = graph.nodes()[v];
    if pass == PassKind::Trace {
        lemma_feeder_provides(graph, v, SlotName::Normal);
        lemma_feeder_provides(graph, v, SlotName::Position);
        assert(reads(pass, SlotName::Normal));
        assert(input_resource(graph, settings, pipelines, bare, v, SlotName::Normal).is_none());
    } else if pass != PassKind::Attachments {
        assert(inputs_present(graph, settings, pipelines, bare, v));
        assert(inputs_present(graph, settings, pipelines, full, v));
    }
}

} // verus!
