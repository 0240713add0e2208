//! Running a graph for a frame: every pass in the order of the graph's
//! schedule, each deciding from the settings and from what is there whether
//! it runs, and each input resolved to the resource that its provider
//! hands over.

use vstd::prelude::*;
use crate::graph::{GraphError, RenderGraph, SlotName, reads};
use crate::pipeline::{
    global_graph, global_order, is_global_graph, is_view_graph, lemma_global_order,
    lemma_view_order, lemma_view_order_runs, view_graph, view_order,
};
use crate::settings::{PassKind, RenderGraphSettings};

verus! {

/// What a pass did in a frame.
#[derive(Clone, Copy, PartialEq, Eq, Structural, Debug)]
pub enum Outcome {
    /// The pass did its work.
    Ran,
    /// The pass is switched off: it did nothing, and what it would have
    /// written is as the frame before left it.
    Disabled,
    /// Something that the pass needs is missing this frame: it did nothing,
    /// and is tried again next frame.
    Skipped,
}

/// Which pipelines are compiled and ready.
#[derive(Clone, Copy, PartialEq, Eq, Structural, Debug)]
pub struct PipelineStatus {
    pub clear: bool,
    pub automata: bool,
    pub animation: bool,
    pub rebuild: bool,
    pub physics: bool,
    pub trace: bool,
}

impl PipelineStatus {
    /// Whether the pipeline of `pass` is ready: a pass of the host has none
    /// of ours to wait for.
    pub open spec fn has(&self, pass: PassKind) -> bool {
        match pass {
            PassKind::Clear => self.clear,
            PassKind::Automata => self.automata,
            PassKind::Animation => self.animation,
            PassKind::Rebuild => self.rebuild,
            PassKind::Physics => self.physics,
            PassKind::Trace => self.trace,
            _ => true,
        }
    }

    /// Whether the pipeline of `pass` is ready.
    pub fn is_ready(&self, pass: PassKind) -> (ready: bool)
        ensures
            ready == self.has(pass),
    {
        match pass {
            PassKind::Clear => self.clear,
            PassKind::Automata => self.automata,
            PassKind::Animation => self.animation,
            PassKind::Rebuild => self.rebuild,
            PassKind::Physics => self.physics,
            PassKind::Trace => self.trace,
            _ => true,
        }
    }
}

/// What a view has this frame, with GPU resources as handles of type `R`.
#[derive(Clone, Copy, Debug, PartialEq, Eq)]
pub struct ViewResources<R> {
    /// The view has a target to render into.
    pub target: bool,
    /// The view's uniforms are written.
    pub uniforms: bool,
    /// The view's normal attachment, if it has one and it is uploaded.
    pub normal: Option<R>,
    /// The view's position attachment, if it has one and it is uploaded.
    pub position: Option<R>,
}

/// A resource bound to a named input.
#[derive(Clone, Copy, Debug, PartialEq, Eq)]
pub struct Binding<R> {
    pub slot: SlotName,
    pub resource: R,
}

/// What one pass did for one view, and the resources it read.
#[derive(Clone, Debug, PartialEq, Eq)]
pub struct NodeRun<R> {
    pub node: usize,
    pub pass: PassKind,
    pub outcome: Outcome,
    pub inputs: Vec<Binding<R>>,
}

/// Whether `pass` has what it needs of its own: its pipeline, and for
/// trace the view's target and uniforms, for the attachments both images.
pub open spec fn requirements_met<R>(
    pass: PassKind,
    pipelines: PipelineStatus,
    view: ViewResources<R>,
) -> bool {
    match pass {
        PassKind::Attachments => view.normal.is_some() && view.position.is_some(),
        PassKind::Trace => pipelines.trace && view.target && view.uniforms,
        _ => pipelines.has(pass),
    }
}

/// The resource that `pass` provides under the name `slot`.
pub open spec fn provided<R>(pass: PassKind, slot: SlotName, view: ViewResources<R>) -> Option<R> {
    match pass {
        PassKind::Attachments => match slot {
            SlotName::Normal => view.normal,
            SlotName::Position => view.position,
        },
        _ => None,
    }
}

/// What `pass` does as far as it depends on the pass alone: nothing if it
/// is switched off, nothing if it lacks what it needs, its work otherwise.
pub open spec fn own_outcome<R>(
    pass: PassKind,
    settings: RenderGraphSettings,
    pipelines: PipelineStatus,
    view: ViewResources<R>,
) -> Outcome {
    if !settings.enables(pass) {
        Outcome::Disabled
    } else if !requirements_met(pass, pipelines, view) {
        Outcome::Skipped
    } else {
        Outcome::Ran
    }
}

/// The resource that reaches the input `slot` of node `v`: what the pass at
/// the other end of the feeding edge provides, if that pass runs.
pub open spec fn input_resource<R>(
    graph: RenderGraph,
    settings: RenderGraphSettings,
    pipelines: PipelineStatus,
    view: ViewResources<R>,
    v: int,
    slot: SlotName,
) -> Option<R> {
    match graph.feeder(v, slot) {
        Some(edge) => {
            let source = graph.nodes()[edge.from as int];
            if own_outcome(source, settings, pipelines, view) == Outcome::Ran {
                provided(source, edge.output, view)
            } else {
                None
            }
        },
        None => None,
    }
}

/// Whether a resource reaches every input that the pass at node `v` reads.
pub open spec fn inputs_present<R>(
    graph: RenderGraph,
    settings: RenderGraphSettings,
    pipelines: PipelineStatus,
    view: ViewResources<R>,
    v: int,
) -> bool {
    forall|slot: SlotName|
        reads(graph.nodes()[v], slot) ==> (#[trigger] input_resource(
            graph,
            settings,
            pipelines,
            view,
            v,
            slot,
        )).is_some()
}

/// What the pass at node `v` does for a view.
pub open spec fn node_outcome<R>(
    graph: RenderGraph,
    settings: RenderGraphSettings,
    pipelines: PipelineStatus,
    view: ViewResources<R>,
    v: int,
) -> Outcome {
    let own = own_outcome(graph.nodes()[v], settings, pipelines, view);
    if own == Outcome::Ran && !inputs_present(graph, settings, pipelines, view, v) {
        Outcome::Skipped
    } else {
        own
    }
}

/// The binding of the input `slot` of node `v`, if the pass there reads it.
pub open spec fn slot_binding<R>(
    graph: RenderGraph,
    settings: RenderGraphSettings,
    pipelines: PipelineStatus,
    view: ViewResources<R>,
    v: int,
    slot: SlotName,
) -> Seq<Binding<R>> {
    if reads(graph.nodes()[v], slot) {
        seq![
            Binding {
                slot,
                resource: input_resource(graph, settings, pipelines, view, v, slot).unwrap(),
            },
        ]
    } else {
        Seq::empty()
    }
}

/// The resources that the pass at node `v` reads, by input: those of a pass
/// that runs, none of a pass that does not.
pub open spec fn node_inputs<R>(
    graph: RenderGraph,
    settings: RenderGraphSettings,
    pipelines: PipelineStatus,
    view: ViewResources<R>,
    v: int,
) -> Seq<Binding<R>> {
    if node_outcome(graph, settings, pipelines, view, v) == Outcome::Ran {
        slot_binding(graph, settings, pipelines, view, v, SlotName::Normal) + slot_binding(
            graph,
            settings,
            pipelines,
            view,
            v,
            SlotName::Position,
        )
    } else {
        Seq::empty()
    }
}

/// Whether `runs` is what the nodes of `order` do for `view`, node by node.
pub open spec fn runs_of<R>(
    runs: Seq<NodeRun<R>>,
    graph: RenderGraph,
    order: Seq<usize>,
    settings: RenderGraphSettings,
    pipelines: PipelineStatus,
    view: ViewResources<R>,
) -> bool {
    &&& runs.len() == order.len()
    &&& forall|i: int|
        0 <= i < runs.len() ==> {
            let v = order[i];
            &&& (#[trigger] runs[i]).node == v
            &&& runs[i].pass == graph.nodes()[v as int]
            &&& runs[i].outcome == node_outcome(graph, settings, pipelines, view, v as int)
            &&& runs[i].inputs@ == node_inputs(graph, settings, pipelines, view, v as int)
        }
}

/// What `pass` does as far as it depends on the pass alone.
fn decide<R: Copy>(
    pass: PassKind,
    settings: &RenderGraphSettings,
    pipelines: &PipelineStatus,
    view: &ViewResources<R>,
) -> (outcome: Outcome)
    ensures
        outcome == own_outcome(pass, *settings, *pipelines, *view),
{
    if !settings.is_enabled(pass) {
        return Outcome::Disabled;
    }
    let met = match pass {
        PassKind::Attachments => view.normal.is_some() && view.position.is_some(),
        PassKind::Trace => pipelines.trace && view.target && view.uniforms,
        _ => pipelines.is_ready(pass),
    };
    if met {
        Outcome::Ran
    } else {
        Outcome::Skipped
    }
}

/// The resource that reaches the input `slot` of node `v`.
fn resolve<R: Copy>(
    graph: &RenderGraph,
    settings: &RenderGraphSettings,
    pipelines: &PipelineStatus,
    view: &ViewResources<R>,
    v: usize,
    slot: SlotName,
) -> (resource: Option<R>)
    requires
        graph.wf(),
        v < graph.nodes().len(),
    ensures
        resource == input_resource(*graph, *settings, *pipelines, *view, v as int, slot),
{
    match graph.feeding_edge(v, slot) {
        Some(edge) => {
            let source = graph.pass(edge.from);
            match decide(source, settings, pipelines, view) {
                Outcome::Ran => match source {
                    PassKind::Attachments => match edge.output {
                        SlotName::Normal => view.normal,
                        SlotName::Position => view.position,
                    },
                    _ => None,
                },
                _ => None,
            }
        },
        None => None,
    }
}

/// What the pass at node `v` does for a view, and the resources it reads.
fn run_node<R: Copy>(
    graph: &RenderGraph,
    settings: &RenderGraphSettings,
    pipelines: &PipelineStatus,
    view: &ViewResources<R>,
    v: usize,
) -> (run: NodeRun<R>)
    requires
        graph.wf(),
        v < graph.nodes().len(),
    ensures
        run.node == v,
        run.pass == graph.nodes()[v as int],
        run.outcome == node_outcome(*graph, *settings, *pipelines, *view, v as int),
        run.inputs@ == node_inputs(*graph, *settings, *pipelines, *view, v as int),
{
    let pass = graph.pass(v);
    let mut inputs: Vec<Binding<R>> = Vec::new();
    let own = decide(pass, settings, pipelines, view);
    if own != Outcome::Ran {
        return NodeRun { node: v, pass, outcome: own, inputs };
    }
    let reads_inputs = crate::graph::has_input(pass, SlotName::Normal);
    if !reads_inputs {
        proof {
            assert(inputs_present(*graph, *settings, *pipelines, *view, v as int));
            assert(inputs@ =~= node_inputs(*graph, *settings, *pipelines, *view, v as int));
        }
        return NodeRun { node: v, pass, outcome: Outcome::Ran, inputs };
    }
    let normal = resolve(graph, settings, pipelines, view, v, SlotName::Normal);
    let position = resolve(graph, settings, pipelines, view, v, SlotName::Position);
    match (normal, position) {
        (Some(normal), Some(position)) => {
            inputs.push(Binding { slot: SlotName::Normal, resource: normal });
            inputs.push(Binding { slot: SlotName::Position, resource: position });
            proof {
                assert forall|slot: SlotName|
                    reads(graph.nodes()[v as int], slot) implies (#[trigger] input_resource(
                    *graph,
                    *settings,
                    *pipelines,
                    *view,
                    v as int,
                    slot,
                )).is_some() by {
                    match slot {
                        SlotName::Normal => {},
                        SlotName::Position => {},
                    }
                }
                assert(inputs@ =~= node_inputs(*graph, *settings, *pipelines, *view, v as int));
            }
            NodeRun { node: v, pass, outcome: Outcome::Ran, inputs }
        },
        _ => {
            proof {
                if normal.is_none() {
                    assert(input_resource(
                        *graph,
                        *settings,
                        *pipelines,
                        *view,
                        v as int,
                        SlotName::Normal,
                    ).is_none());
                } else {
                    assert(input_resource(
                        *graph,
                        *settings,
                        *pipelines,
                        *view,
                        v as int,
                        SlotName::Position,
                    ).is_none());
                }
                assert(!inputs_present(*graph, *settings, *pipelines, *view, v as int));
            }
            NodeRun { node: v, pass, outcome: Outcome::Skipped, inputs }
        },
    }
}

/// A graph together with the order in which its passes run.
pub struct ScheduledGraph {
    graph: RenderGraph,
    order: Vec<usize>,
}

impl ScheduledGraph {
    /// The graph.
    pub closed spec fn graph(&self) -> RenderGraph {
        self.graph
    }

    /// The order in which the passes run, by node.
    pub closed spec fn order(&self) -> Seq<usize> {
        self.order@
    }

    /// The order is an order of execution of the graph.
    pub open spec fn wf(&self) -> bool {
        &&& self.graph().wf()
        &&& self.graph().inputs_bound()
        &&& self.graph().is_schedule(self.order())
    }

    /// Schedules `graph`, once, when the graph is built.
    pub fn build(graph: RenderGraph) -> (scheduled: Result<ScheduledGraph, GraphError>)
        requires
            graph.wf(),
        ensures
            match scheduled {
                Ok(s) => s.wf() && s.graph() == graph && graph.greedy(s.order()),
                Err(e) => if graph.inputs_bound() {
                    e == GraphError::Cycle && forall|o: Seq<usize>| !graph.is_schedule(o)
                } else {
                    e == GraphError::UnboundInput
                },
            },
    {
        match graph.schedule() {
            Ok(order) => Ok(ScheduledGraph { graph, order }),
            Err(e) => Err(e),
        }
    }

    /// The global graph with its order: clear, automata, animation, and the
    /// hand-over to the views.
    pub fn global() -> (scheduled: ScheduledGraph)
        ensures
            scheduled.wf(),
            is_global_graph(scheduled.graph()),
            scheduled.order() == global_order(),
    {
        let graph = global_graph();
        proof {
            lemma_global_order(graph, global_order());
            assert(graph.inputs_bound());
        }
        match graph.schedule() {
            Ok(order) => {
                proof {
                    lemma_global_order(graph, order@);
                }
                ScheduledGraph { graph, order }
            },
            Err(_) => {
                assert(false);
                ScheduledGraph { graph, order: Vec::new() }
            },
        }
    }

    /// The graph of a view with its order: attachments, rebuild, physics,
    /// trace, tonemapping, fxaa, ui, upscaling.
    pub fn view() -> (scheduled: ScheduledGraph)
        ensures
            scheduled.wf(),
            is_view_graph(scheduled.graph()),
            scheduled.order() == view_order(),
    {
        let graph = view_graph();
        proof {
            lemma_view_order_runs(graph);
        }
        match graph.schedule() {
            Ok(order) => {
                proof {
                    lemma_view_order(graph, order@);
                }
                ScheduledGraph { graph, order }
            },
            Err(_) => {
                assert(false);
                ScheduledGraph { graph, order: Vec::new() }
            },
        }
    }

    /// The nodes in the order in which they run.
    pub fn node_order(&self) -> (order: &Vec<usize>)
        ensures
            order@ == self.order(),
    {
        &self.order
    }

    /// The graph that was scheduled.
    pub fn render_graph(&self) -> (graph: &RenderGraph)
        ensures
            *graph == self.graph(),
    {
        &self.graph
    }

    /// The passes in the order in which they run.
    pub fn passes(&self) -> (passes: Vec<PassKind>)
        requires
            self.wf(),
        ensures
            passes@.len() == self.order().len(),
            forall|i: int|
                0 <= i < passes@.len() ==> passes@[i] == self.graph().nodes()[self.order()[i] as int],
    {
        let mut passes: Vec<PassKind> = Vec::new();
        let mut i: usize = 0;
        while i < self.order.len()
            invariant
                self.wf(),
                i <= self.order@.len(),
                passes@.len() == i,
                forall|j: int|
                    0 <= j < i ==> passes@[j] == self.graph().nodes()[self.order()[j] as int],
            decreases self.order@.len() - i,
        {
            let v = self.order[i];
            assert(self.order()[i as int] < self.graph().nodes().len());
            passes.push(self.graph.pass(v));
            i += 1;
        }
        passes
    }

    /// What the pass `pass` does for a view, and the resources it reads,
    /// if the pass is in the graph.
    pub fn run_pass<R: Copy>(
        &self,
        pass: PassKind,
        settings: &RenderGraphSettings,
        pipelines: &PipelineStatus,
        view: &ViewResources<R>,
    ) -> (run: Option<NodeRun<R>>)
        requires
            self.wf(),
        ensures
            run.is_some() == self.graph().nodes().contains(pass),
            run.is_some() ==> {
                let v = run.unwrap().node;
                &&& v < self.graph().nodes().len()
                &&& self.graph().nodes()[v as int] == pass
                &&& run.unwrap().pass == pass
                &&& run.unwrap().outcome == node_outcome(
                    self.graph(),
                    *settings,
                    *pipelines,
                    *view,
                    v as int,
                )
                &&& run.unwrap().inputs@ == node_inputs(
                    self.graph(),
                    *settings,
                    *pipelines,
                    *view,
                    v as int,
                )
            },
    {
        match self.graph.node_index(pass) {
            Some(v) => Some(run_node(&self.graph, settings, pipelines, view, v)),
            None => None,
        }
    }

    /// Runs the graph once: every pass in order, each with the outcome that
    /// the settings, the pipelines and the view's resources give it, and
    /// with its inputs resolved to what its providers hand over. A pass
    /// that is switched off or lacks something is passed over, and the
    /// passes after it still run.
    pub fn run<R: Copy>(
        &self,
        settings: &RenderGraphSettings,
        pipelines: &PipelineStatus,
        view: &ViewResources<R>,
    ) -> (runs: Vec<NodeRun<R>>)
        requires
            self.wf(),
        ensures
            runs_of(runs@, self.graph(), self.order(), *settings, *pipelines, *view),
    {
        let mut runs: Vec<NodeRun<R>> = Vec::new();
        let mut i: usize = 0;
        while i < self.order.len()
            invariant
                self.wf(),
                i <= self.order@.len(),
                runs@.len() == i,
                forall|j: int|
                    0 <= j < i ==> {
                        let v = self.order()[j];
                        &&& (#[trigger] runs@[j]).node == v
                        &&& runs@[j].pass == self.graph().nodes()[v as int]
                        &&& runs@[j].outcome == node_outcome(
                            self.graph(),
                            *settings,
                            *pipelines,
                            *view,
                            v as int,
                        )
                        &&& runs@[j].inputs@ == node_inputs(
                            self.graph(),
                            *settings,
                            *pipelines,
                            *view,
                            v as int,
                        )
                    },
            decreases self.order@.len() - i,
        {
            let v = self.order[i];
            assert(self.order()[i as int] < self.graph().nodes().len());
            let run = run_node(&self.graph, settings, pipelines, view, v);
            runs.push(run);
            i += 1;
        }
        runs
    }

    /// Runs the graph once for each view. Every view gets what it would get
    /// alone: what one view lacks costs no other view a pass.
    pub fn run_views<R: Copy>(
        &self,
        settings: &RenderGraphSettings,
        pipelines: &PipelineStatus,
        views: &Vec<ViewResources<R>>,
    ) -> (runs: Vec<Vec<NodeRun<R>>>)
        requires
            self.wf(),
        ensures
            runs@.len() == views@.len(),
            forall|k: int|
                0 <= k < runs@.len() ==> runs_of(
                    (#[trigger] runs@[k])@,
                    self.graph(),
                    self.order(),
                    *settings,
                    *pipelines,
                    views@[k],
                ),
    {
        let mut runs: Vec<Vec<NodeRun<R>>> = Vec::new();
        let mut k: usize = 0;
        while k < views.len()
            invariant
                self.wf(),
                k <= views@.len(),
                runs@.len() == k,
                forall|j: int|
                    0 <= j < k ==> runs_of(
                        (#[trigger] runs@[j])@,
                        self.graph(),
                        self.order(),
                        *settings,
                        *pipelines,
                        views@[j],
                    ),
            decreases views@.len() - k,
        {
            let one = self.run(settings, pipelines, &views[k]);
            runs.push(one);
            k += 1;
        }
        runs
    }
}

/// A pass runs after every pass that it depends on: in the runs of a
/// frame, the pass at the source of an edge comes before the pass at its
/// target, and so a resource is handed over before it is read.
pub proof fn lemma_runs_follow_edges<R>(
    scheduled: ScheduledGraph,
    runs: Seq<NodeRun<R>>,
    settings: RenderGraphSettings,
    pipelines: PipelineStatus,
    view: ViewResources<R>,
    i: int,
    j: int,
)
    requires
        scheduled.wf(),
        runs_of(runs, scheduled.graph(), scheduled.order(), settings, pipelines, view),
        0 <= i < runs.len(),
        0 <= j < runs.len(),
        scheduled.graph().precedes(runs[i].node as int, runs[j].node as int),
    ensures
        i < j,
{
    let order = scheduled.order();
    assert(runs[i].node == order[i]);
    assert(runs[j].node == order[j]);
    assert(scheduled.graph().precedes(order[i] as int, order[j] as int));
}

} // verus!
