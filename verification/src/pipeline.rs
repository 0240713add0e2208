//! The two graphs of a frame: the global chain of compute passes, which
//! runs once, and the graph of a view, which runs once per active view.

use vstd::prelude::*;
use crate::graph::{NodeEdge, RenderGraph, SlotEdge, SlotName};
use crate::settings::PassKind;

verus! {

/// The passes of the global graph, by node.
pub open spec fn global_nodes() -> Seq<PassKind> {
    seq![PassKind::Clear, PassKind::Automata, PassKind::Animation, PassKind::CameraDriver]
}

/// The edges of the global graph: clear, then automata, then animation,
/// then the hand-over to the views.
pub open spec fn global_edges() -> Seq<NodeEdge> {
    seq![
        NodeEdge { from: 0, to: 1 },
        NodeEdge { from: 1, to: 2 },
        NodeEdge { from: 2, to: 3 },
    ]
}

/// The passes of a view's graph, by node.
pub open spec fn view_nodes() -> Seq<PassKind> {
    seq![
        PassKind::Attachments,
        PassKind::Trace,
        PassKind::Tonemapping,
        PassKind::Fxaa,
        PassKind::Ui,
        PassKind::Upscaling,
        PassKind::Rebuild,
        PassKind::Physics,
    ]
}

/// The ordering edges of a view's graph: the raster chain from trace to
/// upscaling, and the compute chain from rebuild over physics into trace.
pub open spec fn view_edges() -> Seq<NodeEdge> {
    seq![
        NodeEdge { from: 1, to: 2 },
        NodeEdge { from: 2, to: 3 },
        NodeEdge { from: 3, to: 4 },
        NodeEdge { from: 4, to: 5 },
        NodeEdge { from: 6, to: 7 },
        NodeEdge { from: 7, to: 1 },
    ]
}

/// The resource edges of a view's graph: the attachments hand their normal
/// and position targets to trace, each by name.
pub open spec fn view_slot_edges() -> Seq<SlotEdge> {
    seq![
        SlotEdge { from: 0, output: SlotName::Normal, to: 1, input: SlotName::Normal },
        SlotEdge { from: 0, output: SlotName::Position, to: 1, input: SlotName::Position },
    ]
}

/// The order in which the passes of the global graph run, by node.
pub open spec fn global_order() -> Seq<usize> {
    seq![0usize, 1usize, 2usize, 3usize]
}

/// The order in which the passes of a view's graph run, by node:
/// attachments, rebuild, physics, trace, tonemapping, fxaa, ui, upscaling.
pub open spec fn view_order() -> Seq<usize> {
    seq![0usize, 6usize, 7usize, 1usize, 2usize, 3usize, 4usize, 5usize]
}

/// Adds a pass that is not in the graph yet.
fn place(graph: &mut RenderGraph, pass: PassKind)
    requires
        old(graph).wf(),
        !old(graph).nodes().contains(pass),
    ensures
        final(graph).wf(),
        final(graph).nodes() == old(graph).nodes().push(pass),
        final(graph).node_edges() == old(graph).node_edges(),
        final(graph).slot_edges() == old(graph).slot_edges(),
{
    let added = graph.add_node(pass);
    assert(added.is_ok());
}

/// Orders the pass at node `a` before the pass at node `b`, with an edge
/// that is not in the graph yet.
fn chain(graph: &mut RenderGraph, from: PassKind, to: PassKind, Ghost(a): Ghost<int>, Ghost(b): Ghost<int>)
    requires
        old(graph).wf(),
        0 <= a < old(graph).nodes().len(),
        0 <= b < old(graph).nodes().len(),
        old(graph).nodes()[a] == from,
        old(graph).nodes()[b] == to,
        !old(graph).node_edges().contains(NodeEdge { from: a as usize, to: b as usize }),
    ensures
        final(graph).wf(),
        final(graph).nodes() == old(graph).nodes(),
        final(graph).slot_edges() == old(graph).slot_edges(),
        final(graph).node_edges() == old(graph).node_edges().push(
            NodeEdge { from: a as usize, to: b as usize },
        ),
{
    proof {
        graph.lemma_index_of(a);
        graph.lemma_index_of(b);
    }
    let added = graph.add_node_edge(from, to);
    assert(added.is_ok());
}

/// Hands the output `slot` of the pass at node `a` to the input of the same
/// name of the pass at node `b`.
fn hand_over(
    graph: &mut RenderGraph,
    from: PassKind,
    to: PassKind,
    slot: SlotName,
    Ghost(a): Ghost<int>,
    Ghost(b): Ghost<int>,
)
    requires
        old(graph).wf(),
        0 <= a < old(graph).nodes().len(),
        0 <= b < old(graph).nodes().len(),
        old(graph).nodes()[a] == from,
        old(graph).nodes()[b] == to,
        from == PassKind::Attachments,
        to == PassKind::Trace,
        !crate::graph::input_fed(old(graph).slot_edges(), b, slot),
    ensures
        final(graph).wf(),
        final(graph).nodes() == old(graph).nodes(),
        final(graph).node_edges() == old(graph).node_edges(),
        final(graph).slot_edges() == old(graph).slot_edges().push(
            SlotEdge { from: a as usize, output: slot, to: b as usize, input: slot },
        ),
{
    proof {
        graph.lemma_index_of(a);
        graph.lemma_index_of(b);
    }
    let added = graph.add_slot_edge(from, slot, to, slot);
    assert(added.is_ok());
}

/// The global graph: clear, automata and animation in a chain that ends in
/// the hand-over to the views.
pub fn global_graph() -> (graph: RenderGraph)
    ensures
        graph.wf(),
        graph.nodes() == global_nodes(),
        graph.node_edges() == global_edges(),
        graph.slot_edges() == Seq::<SlotEdge>::empty(),
{
    broadcast use vstd::seq_lib::lemma_seq_contains_after_push;
    broadcast use vstd::seq_lib::lemma_seq_empty_contains_nothing;

    let mut graph = RenderGraph::new();
    place(&mut graph, PassKind::Clear);
    place(&mut graph, PassKind::Automata);
    place(&mut graph, PassKind::Animation);
    place(&mut graph, PassKind::CameraDriver);
    assert(graph.nodes() =~= global_nodes());
    chain(&mut graph, PassKind::Clear, PassKind::Automata, Ghost(0), Ghost(1));
    chain(&mut graph, PassKind::Automata, PassKind::Animation, Ghost(1), Ghost(2));
    chain(&mut graph, PassKind::Animation, PassKind::CameraDriver, Ghost(2), Ghost(3));
    assert(graph.node_edges() =~= global_edges());
    graph
}

/// The graph of a view: the attachments feed trace by name, rebuild and
/// physics run before trace, and the raster chain runs after it.
pub fn view_graph() -> (graph: RenderGraph)
    ensures
        graph.wf(),
        graph.nodes() == view_nodes(),
        graph.node_edges() == view_edges(),
        graph.slot_edges() == view_slot_edges(),
{
    broadcast use vstd::seq_lib::lemma_seq_contains_after_push;
    broadcast use vstd::seq_lib::lemma_seq_empty_contains_nothing;

    let mut graph = RenderGraph::new();
    place(&mut graph, PassKind::Attachments);
    place(&mut graph, PassKind::Trace);
    place(&mut graph, PassKind::Tonemapping);
    place(&mut graph, PassKind::Fxaa);
    place(&mut graph, PassKind::Ui);
    place(&mut graph, PassKind::Upscaling);
    place(&mut graph, PassKind::Rebuild);
    place(&mut graph, PassKind::Physics);
    assert(graph.nodes() =~= view_nodes());
    chain(&mut graph, PassKind::Trace, PassKind::Tonemapping, Ghost(1), Ghost(2));
    chain(&mut graph, PassKind::Tonemapping, PassKind::Fxaa, Ghost(2), Ghost(3));
    chain(&mut graph, PassKind::Fxaa, PassKind::Ui, Ghost(3), Ghost(4));
    chain(&mut graph, PassKind::Ui, PassKind::Upscaling, Ghost(4), Ghost(5));
    chain(&mut graph, PassKind::Rebuild, PassKind::Physics, Ghost(6), Ghost(7));
    chain(&mut graph, PassKind::Physics, PassKind::Trace, Ghost(7), Ghost(1));
    assert(graph.node_edges() =~= view_edges());
    hand_over(&mut graph, PassKind::Attachments, PassKind::Trace, SlotName::Normal, Ghost(0), Ghost(1));
    assert(graph.slot_edges()[0].input == SlotName::Normal);
    hand_over(
        &mut graph,
        PassKind::Attachments,
        PassKind::Trace,
        SlotName::Position,
        Ghost(0),
        Ghost(1),
    );
    assert(graph.slot_edges() =~= view_slot_edges());
    graph
}

/// Whether `graph` is the global graph.
pub open spec fn is_global_graph(graph: RenderGraph) -> bool {
    &&& graph.nodes() == global_nodes()
    &&& graph.node_edges() == global_edges()
    &&& graph.slot_edges() == Seq::<SlotEdge>::empty()
}

/// Whether `graph` is the graph of a view.
pub open spec fn is_view_graph(graph: RenderGraph) -> bool {
    &&& graph.nodes() == view_nodes()
    &&& graph.node_edges() == view_edges()
    &&& graph.slot_edges() == view_slot_edges()
}

/// The position of node `v` in an order that holds it.
spec fn position(order: Seq<usize>, v: usize) -> int {
    choose|k: int| 0 <= k < order.len() && order[k] == v
}

proof fn lemma_position(order: Seq<usize>, v: usize)
    requires
        order.contains(v),
    ensures
        0 <= position(order, v) < order.len(),
        order[position(order, v)] == v,
{
}

/// The edges of the global graph, one by one.
proof fn lemma_global_precedes(graph: RenderGraph)
    requires
        is_global_graph(graph),
    ensures
        graph.precedes(0, 1),
        graph.precedes(1, 2),
        graph.precedes(2, 3),
        forall|u: int, v: int| graph.precedes(u, v) ==> v == u + 1 && 0 <= u < 3,
{
    let edges = graph.node_edges();
    assert(edges[0] == NodeEdge { from: 0, to: 1 });
    assert(edges[1] == NodeEdge { from: 1, to: 2 });
    assert(edges[2] == NodeEdge { from: 2, to: 3 });
    assert forall|u: int, v: int| graph.precedes(u, v) implies v == u + 1 && 0 <= u < 3 by {
        let i = choose|i: int|
            0 <= i < edges.len() && (#[trigger] edges[i]).from == u && edges[i].to == v;
        if i == 0 {
        } else if i == 1 {
        } else {
            assert(i == 2);
        }
    }
}

/// The global graph has one order of execution: clear, automata,
/// animation, and then the hand-over to the views.
pub proof fn lemma_global_order(graph: RenderGraph, order: Seq<usize>)
    requires
        is_global_graph(graph),
    ensures
        graph.is_schedule(order) <==> order == global_order(),
{
    lemma_global_precedes(graph);
    if graph.is_schedule(order) {
        lemma_position(order, 0);
        lemma_position(order, 1);
        lemma_position(order, 2);
        lemma_position(order, 3);
        let at_clear = position(order, 0);
        let at_automata = position(order, 1);
        let at_animation = position(order, 2);
        let at_driver = position(order, 3);
        assert(graph.precedes(order[at_clear] as int, order[at_automata] as int));
        assert(graph.precedes(order[at_automata] as int, order[at_animation] as int));
        assert(graph.precedes(order[at_animation] as int, order[at_driver] as int));
        assert(order =~= global_order());
    }
    if order == global_order() {
        assert(order.no_duplicates());
        assert forall|v: usize| v < graph.nodes().len() implies #[trigger] order.contains(v) by {
            assert(order[v as int] == v);
        }
        assert forall|i: int, j: int|
            0 <= i < order.len() && 0 <= j < order.len() && graph.precedes(
                #[trigger] order[i] as int,
                #[trigger] order[j] as int,
            ) implies i < j by {
            assert(order[i] == i && order[j] == j);
        }
    }
}

/// The edges of a view's graph, one by one.
proof fn lemma_view_precedes(graph: RenderGraph)
    requires
        is_view_graph(graph),
    ensures
        graph.precedes(1, 2),
        graph.precedes(2, 3),
        graph.precedes(3, 4),
        graph.precedes(4, 5),
        graph.precedes(6, 7),
        graph.precedes(7, 1),
        graph.precedes(0, 1),
        forall|u: int, v: int|
            graph.precedes(u, v) ==> (u == 0 && v == 1) || (u == 7 && v == 1) || (u == 6 && v == 7)
                || (1 <= u < 5 && v == u + 1),
{
    let edges = graph.node_edges();
    let slots = graph.slot_edges();
    assert(edges[0] == NodeEdge { from: 1, to: 2 });
    assert(edges[1] == NodeEdge { from: 2, to: 3 });
    assert(edges[2] == NodeEdge { from: 3, to: 4 });
    assert(edges[3] == NodeEdge { from: 4, to: 5 });
    assert(edges[4] == NodeEdge { from: 6, to: 7 });
    assert(edges[5] == NodeEdge { from: 7, to: 1 });
    assert(slots[0].from == 0 && slots[0].to == 1);
    assert(slots[1].from == 0 && slots[1].to == 1);
    assert forall|u: int, v: int| graph.precedes(u, v) implies (u == 0 && v == 1) || (u == 7 && v
        == 1) || (u == 6 && v == 7) || (1 <= u < 5 && v == u + 1) by {
        if exists|i: int|
            0 <= i < edges.len() && (#[trigger] edges[i]).from == u && edges[i].to == v {
            let i = choose|i: int|
                0 <= i < edges.len() && (#[trigger] edges[i]).from == u && edges[i].to == v;
            if i == 0 {
            } else if i == 1 {
            } else if i == 2 {
            } else if i == 3 {
            } else if i == 4 {
            } else {
                assert(i == 5);
            }
        } else {
            let i = choose|i: int|
                0 <= i < slots.len() && (#[trigger] slots[i]).from == u && slots[i].to == v;
            if i == 0 {
            } else {
                assert(i == 1);
            }
        }
    }
}

/// In every order of execution of a view's graph, rebuild runs before
/// physics, physics before trace, the attachments before trace, and trace
/// before tonemapping, fxaa, ui and upscaling, in that order.
pub proof fn lemma_view_chains(graph: RenderGraph, order: Seq<usize>)
    requires
        is_view_graph(graph),
        graph.is_schedule(order),
    ensures
        order.index_of(6usize) < order.index_of(7usize) < order.index_of(1usize),
        order.index_of(0usize) < order.index_of(1usize),
        order.index_of(1usize) < order.index_of(2usize) < order.index_of(3usize),
        order.index_of(3usize) < order.index_of(4usize) < order.index_of(5usize),
{
    lemma_view_precedes(graph);
    assert forall|v: usize| v < 8 implies 0 <= order.index_of(v) < order.len() && #[trigger] order[order.index_of(
        v,
    )] == v by {
        assert(order.contains(v));
    }
    let at = |v: usize| order.index_of(v);
    assert(graph.precedes(order[at(6)] as int, order[at(7)] as int));
    assert(graph.precedes(order[at(7)] as int, order[at(1)] as int));
    assert(graph.precedes(order[at(0)] as int, order[at(1)] as int));
    assert(graph.precedes(order[at(1)] as int, order[at(2)] as int));
    assert(graph.precedes(order[at(2)] as int, order[at(3)] as int));
    assert(graph.precedes(order[at(3)] as int, order[at(4)] as int));
    assert(graph.precedes(order[at(4)] as int, order[at(5)] as int));
}

/// The order of a view's graph that takes the ready node of lowest index
/// at every step is: attachments, rebuild, physics, trace, tonemapping,
/// fxaa, ui, upscaling.
pub proof fn lemma_view_order(graph: RenderGraph, order: Seq<usize>)
    requires
        is_view_graph(graph),
        graph.is_schedule(order),
        graph.greedy(order),
    ensures
        order == view_order(),
{
    lemma_view_precedes(graph);
    lemma_view_chains(graph, order);
    assert forall|v: usize| v < 8 implies 0 <= order.index_of(v) < order.len() && #[trigger] order[order.index_of(
        v,
    )] == v by {
        assert(order.contains(v));
    }
    assert(order.take(0) =~= Seq::<usize>::empty());
    assert(graph.ready(order.take(0), 0usize));
    assert(order[0] == 0);
    assert(order.index_of(0usize) == 0);
    assert(order.len() == 8);
    assert(order[order.index_of(6usize)] == 6);
    assert(order[order.index_of(7usize)] == 7);
    assert(order[order.index_of(1usize)] == 1);
    assert(order[order.index_of(2usize)] == 2);
    assert(order[order.index_of(3usize)] == 3);
    assert(order[order.index_of(4usize)] == 4);
    assert(order[order.index_of(5usize)] == 5);
    assert(order.index_of(6usize) >= 1);
    assert(order.index_of(6usize) == 1);
    assert(order.index_of(7usize) == 2);
    assert(order.index_of(1usize) == 3);
    assert(order.index_of(2usize) == 4);
    assert(order.index_of(3usize) == 5);
    assert(order.index_of(4usize) == 6);
    assert(order.index_of(5usize) == 7);
    assert(order[1] == 6 && order[2] == 7 && order[3] == 1 && order[4] == 2);
    assert(order[5] == 3 && order[6] == 4 && order[7] == 5);
    assert(order =~= view_order());
}

/// The order named for a view's graph is an order of execution, and it
/// takes the ready node of lowest index at every step.
pub proof fn lemma_view_order_runs(graph: RenderGraph)
    requires
        is_view_graph(graph),
    ensures
        graph.is_schedule(view_order()),
        graph.inputs_bound(),
{
    lemma_view_precedes(graph);
    let order = view_order();
    assert(order.no_duplicates());
    assert forall|v: usize| v < graph.nodes().len() implies #[trigger] order.contains(v) by {
        let k: int = if v == 0 {
            0
        } else if v == 6 {
            1
        } else if v == 7 {
            2
        } else {
            v + 2
        };
        assert(order[k] == v);
    }
    assert forall|i: int, j: int|
        0 <= i < order.len() && 0 <= j < order.len() && graph.precedes(
            #[trigger] order[i] as int,
            #[trigger] order[j] as int,
        ) implies i < j by {
    }
    let slots = graph.slot_edges();
    assert forall|v: int, slot: SlotName|
        0 <= v < graph.nodes().len() && crate::graph::reads(
            graph.nodes()[v],
            slot,
        ) implies #[trigger] crate::graph::input_fed(slots, v, slot) by {
        assert(v == 1);
        match slot {
            SlotName::Normal => {
                assert(slots[0].to == 1 && slots[0].input == SlotName::Normal);
            },
            SlotName::Position => {
                assert(slots[1].to == 1 && slots[1].input == SlotName::Position);
            },
        }
    }
}

} // verus!
