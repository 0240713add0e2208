//! The render graph: passes as nodes, with edges that order them and edges
//! that hand a named resource from the pass that provides it to the pass
//! that reads it. Both kinds of edge are checked when the graph is built.

use vstd::prelude::*;
use crate::settings::PassKind;

verus! {

/// The names of the resources that passes hand to each other.
#[derive(Clone, Copy, PartialEq, Eq, Structural, Debug)]
pub enum SlotName {
    Normal,
    Position,
}

/// Why a graph cannot be built or scheduled.
#[derive(Clone, Copy, PartialEq, Eq, Structural, Debug)]
pub enum GraphError {
    /// The pass is in the graph already.
    DuplicateNode,
    /// An end of the edge is not in the graph.
    InvalidNode,
    /// The edge is in the graph already.
    EdgeAlreadyExists,
    /// The providing pass has no output of that name.
    InvalidOutputNodeSlot,
    /// The reading pass has no input of that name.
    InvalidInputNodeSlot,
    /// Another edge feeds that input already.
    NodeInputSlotAlreadyOccupied,
    /// A pass has an input that no edge feeds.
    UnboundInput,
    /// The edges run in a circle: no order of the passes respects them.
    Cycle,
}

/// An edge that only orders two passes, given by their indices.
#[derive(Clone, Copy, PartialEq, Eq, Structural, Debug)]
pub struct NodeEdge {
    pub from: usize,
    pub to: usize,
}

/// An edge that hands the output `output` of one pass to the input `input`
/// of another, and orders them.
#[derive(Clone, Copy, PartialEq, Eq, Structural, Debug)]
pub struct SlotEdge {
    pub from: usize,
    pub output: SlotName,
    pub to: usize,
    pub input: SlotName,
}

/// Whether `pass` provides a resource named `slot`.
pub open spec fn provides(pass: PassKind, slot: SlotName) -> bool {
    pass == PassKind::Attachments
}

/// Whether `pass` reads a resource named `slot`.
pub open spec fn reads(pass: PassKind, slot: SlotName) -> bool {
    pass == PassKind::Trace
}

/// Whether `pass` provides a resource named `slot`.
pub fn has_output(pass: PassKind, slot: SlotName) -> (yes: bool)
    ensures
        yes == provides(pass, slot),
{
    pass == PassKind::Attachments
}

/// Whether `pass` reads a resource named `slot`.
pub fn has_input(pass: PassKind, slot: SlotName) -> (yes: bool)
    ensures
        yes == reads(pass, slot),
{
    pass == PassKind::Trace
}

/// A graph of passes.
pub struct RenderGraph {
    nodes: Vec<PassKind>,
    node_edges: Vec<NodeEdge>,
    slot_edges: Vec<SlotEdge>,
}

/// Whether an edge of either kind runs from node `from` to node `to`.
pub open spec fn edge_between(
    node_edges: Seq<NodeEdge>,
    slot_edges: Seq<SlotEdge>,
    from: int,
    to: int,
) -> bool {
    ||| exists|i: int|
        0 <= i < node_edges.len() && (#[trigger] node_edges[i]).from == from && node_edges[i].to
            == to
    ||| exists|i: int|
        0 <= i < slot_edges.len() && (#[trigger] slot_edges[i]).from == from && slot_edges[i].to
            == to
}

/// Whether a slot edge feeds the input `input` of node `to`.
pub open spec fn input_fed(slot_edges: Seq<SlotEdge>, to: int, input: SlotName) -> bool {
    exists|i: int|
        0 <= i < slot_edges.len() && (#[trigger] slot_edges[i]).to == to && slot_edges[i].input
            == input
}

/// The index of an edge that feeds the input `input` of node `to`.
pub open spec fn feeder_index(slot_edges: Seq<SlotEdge>, to: int, input: SlotName) -> int {
    choose|i: int|
        0 <= i < slot_edges.len() && (#[trigger] slot_edges[i]).to == to && slot_edges[i].input
            == input
}

impl RenderGraph {
    /// The passes of the graph, by node index.
    pub closed spec fn nodes(&self) -> Seq<PassKind> {
        self.nodes@
    }

    /// The ordering edges, in the order in which they were added.
    pub closed spec fn node_edges(&self) -> Seq<NodeEdge> {
        self.node_edges@
    }

    /// The resource edges, in the order in which they were added.
    pub closed spec fn slot_edges(&self) -> Seq<SlotEdge> {
        self.slot_edges@
    }

    /// Whether node `from` has to run before node `to`.
    pub open spec fn precedes(&self, from: int, to: int) -> bool {
        edge_between(self.node_edges(), self.slot_edges(), from, to)
    }

    /// Every pass is in the graph once, every edge joins two nodes of the
    /// graph, and every resource edge joins an output that its source
    /// provides to an input that its target reads and that no other edge
    /// feeds.
    pub open spec fn wf(&self) -> bool {
        &&& self.nodes().no_duplicates()
        &&& forall|i: int|
            0 <= i < self.node_edges().len() ==> (#[trigger] self.node_edges()[i]).from
                < self.nodes().len() && self.node_edges()[i].to < self.nodes().len()
        &&& forall|i: int|
            0 <= i < self.slot_edges().len() ==> {
                let e = #[trigger] self.slot_edges()[i];
                &&& e.from < self.nodes().len()
                &&& e.to < self.nodes().len()
                &&& provides(self.nodes()[e.from as int], e.output)
                &&& reads(self.nodes()[e.to as int], e.input)
            }
        &&& forall|i: int, j: int|
            0 <= i < j < self.slot_edges().len() ==> !((#[trigger] self.slot_edges()[i]).to == (
            #[trigger] self.slot_edges()[j]).to && self.slot_edges()[i].input
                == self.slot_edges()[j].input)
    }

    /// A graph without passes.
    pub fn new() -> (graph: RenderGraph)
        ensures
            graph.wf(),
            graph.nodes() == Seq::<PassKind>::empty(),
            graph.node_edges() == Seq::<NodeEdge>::empty(),
            graph.slot_edges() == Seq::<SlotEdge>::empty(),
    {
        RenderGraph { nodes: Vec::new(), node_edges: Vec::new(), slot_edges: Vec::new() }
    }

    /// The number of passes in the graph.
    pub fn len(&self) -> (n: usize)
        ensures
            n == self.nodes().len(),
    {
        self.nodes.len()
    }

    /// The ordering edges, in the order in which they were added.
    pub fn ordering_edges(&self) -> (edges: &Vec<NodeEdge>)
        ensures
            edges@ == self.node_edges(),
    {
        &self.node_edges
    }

    /// The resource edges, in the order in which they were added.
    pub fn resource_edges(&self) -> (edges: &Vec<SlotEdge>)
        ensures
            edges@ == self.slot_edges(),
    {
        &self.slot_edges
    }

    /// The pass at node `index`, if there is such a node.
    pub fn pass_at(&self, index: usize) -> (pass: Option<PassKind>)
        ensures
            pass == (if index < self.nodes().len() {
                Some(self.nodes()[index as int])
            } else {
                None
            }),
    {
        if index < self.nodes.len() {
            Some(self.nodes[index])
        } else {
            None
        }
    }

    /// The pass at a node of the graph.
    pub(crate) fn pass(&self, index: usize) -> (pass: PassKind)
        requires
            index < self.nodes().len(),
        ensures
            pass == self.nodes()[index as int],
    {
        self.nodes[index]
    }

    /// The node of `pass`, if the pass is in the graph.
    pub fn node_index(&self, pass: PassKind) -> (index: Option<usize>)
        ensures
            match index {
                Some(i) => i < self.nodes().len() && self.nodes()[i as int] == pass && forall|
                    j: int,
                |
                    0 <= j < i ==> self.nodes()[j] != pass,
                None => !self.nodes().contains(pass),
            },
    {
        let mut i: usize = 0;
        while i < self.nodes.len()
            invariant
                i <= self.nodes@.len(),
                forall|j: int| 0 <= j < i ==> self.nodes@[j] != pass,
            decreases self.nodes@.len() - i,
        {
            if self.nodes[i] == pass {
                return Some(i);
            }
            i += 1;
        }
        None
    }

    /// Adds `pass` as a new node and returns its index. A pass can be in the
    /// graph only once.
    pub fn add_node(&mut self, pass: PassKind) -> (added: Result<usize, GraphError>)
        requires
            old(self).wf(),
        ensures
            final(self).wf(),
            final(self).node_edges() == old(self).node_edges(),
            final(self).slot_edges() == old(self).slot_edges(),
            match added {
                Ok(index) => !old(self).nodes().contains(pass) && index == old(self).nodes().len()
                    && final(self).nodes() == old(self).nodes().push(pass),
                Err(e) => e == GraphError::DuplicateNode && old(self).nodes().contains(pass)
                    && final(self).nodes() == old(self).nodes(),
            },
    {
        match self.node_index(pass) {
            Some(_) => Err(GraphError::DuplicateNode),
            None => {
                let index: usize = self.nodes.len();
                self.nodes.push(pass);
                proof {
                    let before = old(self).nodes();
                    assert forall|i: int| 0 <= i < self.node_edges@.len() implies (
                    #[trigger] self.node_edges@[i]).from < self.nodes@.len()
                        && self.node_edges@[i].to < self.nodes@.len() by {
                        assert(old(self).node_edges()[i].from < before.len());
                    }
                    assert forall|i: int, j: int|
                        0 <= i < self.nodes@.len() && 0 <= j < self.nodes@.len() && i
                            != j implies self.nodes@[i] != self.nodes@[j] by {
                        if i < before.len() {
                            assert(before[i] == self.nodes@[i]);
                            assert(before.contains(self.nodes@[i]));
                        }
                        if j < before.len() {
                            assert(before[j] == self.nodes@[j]);
                            assert(before.contains(self.nodes@[j]));
                        }
                    }
                }
                Ok(index)
            },
        }
    }

    /// The node of a pass that is in the graph.
    pub open spec fn index_of(&self, pass: PassKind) -> int {
        self.nodes().index_of(pass)
    }

    /// A pass is at no other node than its own.
    pub proof fn lemma_index_of(&self, index: int)
        requires
            self.nodes().no_duplicates(),
            0 <= index < self.nodes().len(),
        ensures
            self.nodes().contains(self.nodes()[index]),
            self.index_of(self.nodes()[index]) == index,
    {
        let pass = self.nodes()[index];
        assert(self.nodes().contains(pass));
        let found = self.nodes().index_of(pass);
        assert(0 <= found < self.nodes().len() && self.nodes()[found] == pass);
    }

    /// What adding an ordering edge between two passes fails with, if it
    /// fails.
    pub open spec fn node_edge_error(&self, from: PassKind, to: PassKind) -> Option<GraphError> {
        if !self.nodes().contains(from) || !self.nodes().contains(to) {
            Some(GraphError::InvalidNode)
        } else if self.node_edges().contains(
            NodeEdge { from: self.index_of(from) as usize, to: self.index_of(to) as usize },
        ) {
            Some(GraphError::EdgeAlreadyExists)
        } else {
            None
        }
    }

    /// What adding a resource edge between two passes fails with, if it
    /// fails.
    pub open spec fn slot_edge_error(
        &self,
        from: PassKind,
        output: SlotName,
        to: PassKind,
        input: SlotName,
    ) -> Option<GraphError> {
        if !self.nodes().contains(from) || !self.nodes().contains(to) {
            Some(GraphError::InvalidNode)
        } else if !provides(from, output) {
            Some(GraphError::InvalidOutputNodeSlot)
        } else if !reads(to, input) {
            Some(GraphError::InvalidInputNodeSlot)
        } else if input_fed(self.slot_edges(), self.index_of(to), input) {
            Some(GraphError::NodeInputSlotAlreadyOccupied)
        } else {
            None
        }
    }

    /// Whether the ordering edge from node `from` to node `to` is in the
    /// graph.
    fn has_node_edge(&self, from: usize, to: usize) -> (found: bool)
        ensures
            found == self.node_edges().contains(NodeEdge { from, to }),
    {
        let mut i: usize = 0;
        while i < self.node_edges.len()
            invariant
                i <= self.node_edges@.len(),
                forall|j: int| 0 <= j < i ==> self.node_edges@[j] != (NodeEdge { from, to }),
            decreases self.node_edges@.len() - i,
        {
            if self.node_edges[i].from == from && self.node_edges[i].to == to {
                assert(self.node_edges@[i as int] == (NodeEdge { from, to }));
                return true;
            }
            i += 1;
        }
        false
    }

    /// Whether a resource edge feeds the input `input` of node `to`.
    fn has_input_edge(&self, to: usize, input: SlotName) -> (found: bool)
        ensures
            found == input_fed(self.slot_edges(), to as int, input),
    {
        let mut i: usize = 0;
        while i < self.slot_edges.len()
            invariant
                i <= self.slot_edges@.len(),
                forall|j: int|
                    0 <= j < i ==> !((#[trigger] self.slot_edges@[j]).to == to
                        && self.slot_edges@[j].input == input),
            decreases self.slot_edges@.len() - i,
        {
            if self.slot_edges[i].to == to && self.slot_edges[i].input == input {
                return true;
            }
            i += 1;
        }
        false
    }

    /// Orders `from` before `to`. Both passes have to be in the graph, and
    /// the edge must be new.
    pub fn add_node_edge(&mut self, from: PassKind, to: PassKind) -> (added: Result<
        (),
        GraphError,
    >)
        requires
            old(self).wf(),
        ensures
            final(self).wf(),
            final(self).nodes() == old(self).nodes(),
            final(self).slot_edges() == old(self).slot_edges(),
            added == (match old(self).node_edge_error(from, to) {
                Some(e) => Err::<(), GraphError>(e),
                None => Ok::<(), GraphError>(()),
            }),
            final(self).node_edges() == (if added.is_ok() {
                old(self).node_edges().push(
                    NodeEdge {
                        from: old(self).index_of(from) as usize,
                        to: old(self).index_of(to) as usize,
                    },
                )
            } else {
                old(self).node_edges()
            }),
    {
        let source = match self.node_index(from) {
            Some(i) => i,
            None => {
                return Err(GraphError::InvalidNode);
            },
        };
        let target = match self.node_index(to) {
            Some(i) => i,
            None => {
                return Err(GraphError::InvalidNode);
            },
        };
        proof {
            self.lemma_index_of(source as int);
            self.lemma_index_of(target as int);
        }
        if self.has_node_edge(source, target) {
            return Err(GraphError::EdgeAlreadyExists);
        }
        self.node_edges.push(NodeEdge { from: source, to: target });
        proof {
            assert forall|i: int| 0 <= i < self.node_edges@.len() implies (
            #[trigger] self.node_edges@[i]).from < self.nodes@.len() && self.node_edges@[i].to
                < self.nodes@.len() by {
                if i < old(self).node_edges().len() {
                    assert(old(self).node_edges()[i].from < self.nodes@.len());
                }
            }
        }
        Ok(())
    }

    /// Hands the output `output` of `from` to the input `input` of `to`, and
    /// orders `from` before `to`. Both passes have to be in the graph, the
    /// output and the input have to be ones that the passes declare, and
    /// the input must not be fed already.
    pub fn add_slot_edge(
        &mut self,
        from: PassKind,
        output: SlotName,
        to: PassKind,
        input: SlotName,
    ) -> (added: Result<(), GraphError>)
        requires
            old(self).wf(),
        ensures
            final(self).wf(),
            final(self).nodes() == old(self).nodes(),
            final(self).node_edges() == old(self).node_edges(),
            added == (match old(self).slot_edge_error(from, output, to, input) {
                Some(e) => Err::<(), GraphError>(e),
                None => Ok::<(), GraphError>(()),
            }),
            final(self).slot_edges() == (if added.is_ok() {
                old(self).slot_edges().push(
                    SlotEdge {
                        from: old(self).index_of(from) as usize,
                        output,
                        to: old(self).index_of(to) as usize,
                        input,
                    },
                )
            } else {
                old(self).slot_edges()
            }),
    {
        let source = match self.node_index(from) {
            Some(i) => i,
            None => {
                return Err(GraphError::InvalidNode);
            },
        };
        let target = match self.node_index(to) {
            Some(i) => i,
            None => {
                return Err(GraphError::InvalidNode);
            },
        };
        proof {
            self.lemma_index_of(source as int);
            self.lemma_index_of(target as int);
        }
        if !has_output(from, output) {
            return Err(GraphError::InvalidOutputNodeSlot);
        }
        if !has_input(to, input) {
            return Err(GraphError::InvalidInputNodeSlot);
        }
        if self.has_input_edge(target, input) {
            return Err(GraphError::NodeInputSlotAlreadyOccupied);
        }
        self.slot_edges.push(SlotEdge { from: source, output, to: target, input });
        proof {
            let before = old(self).slot_edges();
            assert forall|i: int| 0 <= i < self.slot_edges@.len() implies {
                let e = #[trigger] self.slot_edges@[i];
                &&& e.from < self.nodes@.len()
                &&& e.to < self.nodes@.len()
                &&& provides(self.nodes@[e.from as int], e.output)
                &&& reads(self.nodes@[e.to as int], e.input)
            } by {
                if i < before.len() {
                    assert(before[i].from < self.nodes@.len());
                }
            }
            assert forall|i: int, j: int| 0 <= i < j < self.slot_edges@.len() implies !((
            #[trigger] self.slot_edges@[i]).to == (#[trigger] self.slot_edges@[j]).to
                && self.slot_edges@[i].input == self.slot_edges@[j].input) by {
                if j < before.len() {
                    assert(!(before[i].to == before[j].to && before[i].input == before[j].input));
                } else {
                    assert(before[i] == self.slot_edges@[i]);
                    assert(!input_fed(before, target as int, input));
                    assert(!(before[i].to == target && before[i].input == input));
                }
            }
            assert forall|i: int| 0 <= i < self.node_edges@.len() implies (
            #[trigger] self.node_edges@[i]).from < self.nodes@.len() && self.node_edges@[i].to
                < self.nodes@.len() by {
                assert(old(self).node_edges()[i].from < self.nodes@.len());
            }
        }
        Ok(())
    }

    /// The edge that feeds the input `input` of node `to`, if one does.
    pub open spec fn feeder(&self, to: int, input: SlotName) -> Option<SlotEdge> {
        if input_fed(self.slot_edges(), to, input) {
            Some(self.slot_edges()[feeder_index(self.slot_edges(), to, input)])
        } else {
            None
        }
    }

    /// The edge that feeds the input `input` of node `to`, if one does.
    pub fn feeding_edge(&self, to: usize, input: SlotName) -> (edge: Option<SlotEdge>)
        requires
            self.wf(),
        ensures
            edge == self.feeder(to as int, input),
            edge.is_some() ==> {
                &&& edge.unwrap().to == to
                &&& edge.unwrap().input == input
                &&& edge.unwrap().from < self.nodes().len()
                &&& provides(self.nodes()[edge.unwrap().from as int], edge.unwrap().output)
            },
    {
        let mut i: usize = 0;
        while i < self.slot_edges.len()
            invariant
                self.wf(),
                i <= self.slot_edges@.len(),
                forall|j: int|
                    0 <= j < i ==> !((#[trigger] self.slot_edges@[j]).to == to
                        && self.slot_edges@[j].input == input),
            decreases self.slot_edges@.len() - i,
        {
            if self.slot_edges[i].to == to && self.slot_edges[i].input == input {
                proof {
                    let chosen = feeder_index(self.slot_edges(), to as int, input);
                    assert(self.slot_edges()[i as int].to == to);
                    assert(input_fed(self.slot_edges(), to as int, input));
                    assert(0 <= chosen < self.slot_edges().len() && self.slot_edges()[chosen].to
                        == to && self.slot_edges()[chosen].input == input);
                    if chosen < i {
                        assert(!(self.slot_edges()[chosen].to == self.slot_edges()[i as int].to
                            && self.slot_edges()[chosen].input
                            == self.slot_edges()[i as int].input));
                    } else if chosen > i {
                        assert(!(self.slot_edges()[i as int].to == self.slot_edges()[chosen].to
                            && self.slot_edges()[i as int].input
                            == self.slot_edges()[chosen].input));
                    }
                }
                return Some(self.slot_edges[i]);
            }
            i += 1;
        }
        None
    }

    /// Whether node `v` can run once the nodes in `placed` have run: it has
    /// not run itself, and every node that has to run before it has.
    pub open spec fn ready(&self, placed: Seq<usize>, v: usize) -> bool {
        &&& v < self.nodes().len()
        &&& !placed.contains(v)
        &&& forall|u: usize|
            u < self.nodes().len() && self.precedes(u as int, v as int) ==> #[trigger] placed.contains(
                u,
            )
    }

    /// Whether `order` takes, at every step, the node of lowest index among
    /// those that can run.
    pub open spec fn greedy(&self, order: Seq<usize>) -> bool {
        forall|i: int|
            0 <= i < order.len() ==> self.ready(order.take(i), #[trigger] order[i]) && forall|
                v: usize,
            |
                v < order[i] ==> !self.ready(order.take(i), v)
    }

    /// Whether `order` is an order of execution: every node of the graph
    /// once, each after all the nodes that have to run before it.
    pub open spec fn is_schedule(&self, order: Seq<usize>) -> bool {
        &&& order.len() == self.nodes().len()
        &&& order.no_duplicates()
        &&& forall|i: int| 0 <= i < order.len() ==> #[trigger] order[i] < self.nodes().len()
        &&& forall|v: usize| v < self.nodes().len() ==> #[trigger] order.contains(v)
        &&& forall|i: int, j: int|
            0 <= i < order.len() && 0 <= j < order.len() && self.precedes(
                #[trigger] order[i] as int,
                #[trigger] order[j] as int,
            ) ==> i < j
    }

    /// Whether every input that a pass of the graph reads is fed by an
    /// edge.
    pub open spec fn inputs_bound(&self) -> bool {
        forall|v: int, slot: SlotName|
            0 <= v < self.nodes().len() && reads(self.nodes()[v], slot) ==> #[trigger] input_fed(
                self.slot_edges(),
                v,
                slot,
            )
    }

    /// Whether every node that has to run before node `v` is marked in
    /// `placed`.
    fn predecessors_placed(&self, v: usize, placed: &Vec<bool>) -> (all: bool)
        requires
            self.wf(),
            placed@.len() == self.nodes().len(),
        ensures
            all == (forall|u: usize|
                u < self.nodes().len() && self.precedes(u as int, v as int) ==> placed@[u as int]),
    {
        let mut i: usize = 0;
        while i < self.node_edges.len()
            invariant
                self.wf(),
                placed@.len() == self.nodes().len(),
                i <= self.node_edges@.len(),
                forall|j: int|
                    0 <= j < i && (#[trigger] self.node_edges@[j]).to == v
                        ==> placed@[self.node_edges@[j].from as int],
            decreases self.node_edges@.len() - i,
        {
            assert(self.node_edges()[i as int].from < self.nodes().len());
            if self.node_edges[i].to == v && !placed[self.node_edges[i].from] {
                proof {
                    let u = self.node_edges@[i as int].from;
                    assert(self.precedes(u as int, v as int));
                }
                return false;
            }
            i += 1;
        }
        let mut k: usize = 0;
        while k < self.slot_edges.len()
            invariant
                self.wf(),
                placed@.len() == self.nodes().len(),
                k <= self.slot_edges@.len(),
                forall|j: int|
                    0 <= j < self.node_edges@.len() && (#[trigger] self.node_edges@[j]).to == v
                        ==> placed@[self.node_edges@[j].from as int],
                forall|j: int|
                    0 <= j < k && (#[trigger] self.slot_edges@[j]).to == v
                        ==> placed@[self.slot_edges@[j].from as int],
            decreases self.slot_edges@.len() - k,
        {
            assert(self.slot_edges()[k as int].from < self.nodes().len());
            if self.slot_edges[k].to == v && !placed[self.slot_edges[k].from] {
                proof {
                    let u = self.slot_edges@[k as int].from;
                    assert(self.precedes(u as int, v as int));
                }
                return false;
            }
            k += 1;
        }
        true
    }

    /// Whether an edge feeds every input that a pass of the graph reads.
    fn check_inputs(&self) -> (bound: bool)
        requires
            self.wf(),
        ensures
            bound == self.inputs_bound(),
    {
        let mut v: usize = 0;
        while v < self.nodes.len()
            invariant
                v <= self.nodes@.len(),
                forall|w: int, slot: SlotName|
                    0 <= w < v && reads(self.nodes()[w], slot) ==> #[trigger] input_fed(
                        self.slot_edges(),
                        w,
                        slot,
                    ),
            decreases self.nodes@.len() - v,
        {
            let pass = self.nodes[v];
            if has_input(pass, SlotName::Normal) && !self.has_input_edge(v, SlotName::Normal) {
                return false;
            }
            if has_input(pass, SlotName::Position) && !self.has_input_edge(
                v,
                SlotName::Position,
            ) {
                return false;
            }
            proof {
                assert forall|slot: SlotName| reads(self.nodes()[v as int], slot) implies input_fed(
                    self.slot_edges(),
                    v as int,
                    slot,
                ) by {
                    match slot {
                        SlotName::Normal => {},
                        SlotName::Position => {},
                    }
                }
            }
            v += 1;
        }
        true
    }

    /// The order in which the passes of a frame run: at every step the
    /// node of lowest index that is ready. A graph with an input that no
    /// edge feeds, or with edges that run in a circle, has no such order.
    pub fn schedule(&self) -> (order: Result<Vec<usize>, GraphError>)
        requires
            self.wf(),
        ensures
            match order {
                Ok(o) => self.inputs_bound() && self.is_schedule(o@) && self.greedy(o@),
                Err(e) => if self.inputs_bound() {
                    e == GraphError::Cycle && forall|o: Seq<usize>| !self.is_schedule(o)
                } else {
                    e == GraphError::UnboundInput
                },
            },
    {
        if !self.check_inputs() {
            return Err(GraphError::UnboundInput);
        }
        let n: usize = self.nodes.len();
        let mut placed: Vec<bool> = Vec::new();
        while placed.len() < n
            invariant
                placed@.len() <= n,
                forall|i: int| 0 <= i < placed@.len() ==> !placed@[i],
            decreases n - placed@.len(),
        {
            placed.push(false);
        }
        let mut order: Vec<usize> = Vec::new();
        proof {
            lemma_count_none(placed@);
        }
        while order.len() < n
            invariant
                self.wf(),
                self.inputs_bound(),
                n == self.nodes().len(),
                placed@.len() == n,
                order@.len() <= n,
                order@.len() == count_true(placed@),
                order@.no_duplicates(),
                forall|i: int| 0 <= i < order@.len() ==> #[trigger] order@[i] < n,
                forall|v: usize| v < n ==> (placed@[v as int] <==> #[trigger] order@.contains(v)),
                self.greedy(order@),
            decreases n - order@.len(),
        {
            let mut v: usize = 0;
            let mut found: bool = false;
            while v < n && !found
                invariant
                    self.wf(),
                    n == self.nodes().len(),
                    placed@.len() == n,
                    v <= n,
                    forall|u: usize| u < n ==> (placed@[u as int] <==> #[trigger] order@.contains(u)),
                    found ==> v < n && self.ready(order@, v),
                    forall|w: usize| w < v ==> !self.ready(order@, w),
                decreases n - v + (if found { 0int } else { 1int }),
            {
                let free = if placed[v] {
                    false
                } else {
                    self.predecessors_placed(v, &placed)
                };
                if free {
                    found = true;
                } else {
                    proof {
                        if !placed@[v as int] {
                            let u = choose|u: usize|
                                u < n && self.precedes(u as int, v as int) && !placed@[u as int];
                            assert(!order@.contains(u));
                        }
                    }
                    v += 1;
                }
            }
            if !found {
                proof {
                    self.lemma_stuck(order@, placed@);
                }
                return Err(GraphError::Cycle);
            }
            proof {
                lemma_count_set(placed@, v as int);
            }
            let ghost before = order@;
            placed.set(v, true);
            order.push(v);
            proof {
                assert(order@.take(before.len() as int) =~= before);
                assert forall|i: int| 0 <= i < order@.len() implies self.ready(
                    order@.take(i),
                    #[trigger] order@[i],
                ) && forall|w: usize| w < order@[i] ==> !self.ready(order@.take(i), w) by {
                    if i < before.len() {
                        assert(order@.take(i) =~= before.take(i));
                        assert(order@[i] == before[i]);
                    }
                }
                assert forall|u: usize| u < n implies (placed@[u as int] <==> #[trigger] order@.contains(
                    u,
                )) by {
                    vstd::seq_lib::lemma_seq_contains_after_push(before, v, u);
                }
                assert forall|i: int, j: int|
                    0 <= i < order@.len() && 0 <= j < order@.len() && i != j implies order@[i]
                    != order@[j] by {
                    if i < before.len() {
                        assert(before[i] == order@[i]);
                        assert(before.contains(order@[i]));
                    }
                    if j < before.len() {
                        assert(before[j] == order@[j]);
                        assert(before.contains(order@[j]));
                    }
                }
            }
        }
        proof {
            lemma_count_full(placed@);
            self.lemma_greedy_is_schedule(order@);
        }
        Ok(order)
    }

    /// An order that takes a ready node at every step, and takes every
    /// node, is an order of execution.
    pub proof fn lemma_greedy_is_schedule(&self, order: Seq<usize>)
        requires
            self.greedy(order),
            order.len() == self.nodes().len(),
            order.no_duplicates(),
            forall|v: usize| v < self.nodes().len() ==> #[trigger] order.contains(v),
        ensures
            self.is_schedule(order),
    {
        assert forall|i: int, j: int|
            0 <= i < order.len() && 0 <= j < order.len() && self.precedes(
                #[trigger] order[i] as int,
                #[trigger] order[j] as int,
            ) implies i < j by {
            assert(self.ready(order.take(j), order[j]));
            assert(self.ready(order.take(i), order[i]));
            assert(order.take(j).contains(order[i]));
            let k = choose|k: int| 0 <= k < order.take(j).len() && order.take(j)[k] == order[i];
            assert(order[k] == order[i]);
        }
        assert forall|i: int| 0 <= i < order.len() implies #[trigger] order[i]
            < self.nodes().len() by {
            assert(self.ready(order.take(i), order[i]));
        }
    }

    /// Two orders that take the ready node of lowest index at every step
    /// agree as far as both go.
    proof fn lemma_greedy_prefix(&self, a: Seq<usize>, b: Seq<usize>, k: int)
        requires
            self.greedy(a),
            self.greedy(b),
            0 <= k <= a.len(),
            k <= b.len(),
        ensures
            a.take(k) == b.take(k),
        decreases k,
    {
        if k > 0 {
            self.lemma_greedy_prefix(a, b, k - 1);
            assert(self.ready(a.take(k - 1), a[k - 1]));
            assert(self.ready(b.take(k - 1), b[k - 1]));
            assert(a[k - 1] == b[k - 1]);
            assert(a.take(k) =~= a.take(k - 1).push(a[k - 1]));
            assert(b.take(k) =~= b.take(k - 1).push(b[k - 1]));
        } else {
            assert(a.take(0) =~= b.take(0));
        }
    }

    /// The order of a frame is determined by the graph: there is one order
    /// of a given length that takes the ready node of lowest index at every
    /// step.
    pub proof fn lemma_greedy_unique(&self, a: Seq<usize>, b: Seq<usize>)
        requires
            self.greedy(a),
            self.greedy(b),
            a.len() == b.len(),
        ensures
            a == b,
    {
        self.lemma_greedy_prefix(a, b, a.len() as int);
        assert(a.take(a.len() as int) =~= a);
        assert(b.take(b.len() as int) =~= b);
    }

    /// When some node has not run and no node is ready, the graph has no
    /// order of execution.
    proof fn lemma_stuck(&self, order: Seq<usize>, placed: Seq<bool>)
        requires
            placed.len() == self.nodes().len(),
            self.nodes().len() <= usize::MAX,
            order.len() == count_true(placed),
            order.len() < self.nodes().len(),
            forall|v: usize|
                v < self.nodes().len() ==> (placed[v as int] <==> #[trigger] order.contains(v)),
            forall|w: usize| w < self.nodes().len() ==> !self.ready(order, w),
        ensures
            forall|o: Seq<usize>| !self.is_schedule(o),
    {
        lemma_count_full(placed);
        let unmarked = choose|i: int| 0 <= i < placed.len() && !placed[i];
        let missing = unmarked as usize;
        assert forall|o: Seq<usize>| !self.is_schedule(o) by {
            if self.is_schedule(o) {
                assert(o.contains(missing));
                let at = choose|k: int| 0 <= k < o.len() && o[k] == missing;
                let first = lemma_first_unplaced(o, placed, at);
                let v = o[first];
                assert(!self.ready(order, v));
                assert(!order.contains(v));
                let u = choose|u: usize|
                    u < self.nodes().len() && self.precedes(u as int, v as int)
                        && !order.contains(u);
                assert(o.contains(u));
                let before = choose|k: int| 0 <= k < o.len() && o[k] == u;
                assert(self.precedes(o[before] as int, o[first] as int));
                assert(before < first);
                assert(placed[o[before] as int]);
            }
        }
    }
}

/// The number of marks in `flags`.
pub open spec fn count_true(flags: Seq<bool>) -> nat
    decreases flags.len(),
{
    if flags.len() == 0 {
        0
    } else {
        count_true(flags.drop_last()) + if flags.last() {
            1nat
        } else {
            0nat
        }
    }
}

proof fn lemma_count_none(flags: Seq<bool>)
    requires
        forall|i: int| 0 <= i < flags.len() ==> !flags[i],
    ensures
        count_true(flags) == 0,
    decreases flags.len(),
{
    if flags.len() > 0 {
        lemma_count_none(flags.drop_last());
    }
}

proof fn lemma_count_set(flags: Seq<bool>, v: int)
    requires
        0 <= v < flags.len(),
        !flags[v],
    ensures
        count_true(flags.update(v, true)) == count_true(flags) + 1,
    decreases flags.len(),
{
    let marked = flags.update(v, true);
    if v == flags.len() - 1 {
        assert(marked.drop_last() =~= flags.drop_last());
    } else {
        lemma_count_set(flags.drop_last(), v);
        assert(marked.drop_last() =~= flags.drop_last().update(v, true));
    }
}

proof fn lemma_count_full(flags: Seq<bool>)
    ensures
        count_true(flags) <= flags.len(),
        count_true(flags) == flags.len() ==> forall|i: int| 0 <= i < flags.len() ==> flags[i],
        count_true(flags) < flags.len() ==> exists|i: int| 0 <= i < flags.len() && !flags[i],
    decreases flags.len(),
{
    if flags.len() > 0 {
        let shorter = flags.drop_last();
        lemma_count_full(shorter);
        if count_true(flags) == flags.len() {
            assert forall|i: int| 0 <= i < flags.len() implies flags[i] by {
                if i < shorter.len() {
                    assert(shorter[i] == flags[i]);
                }
            }
        } else {
            if !flags.last() {
                assert(!flags[flags.len() - 1]);
            } else {
                let i = choose|i: int| 0 <= i < shorter.len() && !shorter[i];
                assert(!flags[i]);
            }
        }
    }
}

/// The first position of `order`, up to `at`, whose node is not marked.
proof fn lemma_first_unplaced(order: Seq<usize>, placed: Seq<bool>, at: int) -> (first: int)
    requires
        0 <= at < order.len(),
        forall|i: int| 0 <= i < order.len() ==> #[trigger] order[i] < placed.len(),
        !placed[order[at] as int],
    ensures
        0 <= first <= at,
        !placed[order[first] as int],
        forall|i: int| 0 <= i < first ==> placed[#[trigger] order[i] as int],
    decreases at,
{
    if exists|i: int| 0 <= i < at && !placed[#[trigger] order[i] as int] {
        let i = choose|i: int| 0 <= i < at && !placed[#[trigger] order[i] as int];
        lemma_first_unplaced(order, placed, i)
    } else {
        at
    }
}

} // verus!
