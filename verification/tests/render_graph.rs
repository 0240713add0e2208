use voxel_pipeline::commands::{commands, dispatch_sizes, Command, DispatchSizes};
use voxel_pipeline::compute::AnimationData;
use voxel_pipeline::frame::{
    Binding, Outcome, PipelineStatus, ScheduledGraph, ViewResources,
};
use voxel_pipeline::graph::{
    has_input, has_output, GraphError, NodeEdge, RenderGraph, SlotEdge, SlotName,
};
use voxel_pipeline::physics::PhysicsData;
use voxel_pipeline::pipeline::{global_graph, view_graph};
use voxel_pipeline::settings::{PassKind, RenderGraphSettings};

const READY: PipelineStatus = PipelineStatus {
    clear: true,
    automata: true,
    animation: true,
    rebuild: true,
    physics: true,
    trace: true,
};

const SIZES: DispatchSizes =
    DispatchSizes { world: 64, animation: 5, physics: 10, physics_elements: 1_000_000 };

fn full_view() -> ViewResources<u32> {
    ViewResources { target: true, uniforms: true, normal: Some(100), position: Some(200) }
}

fn outcomes(
    graph: &ScheduledGraph,
    settings: &RenderGraphSettings,
    pipelines: &PipelineStatus,
    view: &ViewResources<u32>,
) -> Vec<(PassKind, Outcome)> {
    graph.run(settings, pipelines, view).iter().map(|run| (run.pass, run.outcome)).collect()
}

#[test]
fn settings_default_to_all_on() {
    let settings = RenderGraphSettings::default();
    assert!(settings.clear && settings.automata && settings.animation);
    assert!(settings.voxelization && settings.rebuild && settings.physics && settings.trace);
    for pass in [
        PassKind::Clear,
        PassKind::Automata,
        PassKind::Animation,
        PassKind::CameraDriver,
        PassKind::Attachments,
        PassKind::Rebuild,
        PassKind::Physics,
        PassKind::Trace,
        PassKind::Tonemapping,
        PassKind::Fxaa,
        PassKind::Ui,
        PassKind::Upscaling,
    ] {
        assert!(settings.is_enabled(pass));
    }
}

#[test]
fn each_switch_turns_off_its_own_pass() {
    let all = RenderGraphSettings::default();
    let cases = [
        (RenderGraphSettings { clear: false, ..all }, PassKind::Clear),
        (RenderGraphSettings { automata: false, ..all }, PassKind::Automata),
        (RenderGraphSettings { animation: false, ..all }, PassKind::Animation),
        (RenderGraphSettings { rebuild: false, ..all }, PassKind::Rebuild),
        (RenderGraphSettings { physics: false, ..all }, PassKind::Physics),
        (RenderGraphSettings { trace: false, ..all }, PassKind::Trace),
    ];
    for (settings, off) in cases {
        for pass in [
            PassKind::Clear,
            PassKind::Automata,
            PassKind::Animation,
            PassKind::Rebuild,
            PassKind::Physics,
            PassKind::Trace,
            PassKind::Ui,
        ] {
            assert_eq!(settings.is_enabled(pass), pass != off);
        }
    }
    let no_voxelization = RenderGraphSettings { voxelization: false, ..all };
    assert!(no_voxelization.is_enabled(PassKind::Trace));
}

#[test]
fn declared_slots() {
    assert!(has_output(PassKind::Attachments, SlotName::Normal));
    assert!(has_output(PassKind::Attachments, SlotName::Position));
    assert!(!has_output(PassKind::Trace, SlotName::Normal));
    assert!(has_input(PassKind::Trace, SlotName::Normal));
    assert!(has_input(PassKind::Trace, SlotName::Position));
    assert!(!has_input(PassKind::Attachments, SlotName::Position));
    assert!(!has_input(PassKind::Physics, SlotName::Normal));
}

#[test]
fn nodes_are_added_once() {
    let mut graph = RenderGraph::new();
    assert_eq!(graph.len(), 0);
    assert_eq!(graph.add_node(PassKind::Clear), Ok(0));
    assert_eq!(graph.add_node(PassKind::Automata), Ok(1));
    assert_eq!(graph.add_node(PassKind::Clear), Err(GraphError::DuplicateNode));
    assert_eq!(graph.len(), 2);
    assert_eq!(graph.node_index(PassKind::Automata), Some(1));
    assert_eq!(graph.node_index(PassKind::Trace), None);
    assert_eq!(graph.pass_at(0), Some(PassKind::Clear));
    assert_eq!(graph.pass_at(2), None);
}

#[test]
fn node_edges_are_checked_when_added() {
    let mut graph = RenderGraph::new();
    graph.add_node(PassKind::Clear).unwrap();
    graph.add_node(PassKind::Automata).unwrap();
    assert_eq!(graph.add_node_edge(PassKind::Clear, PassKind::Trace), Err(GraphError::InvalidNode));
    assert_eq!(graph.add_node_edge(PassKind::Trace, PassKind::Clear), Err(GraphError::InvalidNode));
    assert_eq!(graph.add_node_edge(PassKind::Clear, PassKind::Automata), Ok(()));
    assert_eq!(
        graph.add_node_edge(PassKind::Clear, PassKind::Automata),
        Err(GraphError::EdgeAlreadyExists)
    );
    assert_eq!(graph.add_node_edge(PassKind::Automata, PassKind::Clear), Ok(()));
}

#[test]
fn slot_edges_are_checked_when_added() {
    let mut graph = RenderGraph::new();
    graph.add_node(PassKind::Attachments).unwrap();
    graph.add_node(PassKind::Trace).unwrap();
    graph.add_node(PassKind::Physics).unwrap();
    let (normal, position) = (SlotName::Normal, SlotName::Position);
    assert_eq!(
        graph.add_slot_edge(PassKind::Attachments, normal, PassKind::Ui, normal),
        Err(GraphError::InvalidNode)
    );
    assert_eq!(
        graph.add_slot_edge(PassKind::Physics, normal, PassKind::Trace, normal),
        Err(GraphError::InvalidOutputNodeSlot)
    );
    assert_eq!(
        graph.add_slot_edge(PassKind::Attachments, normal, PassKind::Physics, normal),
        Err(GraphError::InvalidInputNodeSlot)
    );
    assert_eq!(graph.feeding_edge(1, normal), None);
    assert_eq!(graph.add_slot_edge(PassKind::Attachments, normal, PassKind::Trace, normal), Ok(()));
    assert_eq!(
        graph.add_slot_edge(PassKind::Attachments, position, PassKind::Trace, normal),
        Err(GraphError::NodeInputSlotAlreadyOccupied)
    );
    assert_eq!(
        graph.feeding_edge(1, normal),
        Some(SlotEdge { from: 0, output: normal, to: 1, input: normal })
    );
    assert_eq!(graph.feeding_edge(1, position), None);
    assert_eq!(
        graph.add_slot_edge(PassKind::Attachments, position, PassKind::Trace, position),
        Ok(())
    );
}

#[test]
fn an_unfed_input_is_found_when_scheduling() {
    let mut graph = RenderGraph::new();
    graph.add_node(PassKind::Attachments).unwrap();
    graph.add_node(PassKind::Trace).unwrap();
    graph
        .add_slot_edge(PassKind::Attachments, SlotName::Normal, PassKind::Trace, SlotName::Normal)
        .unwrap();
    assert_eq!(graph.schedule(), Err(GraphError::UnboundInput));
    assert!(matches!(ScheduledGraph::build(graph), Err(GraphError::UnboundInput)));
}

#[test]
fn a_cycle_is_found_when_scheduling() {
    let mut graph = RenderGraph::new();
    graph.add_node(PassKind::Clear).unwrap();
    graph.add_node(PassKind::Automata).unwrap();
    graph.add_node(PassKind::Animation).unwrap();
    graph.add_node_edge(PassKind::Clear, PassKind::Automata).unwrap();
    graph.add_node_edge(PassKind::Automata, PassKind::Animation).unwrap();
    assert_eq!(graph.schedule(), Ok(vec![0, 1, 2]));
    graph.add_node_edge(PassKind::Animation, PassKind::Automata).unwrap();
    assert_eq!(graph.schedule(), Err(GraphError::Cycle));

    let mut looped = RenderGraph::new();
    looped.add_node(PassKind::Ui).unwrap();
    looped.add_node_edge(PassKind::Ui, PassKind::Ui).unwrap();
    assert_eq!(looped.schedule(), Err(GraphError::Cycle));
}

#[test]
fn schedule_takes_the_lowest_ready_node() {
    let mut graph = RenderGraph::new();
    for pass in [PassKind::Fxaa, PassKind::Ui, PassKind::Clear, PassKind::Physics] {
        graph.add_node(pass).unwrap();
    }
    // physics before fxaa; ui and clear are free
    graph.add_node_edge(PassKind::Physics, PassKind::Fxaa).unwrap();
    assert_eq!(graph.schedule(), Ok(vec![1, 2, 3, 0]));
    assert_eq!(RenderGraph::new().schedule(), Ok(vec![]));
    let built = ScheduledGraph::build(graph);
    assert!(built.is_ok());
    if let Ok(scheduled) = built {
        assert_eq!(
            scheduled.passes(),
            vec![PassKind::Ui, PassKind::Clear, PassKind::Physics, PassKind::Fxaa]
        );
    }
}

#[test]
fn global_graph_runs_clear_automata_animation() {
    let graph = global_graph();
    assert_eq!(graph.len(), 4);
    assert_eq!(graph.schedule(), Ok(vec![0, 1, 2, 3]));
    let scheduled = ScheduledGraph::global();
    assert_eq!(scheduled.node_order(), &vec![0, 1, 2, 3]);
    assert_eq!(
        scheduled.passes(),
        vec![PassKind::Clear, PassKind::Automata, PassKind::Animation, PassKind::CameraDriver]
    );
}

#[test]
fn view_graph_runs_compute_before_trace_before_raster() {
    let graph = view_graph();
    assert_eq!(graph.len(), 8);
    assert_eq!(graph.schedule(), Ok(vec![0, 6, 7, 1, 2, 3, 4, 5]));
    let scheduled = ScheduledGraph::view();
    assert_eq!(scheduled.render_graph().len(), 8);
    assert_eq!(
        scheduled.passes(),
        vec![
            PassKind::Attachments,
            PassKind::Rebuild,
            PassKind::Physics,
            PassKind::Trace,
            PassKind::Tonemapping,
            PassKind::Fxaa,
            PassKind::Ui,
            PassKind::Upscaling,
        ]
    );
}

#[test]
fn a_full_view_runs_every_pass() {
    let scheduled = ScheduledGraph::view();
    let runs = scheduled.run(&RenderGraphSettings::default(), &READY, &full_view());
    assert_eq!(runs.len(), 8);
    assert!(runs.iter().all(|run| run.outcome == Outcome::Ran));
    let nodes: Vec<usize> = runs.iter().map(|run| run.node).collect();
    assert_eq!(&nodes, scheduled.node_order());
    let trace = runs.iter().find(|run| run.pass == PassKind::Trace).unwrap();
    assert_eq!(
        trace.inputs,
        vec![
            Binding { slot: SlotName::Normal, resource: 100 },
            Binding { slot: SlotName::Position, resource: 200 },
        ]
    );
    for run in runs.iter().filter(|run| run.pass != PassKind::Trace) {
        assert!(run.inputs.is_empty());
    }
}

#[test]
fn physics_off_is_a_no_op_and_the_rest_still_runs() {
    let scheduled = ScheduledGraph::view();
    let off = RenderGraphSettings { physics: false, ..RenderGraphSettings::default() };
    let first = scheduled.run(&off, &READY, &full_view());
    for run in &first {
        let expected = if run.pass == PassKind::Physics { Outcome::Disabled } else { Outcome::Ran };
        assert_eq!(run.outcome, expected);
        let recorded = commands(run, &SIZES);
        if run.pass == PassKind::Physics {
            assert!(recorded.is_empty());
        }
        for command in recorded {
            assert!(!matches!(command, Command::CopyToMirror { .. }));
            assert!(!matches!(command, Command::Dispatch { pass: PassKind::Physics, .. }));
        }
    }
    // frame over frame the same
    assert_eq!(scheduled.run(&off, &READY, &full_view()), first);
}

#[test]
fn a_view_without_attachments_skips_trace_only() {
    let scheduled = ScheduledGraph::view();
    let settings = RenderGraphSettings::default();
    for bare in [
        ViewResources { normal: None, ..full_view() },
        ViewResources { position: None, ..full_view() },
        ViewResources { normal: None, position: None, ..full_view() },
    ] {
        for (pass, outcome) in outcomes(&scheduled, &settings, &READY, &bare) {
            let expected = match pass {
                PassKind::Attachments | PassKind::Trace => Outcome::Skipped,
                _ => Outcome::Ran,
            };
            assert_eq!(outcome, expected);
        }
    }
    // another view of the same frame is not affected
    assert!(outcomes(&scheduled, &settings, &READY, &full_view())
        .iter()
        .all(|(_, outcome)| *outcome == Outcome::Ran));
}

#[test]
fn trace_waits_for_its_own_resources() {
    let scheduled = ScheduledGraph::view();
    let settings = RenderGraphSettings::default();
    let trace_of = |pipelines: &PipelineStatus, view: &ViewResources<u32>| {
        outcomes(&scheduled, &settings, pipelines, view)
            .into_iter()
            .find(|(pass, _)| *pass == PassKind::Trace)
            .unwrap()
            .1
    };
    assert_eq!(trace_of(&READY, &full_view()), Outcome::Ran);
    assert_eq!(trace_of(&PipelineStatus { trace: false, ..READY }, &full_view()), Outcome::Skipped);
    assert_eq!(trace_of(&READY, &ViewResources { target: false, ..full_view() }), Outcome::Skipped);
    assert_eq!(trace_of(&READY, &ViewResources { uniforms: false, ..full_view() }), Outcome::Skipped);
    let off = RenderGraphSettings { trace: false, ..settings };
    let disabled = outcomes(&scheduled, &off, &READY, &full_view());
    assert!(disabled.contains(&(PassKind::Trace, Outcome::Disabled)));
    assert!(disabled.contains(&(PassKind::Tonemapping, Outcome::Ran)));
}

#[test]
fn a_pipeline_that_is_not_ready_skips_its_pass() {
    let scheduled = ScheduledGraph::global();
    let settings = RenderGraphSettings::default();
    let view = ViewResources::<u32> { target: false, uniforms: false, normal: None, position: None };
    let pipelines = PipelineStatus { automata: false, ..READY };
    assert_eq!(
        outcomes(&scheduled, &settings, &pipelines, &view),
        vec![
            (PassKind::Clear, Outcome::Ran),
            (PassKind::Automata, Outcome::Skipped),
            (PassKind::Animation, Outcome::Ran),
            (PassKind::CameraDriver, Outcome::Ran),
        ]
    );
    let off = RenderGraphSettings { clear: false, animation: false, ..settings };
    assert_eq!(
        outcomes(&scheduled, &off, &READY, &view),
        vec![
            (PassKind::Clear, Outcome::Disabled),
            (PassKind::Automata, Outcome::Ran),
            (PassKind::Animation, Outcome::Disabled),
            (PassKind::CameraDriver, Outcome::Ran),
        ]
    );
}

#[test]
fn commands_of_a_full_frame() {
    let settings = RenderGraphSettings::default();
    let view = full_view();
    let global: Vec<Command<u32>> = ScheduledGraph::global()
        .run(&settings, &READY, &view)
        .iter()
        .flat_map(|run| commands(run, &SIZES))
        .collect();
    assert_eq!(
        global,
        vec![
            Command::Dispatch { pass: PassKind::Clear, size: 64 },
            Command::Dispatch { pass: PassKind::Automata, size: 64 },
            Command::Dispatch { pass: PassKind::Animation, size: 5 },
            Command::Host { pass: PassKind::CameraDriver },
        ]
    );
    let per_view: Vec<Command<u32>> = ScheduledGraph::view()
        .run(&settings, &READY, &view)
        .iter()
        .flat_map(|run| commands(run, &SIZES))
        .collect();
    assert_eq!(
        per_view,
        vec![
            Command::Dispatch { pass: PassKind::Rebuild, size: 64 },
            Command::Dispatch { pass: PassKind::Physics, size: 10 },
            Command::CopyToMirror { elements: 1_000_000 },
            Command::Draw { normal: 100, position: 200 },
            Command::Host { pass: PassKind::Tonemapping },
            Command::Host { pass: PassKind::Fxaa },
            Command::Host { pass: PassKind::Ui },
            Command::Host { pass: PassKind::Upscaling },
        ]
    );
}

#[test]
fn dispatch_sizes_come_from_the_bookkeeping() {
    let mut physics = PhysicsData::new();
    physics.rebuild(&vec![1, 2, 3], 1_000);
    let animation = AnimationData { dispatch_size: 12 };
    assert_eq!(
        dispatch_sizes(64, &animation, &physics),
        DispatchSizes { world: 64, animation: 12, physics: 3, physics_elements: 1_000 }
    );
}

#[test]
fn graphs_keep_their_edges_in_the_order_added() {
    let global = global_graph();
    assert_eq!(
        global.ordering_edges(),
        &vec![
            NodeEdge { from: 0, to: 1 },
            NodeEdge { from: 1, to: 2 },
            NodeEdge { from: 2, to: 3 },
        ]
    );
    assert!(global.resource_edges().is_empty());
    let view = view_graph();
    assert_eq!(
        view.ordering_edges(),
        &vec![
            NodeEdge { from: 1, to: 2 },
            NodeEdge { from: 2, to: 3 },
            NodeEdge { from: 3, to: 4 },
            NodeEdge { from: 4, to: 5 },
            NodeEdge { from: 6, to: 7 },
            NodeEdge { from: 7, to: 1 },
        ]
    );
    assert_eq!(
        view.resource_edges(),
        &vec![
            SlotEdge { from: 0, output: SlotName::Normal, to: 1, input: SlotName::Normal },
            SlotEdge { from: 0, output: SlotName::Position, to: 1, input: SlotName::Position },
        ]
    );
    assert_eq!(view.pass_at(0), Some(PassKind::Attachments));
    assert_eq!(view.node_index(PassKind::Physics), Some(7));
}

#[test]
fn every_view_gets_what_it_would_get_alone() {
    let scheduled = ScheduledGraph::view();
    let settings = RenderGraphSettings::default();
    let views = vec![
        full_view(),
        ViewResources { normal: None, ..full_view() },
        ViewResources { target: true, uniforms: true, normal: Some(7), position: Some(8) },
    ];
    let together = scheduled.run_views(&settings, &READY, &views);
    assert_eq!(together.len(), 3);
    for (view, runs) in views.iter().zip(together.iter()) {
        assert_eq!(runs, &scheduled.run(&settings, &READY, view));
    }
    let trace = |runs: &Vec<voxel_pipeline::frame::NodeRun<u32>>| {
        runs.iter().find(|run| run.pass == PassKind::Trace).unwrap().clone()
    };
    assert_eq!(trace(&together[0]).outcome, Outcome::Ran);
    assert_eq!(trace(&together[1]).outcome, Outcome::Skipped);
    assert_eq!(
        trace(&together[2]).inputs,
        vec![
            Binding { slot: SlotName::Normal, resource: 7 },
            Binding { slot: SlotName::Position, resource: 8 },
        ]
    );
    assert!(scheduled.run_views(&settings, &READY, &Vec::<ViewResources<u32>>::new()).is_empty());
}

#[test]
fn one_pass_can_be_run_by_itself() {
    let scheduled = ScheduledGraph::view();
    let settings = RenderGraphSettings::default();
    let run = scheduled.run_pass(PassKind::Physics, &settings, &READY, &full_view()).unwrap();
    assert_eq!((run.node, run.pass, run.outcome), (7, PassKind::Physics, Outcome::Ran));
    assert!(run.inputs.is_empty());
    assert_eq!(
        commands(&run, &SIZES),
        vec![
            Command::Dispatch { pass: PassKind::Physics, size: 10 },
            Command::CopyToMirror { elements: 1_000_000 },
        ]
    );
    let trace = scheduled.run_pass(PassKind::Trace, &settings, &READY, &full_view()).unwrap();
    assert_eq!(commands(&trace, &SIZES), vec![Command::Draw { normal: 100, position: 200 }]);
    assert_eq!(scheduled.run_pass(PassKind::Clear, &settings, &READY, &full_view()), None);
    assert!(ScheduledGraph::global()
        .run_pass(PassKind::Clear, &settings, &READY, &full_view())
        .is_some());
}

#[test]
fn runs_follow_every_edge() {
    let scheduled = ScheduledGraph::view();
    let runs = scheduled.run(&RenderGraphSettings::default(), &READY, &full_view());
    let at = |node: usize| runs.iter().position(|run| run.node == node).unwrap();
    let graph = scheduled.render_graph();
    for edge in graph.ordering_edges() {
        assert!(at(edge.from) < at(edge.to));
    }
    for edge in graph.resource_edges() {
        assert!(at(edge.from) < at(edge.to));
    }
}
