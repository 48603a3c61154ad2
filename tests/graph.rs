use wvr::automation::{AutomationCurve, Domain, Interpolation, Keyframe};
use wvr::graph::{Source, StageGraph};
use wvr::inputs::{InputKind, InputRegistry};
use wvr::ratio::Ratio;
use wvr::stage::{GraphError, Precision, SampledInput, SamplingMode, StageConfig, StageUpdate, Variable};

fn filters() -> Vec<String> {
    vec!["blur".to_string(), "invert".to_string(), "mix".to_string()]
}

fn bind(name: &str, source: &str) -> (String, SampledInput) {
    (name.to_string(), SampledInput { source: source.to_string(), mode: SamplingMode::Linear })
}

fn config(name: &str, filter: &str, inputs: Vec<(String, SampledInput)>) -> StageConfig {
    StageConfig {
        name: name.to_string(),
        filter: filter.to_string(),
        precision: Precision::Byte,
        inputs,
        variables: vec![],
    }
}

fn graph() -> StageGraph {
    let mut g = StageGraph::new(filters(), config("out", "mix", vec![bind("iChannel0", "c")])).unwrap();
    g.add_stage(config("a", "blur", vec![bind("iChannel0", "cam0")])).unwrap();
    g.add_stage(config("b", "invert", vec![bind("iChannel0", "a")])).unwrap();
    g.add_stage(config("c", "mix", vec![bind("iChannel0", "b"), bind("iChannel1", "a")])).unwrap();
    g
}

fn names(g: &StageGraph) -> Vec<String> {
    g.stages.iter().map(|s| s.name.clone()).collect()
}

fn sorted_ids(g: &StageGraph) -> Vec<u64> {
    let mut ids: Vec<u64> = g.stages.iter().map(|s| s.id).collect();
    ids.sort();
    ids
}

#[test]
fn stages_get_fresh_ids_in_order() {
    let g = graph();
    assert_eq!(g.final_stage.id, 0);
    assert_eq!(g.stages.iter().map(|s| s.id).collect::<Vec<u64>>(), vec![1, 2, 3]);
    assert_eq!(g.next_id, 4);
}

#[test]
fn moving_stages_keeps_identities_and_bindings() {
    let mut registry = InputRegistry::new();
    registry.add("cam0".to_string(), InputKind::Camera).unwrap();
    for from in 0..3usize {
        for to in 0..3usize {
            let mut g = graph();
            let lookups = ["a", "b", "c", "cam0", "gone", "out"];
            let before: Vec<Source> = lookups.iter().map(|n| g.resolve_binding(&registry, &n.to_string())).collect();
            let ids = sorted_ids(&g);
            let moved_id = g.stages[from].id;
            g.move_stage(from, to).unwrap();
            assert_eq!(g.stages[to].id, moved_id);
            assert_eq!(sorted_ids(&g), ids);
            let after: Vec<Source> = lookups.iter().map(|n| g.resolve_binding(&registry, &n.to_string())).collect();
            assert_eq!(before, after);
        }
    }
}

#[test]
fn moving_first_stage_to_last() {
    let mut g = graph();
    g.move_stage(0, 2).unwrap();
    assert_eq!(names(&g), vec!["b", "c", "a"]);
    assert_eq!(g.stages[2].inputs[0].1.source, "cam0");
}

#[test]
fn moving_or_removing_out_of_range_is_refused() {
    let mut g = graph();
    assert_eq!(g.move_stage(3, 0), Err(GraphError::NoSuchStage));
    assert_eq!(g.move_stage(0, 3), Err(GraphError::NoSuchStage));
    assert_eq!(g.remove_stage(3), Err(GraphError::NoSuchStage));
    assert_eq!(names(&g), vec!["a", "b", "c"]);
}

#[test]
fn removing_a_stage_leaves_bindings_that_now_read_black() {
    let registry = InputRegistry::new();
    let mut g = graph();
    g.remove_stage(0).unwrap();
    assert_eq!(names(&g), vec!["b", "c"]);
    assert_eq!(g.stages[0].inputs[0].1.source, "a");
    assert_eq!(g.resolve_binding(&registry, &"a".to_string()), Source::Empty);
}

#[test]
fn binding_resolution_prefers_stages_then_inputs() {
    let mut registry = InputRegistry::new();
    let (cam, _) = registry.add("cam0".to_string(), InputKind::Camera).unwrap();
    let (shadow, _) = registry.add("b".to_string(), InputKind::Picture).unwrap();
    let g = graph();
    assert_eq!(g.resolve_binding(&registry, &"cam0".to_string()), Source::Input(cam.id));
    assert_eq!(g.resolve_binding(&registry, &"b".to_string()), Source::Stage(2));
    assert_ne!(g.resolve_binding(&registry, &"b".to_string()), Source::Input(shadow.id));
    assert_eq!(g.resolve_binding(&registry, &"nothing".to_string()), Source::Empty);
}

#[test]
fn adding_stages_checks_filter_name_and_config() {
    let mut g = graph();
    assert_eq!(g.add_stage(config("d", "sharpen", vec![])), Err(GraphError::UnknownFilter));
    assert_eq!(g.add_stage(config("a", "blur", vec![])), Err(GraphError::DuplicateStageName));
    let twice = vec![bind("x", "a"), bind("x", "b")];
    assert_eq!(g.add_stage(config("d", "blur", twice)), Err(GraphError::InvalidConfig));
    let mut bad_curve = config("d", "blur", vec![]);
    bad_curve.variables.push((
        "v".to_string(),
        Variable {
            value: 0,
            automation: Some(AutomationCurve { domain: Domain::Beat, interpolation: Interpolation::Step, keyframes: vec![] }),
        },
    ));
    assert_eq!(g.add_stage(bad_curve), Err(GraphError::InvalidConfig));
    assert_eq!(g.stages.len(), 3);
    g.next_id = u64::MAX;
    assert_eq!(g.add_stage(config("d", "blur", vec![])), Err(GraphError::IdsExhausted));
    assert!(StageGraph::new(filters(), config("out", "sharpen", vec![])).is_err());
}

#[test]
fn raw_value_overrides_automation() {
    let mut g = graph();
    g.update_stage(0, StageUpdate::Variable("gain".to_string(), 5)).unwrap();
    let c = AutomationCurve::new(Domain::Beat, Interpolation::Linear, vec![Keyframe { at: 0, value: 0 }, Keyframe { at: 1000, value: 100 }]).unwrap();
    g.update_stage(0, StageUpdate::VariableAutomation("gain".to_string(), c)).unwrap();
    let var = &g.stages[0].variables[0].1;
    assert_eq!(var.value, 5);
    assert!(var.automation.is_some());
    assert_eq!(var.current(Ratio::from_int(0), Ratio { num: 1, den: 2 }), 50);
    g.update_stage(0, StageUpdate::Variable("gain".to_string(), 7)).unwrap();
    let var = &g.stages[0].variables[0].1;
    assert!(var.automation.is_none());
    assert_eq!(var.current(Ratio::from_int(0), Ratio { num: 1, den: 2 }), 7);
    assert_eq!(g.stages[0].variables.len(), 1);
}

#[test]
fn stage_updates_report_their_errors() {
    let mut g = graph();
    let c = AutomationCurve::new(Domain::Time, Interpolation::Step, vec![Keyframe { at: 0, value: 1 }]).unwrap();
    assert_eq!(g.update_stage(1, StageUpdate::VariableAutomation("missing".to_string(), c.clone())), Err(GraphError::UnknownVariable));
    let empty = AutomationCurve { domain: Domain::Time, interpolation: Interpolation::Step, keyframes: vec![] };
    assert_eq!(g.update_stage(1, StageUpdate::VariableAutomation("missing".to_string(), empty)), Err(GraphError::InvalidCurve));
    assert_eq!(g.update_stage(1, StageUpdate::Name("c".to_string())), Err(GraphError::DuplicateStageName));
    assert_eq!(g.update_stage(1, StageUpdate::Filter("sharpen".to_string())), Err(GraphError::UnknownFilter));
    assert_eq!(g.update_stage(9, StageUpdate::Precision(Precision::Full)), Err(GraphError::NoSuchStage));
    g.update_stage(1, StageUpdate::Name("b".to_string())).unwrap();
    g.update_stage(1, StageUpdate::Name("e".to_string())).unwrap();
    g.update_stage(1, StageUpdate::Filter("blur".to_string())).unwrap();
    g.update_stage(1, StageUpdate::Precision(Precision::Half)).unwrap();
    g.update_stage(1, StageUpdate::Input("iChannel0".to_string(), SampledInput { source: "c".to_string(), mode: SamplingMode::Mipmaps })).unwrap();
    let s = &g.stages[1];
    assert_eq!(s.name, "e");
    assert_eq!(s.filter, "blur");
    assert_eq!(s.precision, Precision::Half);
    assert_eq!(s.inputs.len(), 1);
    assert_eq!(s.inputs[0].1.source, "c");
    assert_eq!(s.inputs[0].1.mode, SamplingMode::Mipmaps);
}

#[test]
fn final_stage_takes_the_same_updates() {
    let mut g = graph();
    assert_eq!(g.update_final_stage(StageUpdate::Filter("sharpen".to_string())), Err(GraphError::UnknownFilter));
    g.update_final_stage(StageUpdate::Name("a".to_string())).unwrap();
    g.update_final_stage(StageUpdate::Input("iChannel0".to_string(), SampledInput { source: "a".to_string(), mode: SamplingMode::Nearest })).unwrap();
    assert_eq!(g.final_stage.name, "a");
    assert_eq!(g.final_stage.inputs[0].1.source, "a");
    assert_eq!(g.final_stage.inputs[0].1.mode, SamplingMode::Nearest);
}

#[test]
fn render_plan_lists_stages_in_order_then_the_final_one() {
    let mut registry = InputRegistry::new();
    let (cam, _) = registry.add("cam0".to_string(), InputKind::Camera).unwrap();
    let mut g = graph();
    let c = AutomationCurve::new(Domain::Time, Interpolation::Linear, vec![Keyframe { at: 0, value: 0 }, Keyframe { at: 2000, value: 20 }]).unwrap();
    g.update_stage(0, StageUpdate::Variable("t".to_string(), 0)).unwrap();
    g.update_stage(0, StageUpdate::VariableAutomation("t".to_string(), c)).unwrap();
    g.update_stage(0, StageUpdate::Variable("raw".to_string(), -3)).unwrap();
    let plan = g.render_plan(&registry, Ratio { num: 3, den: 2 }, Ratio::from_int(3));
    assert_eq!(plan.len(), 4);
    assert_eq!(plan.iter().map(|p| p.stage_id).collect::<Vec<u64>>(), vec![1, 2, 3, 0]);
    assert_eq!(plan[0].inputs[0].source, Source::Input(cam.id));
    assert_eq!(plan[0].values, vec![("t".to_string(), 15), ("raw".to_string(), -3)]);
    assert_eq!(plan[2].inputs[0].source, Source::Stage(2));
    assert_eq!(plan[2].inputs[1].source, Source::Stage(1));
    assert_eq!(plan[3].filter, "mix");
    assert_eq!(plan[3].inputs[0].source, Source::Stage(3));
}
