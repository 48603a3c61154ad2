use wvr::control::{ControlError, ControlMessage, Effect, SessionConfig, Setting, SetupError, ViewSettings, Wvr};
use wvr::graph::StageGraph;
use wvr::inputs::{InputKind, InputProperty, RegistryError};
use wvr::ratio::Ratio;
use wvr::stage::{GraphError, Precision, SampledInput, SamplingMode, StageConfig, StageUpdate};
use wvr::transport::{PlayState, Transport};

fn config(name: &str, source: &str) -> StageConfig {
    StageConfig {
        name: name.to_string(),
        filter: "mix".to_string(),
        precision: Precision::Byte,
        inputs: vec![("iChannel0".to_string(), SampledInput { source: source.to_string(), mode: SamplingMode::Linear })],
        variables: vec![],
    }
}

fn view() -> ViewSettings {
    ViewSettings { width: 640, height: 360, dynamic_resolution: false, vsync: true, fullscreen: false }
}

fn session(capture: bool) -> Wvr {
    let graph = StageGraph::new(vec!["mix".to_string()], config("out", "a")).unwrap();
    let clock = Transport::new(Ratio::from_int(120), 30, false, 0);
    Wvr::from_parts(clock, graph, view(), capture)
}

fn stage_names(w: &Wvr) -> Vec<String> {
    w.graph.stages.iter().map(|s| s.name.clone()).collect()
}

#[test]
fn a_refused_message_does_not_stop_the_others() {
    let mut w = session(false);
    let batch = vec![
        ControlMessage::AddRenderStage(config("a", "cam0")),
        ControlMessage::AddRenderStage(config("b", "a")),
        ControlMessage::RemoveRenderStage(7),
        ControlMessage::MoveRenderStage(1, 0),
        ControlMessage::AddInput("cam0".to_string(), InputKind::Camera),
        ControlMessage::Start,
    ];
    let results = w.drain(batch, 100);
    assert_eq!(results.len(), 6);
    assert!(results[0].is_ok());
    assert!(results[1].is_ok());
    assert_eq!(results[2].as_ref().unwrap_err(), &ControlError::Graph(GraphError::NoSuchStage));
    assert!(results[3].is_ok());
    assert!(matches!(results[4], Ok(Effect::InputAdded(slot, None)) if slot.id == 0 && slot.kind == InputKind::Camera));
    assert!(matches!(results[5], Ok(Effect::StartInputs)));
    assert_eq!(stage_names(&w), vec!["b", "a"]);
    assert_eq!(w.graph.stages.iter().map(|s| s.id).collect::<Vec<u64>>(), vec![2, 1]);
    assert!(w.is_playing());
    assert_eq!(w.transport.last_update_us, 100);
}

#[test]
fn renaming_an_input_keeps_its_provider() {
    let mut w = session(false);
    let added = w.handle_message(ControlMessage::AddInput("cam0".to_string(), InputKind::Camera), 0).unwrap();
    let slot = match added {
        Effect::InputAdded(slot, None) => slot,
        other => panic!("unexpected {:?}", other),
    };
    let renamed = w.handle_message(ControlMessage::RenameInput("cam0".to_string(), "camA".to_string()), 0).unwrap();
    match renamed {
        Effect::InputRenamed(moved, name, None) => {
            assert_eq!(moved, slot);
            assert_eq!(name, "camA");
        },
        other => panic!("unexpected {:?}", other),
    }
    assert_eq!(w.inputs.find(&"camA".to_string()), Some(slot));
    assert_eq!(w.inputs.find(&"cam0".to_string()), None);
    assert_eq!(w.inputs.entries.len(), 1);
}

#[test]
fn renaming_onto_an_existing_input_replaces_it() {
    let mut w = session(false);
    w.handle_message(ControlMessage::AddInput("cam0".to_string(), InputKind::Camera), 0).unwrap();
    w.handle_message(ControlMessage::AddInput("clip".to_string(), InputKind::Video), 0).unwrap();
    let r = w.handle_message(ControlMessage::RenameInput("cam0".to_string(), "clip".to_string()), 0).unwrap();
    assert!(matches!(r, Effect::InputRenamed(moved, _, Some(old)) if moved.id == 0 && old.id == 1));
    assert_eq!(w.inputs.find(&"clip".to_string()).unwrap().kind, InputKind::Camera);
    assert_eq!(w.inputs.entries.len(), 1);
}

#[test]
fn input_messages_on_unknown_names_are_refused() {
    let mut w = session(false);
    let unknown = [
        ControlMessage::RenameInput("x".to_string(), "y".to_string()),
        ControlMessage::RemoveInput("x".to_string()),
        ControlMessage::UpdateInput("x".to_string(), InputProperty::Width(3)),
    ];
    for msg in unknown.iter() {
        assert_eq!(w.handle_message(msg.clone(), 0).unwrap_err(), ControlError::UnknownInput);
    }
    w.handle_message(ControlMessage::AddInput("x".to_string(), InputKind::Midi), 0).unwrap();
    let r = w.handle_message(ControlMessage::UpdateInput("x".to_string(), InputProperty::SpeedFps(Ratio::from_int(24))), 0).unwrap();
    assert!(matches!(r, Effect::InputChanged(slot, InputProperty::SpeedFps(_)) if slot.id == 0));
    let r = w.handle_message(ControlMessage::RemoveInput("x".to_string()), 0).unwrap();
    assert!(matches!(r, Effect::InputRemoved(slot) if slot.id == 0));
    w.inputs.next_id = u64::MAX;
    assert_eq!(
        w.handle_message(ControlMessage::AddInput("y".to_string(), InputKind::Midi), 0).unwrap_err(),
        ControlError::Registry(RegistryError::IdsExhausted)
    );
}

#[test]
fn stop_twice_is_stop_once_and_start_after_stop_is_ignored() {
    let mut w = session(false);
    assert!(matches!(w.play(5), Effect::StartInputs));
    assert!(matches!(w.play(6), Effect::Nothing));
    assert!(matches!(w.stop(), Effect::StopAll));
    assert!(matches!(w.stop(), Effect::Nothing));
    assert!(matches!(w.play(9), Effect::Nothing));
    assert!(matches!(w.pause(), Effect::Nothing));
    assert_eq!(w.transport.state, PlayState::Stopped);
    assert_eq!(w.transport.last_update_us, 5);
}

#[test]
fn pause_reaches_the_inputs_until_stopped() {
    let mut w = session(false);
    assert!(matches!(w.pause(), Effect::PauseInputs));
    w.play(0);
    assert!(matches!(w.pause(), Effect::PauseInputs));
    assert!(!w.is_playing());
}

#[test]
fn settings_are_applied_or_refused() {
    let mut w = session(false);
    assert!(matches!(w.handle_message(ControlMessage::Configure(Setting::Width(800)), 0), Ok(Effect::Resize(800, 360))));
    assert!(matches!(w.handle_message(ControlMessage::Configure(Setting::Height(600)), 0), Ok(Effect::Resize(800, 600))));
    assert_eq!((w.get_width(), w.get_height()), (800, 600));
    for bad in [Setting::Width(0), Setting::Height(0), Setting::TargetFps(0), Setting::Bpm(Ratio { num: 1, den: 0 })] {
        assert_eq!(w.handle_message(ControlMessage::Configure(bad), 0).unwrap_err(), ControlError::InvalidSetting);
    }
    w.handle_message(ControlMessage::Configure(Setting::Bpm(Ratio { num: 175, den: 2 })), 0).unwrap();
    w.handle_message(ControlMessage::Configure(Setting::TargetFps(50)), 0).unwrap();
    w.handle_message(ControlMessage::Configure(Setting::LockedSpeed(true)), 0).unwrap();
    w.handle_message(ControlMessage::Configure(Setting::VSync(false)), 0).unwrap();
    w.handle_message(ControlMessage::Configure(Setting::Fullscreen(true)), 0).unwrap();
    w.handle_message(ControlMessage::Configure(Setting::DynamicResolution(true)), 0).unwrap();
    w.handle_message(ControlMessage::Configure(Setting::Screenshot(true)), 0).unwrap();
    assert_eq!(w.transport.bpm, Ratio { num: 175, den: 2 });
    assert_eq!(w.transport.target_fps, 50);
    assert!(w.transport.locked_speed);
    assert!(!w.view.vsync && w.view.fullscreen && w.view.dynamic_resolution);
    assert!(w.capture.requested);
}

#[test]
fn stage_messages_reach_the_graph() {
    let mut w = session(false);
    w.handle_message(ControlMessage::AddRenderStage(config("a", "cam0")), 0).unwrap();
    w.handle_message(ControlMessage::UpdateRenderStage(0, StageUpdate::Name("z".to_string())), 0).unwrap();
    w.handle_message(ControlMessage::UpdateFinalStage(StageUpdate::Precision(Precision::Full)), 0).unwrap();
    assert_eq!(stage_names(&w), vec!["z"]);
    assert_eq!(w.graph.final_stage.precision, Precision::Full);
    assert_eq!(
        w.handle_message(ControlMessage::UpdateRenderStage(4, StageUpdate::Name("q".to_string())), 0).unwrap_err(),
        ControlError::Graph(GraphError::NoSuchStage)
    );
    assert_eq!(
        w.handle_message(ControlMessage::UpdateFinalStage(StageUpdate::Filter("none".to_string())), 0).unwrap_err(),
        ControlError::Graph(GraphError::UnknownFilter)
    );
    assert_eq!(
        w.handle_message(ControlMessage::AddRenderStage(config("z", "a")), 0).unwrap_err(),
        ControlError::Graph(GraphError::DuplicateStageName)
    );
    w.handle_message(ControlMessage::RemoveRenderStage(0), 0).unwrap();
    assert!(w.graph.stages.is_empty());
}

#[test]
fn update_advances_only_while_playing() {
    let mut w = session(false);
    assert_eq!(w.update(1_000_000, 640, 360), Ok(false));
    assert_eq!(w.transport.time, Ratio::from_int(0));
    w.play(0);
    w.update(250_000, 640, 360).unwrap();
    assert_eq!(w.transport.time, Ratio { num: 250_000, den: 1_000_000 });
    assert_eq!(w.transport.beat, Ratio { num: 30_000_000, den: 60_000_000 });
}

#[test]
fn capture_locks_the_clock_and_fixes_the_resolution() {
    let mut w = session(true);
    w.view.dynamic_resolution = true;
    w.play(0);
    assert_eq!(w.update(7_777_777, 1920, 1080), Ok(false));
    assert!(w.transport.locked_speed);
    assert_eq!(w.transport.time, Ratio { num: 1, den: 30 });
    assert_eq!((w.view.width, w.view.height), (640, 360));
}

#[test]
fn dynamic_view_follows_the_window() {
    let mut w = session(false);
    w.play(0);
    assert_eq!(w.update(0, 1920, 1080), Ok(false));
    w.view.dynamic_resolution = true;
    assert_eq!(w.update(0, 1920, 1080), Ok(true));
    assert_eq!((w.get_width(), w.get_height()), (1920, 1080));
    assert_eq!(w.update(0, 1920, 1080), Ok(false));
    assert_eq!(w.update(0, 0, 1080), Ok(false));
}

#[test]
fn frames_are_counted_and_handed_to_capture() {
    let mut w = session(true);
    assert_eq!(w.render_final_stage(), Some(0));
    assert!(!w.capture_sent(true));
    assert_eq!(w.render_final_stage(), Some(1));
    assert!(w.capture_sent(false));
    assert_eq!(w.render_final_stage(), None);
    assert!(!w.capture_sent(false));
    assert_eq!(w.transport.frame_count, 3);
    w.handle_message(ControlMessage::Configure(Setting::Screenshot(true)), 0).unwrap();
    assert_eq!(w.render_final_stage(), None);
}

#[test]
fn render_stages_plans_every_stage() {
    let mut w = session(false);
    w.handle_message(ControlMessage::AddRenderStage(config("a", "cam0")), 0).unwrap();
    let plan = w.render_stages();
    assert_eq!(plan.len(), 2);
    assert_eq!(plan[0].stage_id, 1);
    assert_eq!(plan[1].stage_id, 0);
}

#[test]
fn focus_and_cursor_are_kept() {
    let mut w = session(false);
    w.set_focused(true);
    w.set_mouse_position((12, -4));
    assert!(w.focused);
    assert_eq!(w.mouse_position, (12, -4));
}

fn session_config() -> SessionConfig {
    SessionConfig {
        filters: vec!["mix".to_string(), "blur".to_string()],
        render_chain: vec![config("a", "cam0"), config("b", "a")],
        final_stage: config("out", "b"),
        inputs: vec![("cam0".to_string(), InputKind::Camera), ("logo".to_string(), InputKind::Picture)],
        bpm: Ratio::from_int(128),
        target_fps: 60,
        locked_speed: false,
        screenshot: true,
        view: view(),
    }
}

#[test]
fn a_session_is_built_from_its_configuration() {
    let w = Wvr::new(session_config(), 42).unwrap();
    assert_eq!(w.graph.final_stage.id, 0);
    assert_eq!(w.graph.final_stage.name, "out");
    assert_eq!(stage_names(&w), vec!["a", "b"]);
    assert_eq!(w.graph.stages.iter().map(|s| s.id).collect::<Vec<u64>>(), vec![1, 2]);
    assert_eq!(w.inputs.find(&"cam0".to_string()).unwrap().id, 0);
    assert_eq!(w.inputs.find(&"logo".to_string()).unwrap().kind, InputKind::Picture);
    assert_eq!(w.transport.state, PlayState::Paused);
    assert_eq!(w.transport.last_update_us, 42);
    assert_eq!(w.transport.bpm, Ratio::from_int(128));
    assert!(w.capture.is_capturing());
    assert_eq!((w.get_width(), w.get_height()), (640, 360));
}

#[test]
fn a_bad_configuration_is_refused() {
    let mut c = session_config();
    c.target_fps = 0;
    assert_eq!(Wvr::new(c, 0).unwrap_err(), SetupError::InvalidSetting);
    let mut c = session_config();
    c.final_stage.filter = "none".to_string();
    assert_eq!(Wvr::new(c, 0).unwrap_err(), SetupError::Graph(GraphError::UnknownFilter));
    let mut c = session_config();
    c.render_chain.push(config("a", "b"));
    assert_eq!(Wvr::new(c, 0).unwrap_err(), SetupError::Graph(GraphError::DuplicateStageName));
    let mut c = session_config();
    c.render_chain[1].filter = "none".to_string();
    c.render_chain.push(config("a", "b"));
    assert_eq!(Wvr::new(c, 0).unwrap_err(), SetupError::Graph(GraphError::UnknownFilter));
    let mut c = session_config();
    c.inputs.push(("cam0".to_string(), InputKind::Video));
    assert_eq!(Wvr::new(c, 0).unwrap_err(), SetupError::DuplicateInput);
}
