//! The session: clock, stage graph, input registry, view settings and
//! capture state, mutated by control messages drained once per frame.

use vstd::prelude::*;
use crate::graph::{StageGraph, StagePlan, plans, built_from, in_catalog, has_stage_named};
use crate::inputs::{InputKind, InputProperty, InputRegistry, InputSlot, RegistryError};
use crate::named::{has_key, lookup, upserted, without_key};
use crate::ratio::Ratio;
use crate::sink::Capture;
use crate::stage::{GraphError, StageConfig, StageUpdate};
use crate::transport::{ClockOverflow, PlayState, Transport};

verus! {

/// Output settings of the session.
#[derive(Clone, Copy, Debug, PartialEq, Eq, Structural)]
pub struct ViewSettings {
    /// Internal render resolution.
    pub width: u64,
    pub height: u64,
    /// Follow the window's size; otherwise keep the resolution above.
    pub dynamic_resolution: bool,
    pub vsync: bool,
    pub fullscreen: bool,
}

/// A session setting carried by a control message.
#[derive(Clone, Copy, Debug, PartialEq, Eq, Structural)]
pub enum Setting {
    Bpm(Ratio),
    Width(u64),
    Height(u64),
    TargetFps(u64),
    DynamicResolution(bool),
    VSync(bool),
    Fullscreen(bool),
    LockedSpeed(bool),
    Screenshot(bool),
}

/// A mutation of the session, already decoded.
#[derive(Clone, Debug)]
pub enum ControlMessage {
    Start,
    Pause,
    Stop,
    /// Register a provider that the caller has built for this name.
    AddInput(String, InputKind),
    UpdateInput(String, InputProperty),
    RenameInput(String, String),
    RemoveInput(String),
    Configure(Setting),
    AddRenderStage(StageConfig),
    RemoveRenderStage(usize),
    MoveRenderStage(usize, usize),
    UpdateRenderStage(usize, StageUpdate),
    UpdateFinalStage(StageUpdate),
}

/// What the caller does to the providers, the window or the frame sink
/// after a message was applied.
#[derive(Clone, Debug)]
pub enum Effect {
    Nothing,
    /// Start every provider.
    StartInputs,
    /// Pause every provider.
    PauseInputs,
    /// Stop every provider and tell the frame sink to finish.
    StopAll,
    /// Keep the new provider under `slot.id`; drop the replaced one.
    InputAdded(InputSlot, Option<InputSlot>),
    /// Drop the provider under this id.
    InputRemoved(InputSlot),
    /// Tell the provider it is now called by the new name; drop the replaced
    /// one.
    InputRenamed(InputSlot, String, Option<InputSlot>),
    /// Forward the property change to the provider.
    InputChanged(InputSlot, InputProperty),
    /// Resize every stage buffer to this resolution before the next pass.
    Resize(u64, u64),
}

/// Why a message was refused. A refused message changes nothing.
#[derive(Clone, Copy, Debug, PartialEq, Eq, Structural)]
pub enum ControlError {
    Graph(GraphError),
    Registry(RegistryError),
    /// No input of that name.
    UnknownInput,
    /// A zero rate or size, or a tempo with a zero denominator.
    InvalidSetting,
}

/// Everything a session is built from.
#[derive(Clone, Debug)]
pub struct SessionConfig {
    /// Names of the filter programs the catalog can resolve.
    pub filters: Vec<String>,
    /// Interior stages, in render order.
    pub render_chain: Vec<StageConfig>,
    pub final_stage: StageConfig,
    /// Inputs whose providers the caller has built, by name.
    pub inputs: Vec<(String, InputKind)>,
    pub bpm: Ratio,
    pub target_fps: u64,
    pub locked_speed: bool,
    /// Capture every frame to the frame sink.
    pub screenshot: bool,
    pub view: ViewSettings,
}

/// Why a session could not be built from its configuration.
#[derive(Clone, Copy, Debug, PartialEq, Eq, Structural)]
pub enum SetupError {
    /// A zero rate or size, or a tempo with a zero denominator.
    InvalidSetting,
    /// Two inputs share a name.
    DuplicateInput,
    /// The final stage, or the first interior stage that could not be added.
    Graph(GraphError),
}

/// Why interior stage `i` of `chain` cannot follow the ones before it.
pub open spec fn chain_stage_error(filters: Seq<String>, chain: Seq<StageConfig>, i: int) -> Option<GraphError> {
    if !chain[i].wf() {
        Some(GraphError::InvalidConfig)
    } else if !in_catalog(filters, chain[i].filter@) {
        Some(GraphError::UnknownFilter)
    } else if exists|j: int| 0 <= j < i && #[trigger] chain[j].name@ == chain[i].name@ {
        Some(GraphError::DuplicateStageName)
    } else {
        None
    }
}

/// The error of the first of the first `n` interior stages that fails.
pub open spec fn chain_error(filters: Seq<String>, chain: Seq<StageConfig>, n: int) -> Option<GraphError>
    decreases n,
{
    if n <= 0 {
        None
    } else {
        match chain_error(filters, chain, n - 1) {
            Some(e) => Some(e),
            None => chain_stage_error(filters, chain, n - 1),
        }
    }
}

/// Once a stage of the chain fails, later stages do not change the error.
proof fn lemma_chain_error_sticks(filters: Seq<String>, chain: Seq<StageConfig>, a: int, b: int)
    requires
        0 <= a <= b,
        chain_error(filters, chain, a) is Some,
    ensures
        chain_error(filters, chain, b) == chain_error(filters, chain, a),
    decreases b - a,
{
    if a < b {
        lemma_chain_error_sticks(filters, chain, a, b - 1);
    }
}

pub open spec fn input_names_unique(inputs: Seq<(String, InputKind)>) -> bool {
    forall|i: int, j: int| 0 <= i < j < inputs.len() ==> #[trigger] inputs[i].0@ != #[trigger] inputs[j].0@
}

/// Why a session cannot be built from `c`, if it cannot.
pub open spec fn setup_error(c: SessionConfig) -> Option<SetupError> {
    if !c.bpm.wf() || c.target_fps == 0 || c.view.width == 0 || c.view.height == 0 {
        Some(SetupError::InvalidSetting)
    } else if !c.final_stage.wf() {
        Some(SetupError::Graph(GraphError::InvalidConfig))
    } else if !in_catalog(c.filters@, c.final_stage.filter@) {
        Some(SetupError::Graph(GraphError::UnknownFilter))
    } else if chain_error(c.filters@, c.render_chain@, c.render_chain@.len() as int) is Some {
        Some(SetupError::Graph(chain_error(c.filters@, c.render_chain@, c.render_chain@.len() as int)->0))
    } else if !input_names_unique(c.inputs@) {
        Some(SetupError::DuplicateInput)
    } else {
        None
    }
}

/// `w` is the session built from `c` at wall time `now_us`: paused at
/// zero, the final stage under id 0, the interior stages in order under ids
/// from 1, and the inputs in order under ids from 0.
pub open spec fn built_session(w: Wvr, c: SessionConfig, now_us: u64) -> bool {
    &&& w.transport == (Transport {
        bpm: c.bpm,
        target_fps: c.target_fps,
        locked_speed: c.locked_speed,
        time: Ratio::from_int_spec(0),
        beat: Ratio::from_int_spec(0),
        frame_count: 0,
        state: PlayState::Paused,
        last_update_us: now_us,
    })
    &&& built_from(w.graph.final_stage, 0, c.final_stage)
    &&& w.graph.filters@ == c.filters@
    &&& w.graph.stages@.len() == c.render_chain@.len()
    &&& forall|i: int| 0 <= i < c.render_chain@.len() ==> built_from(#[trigger] w.graph.stages@[i], (i + 1) as u64, c.render_chain@[i])
    &&& w.graph.next_id == c.render_chain@.len() + 1
    &&& w.inputs.entries@.len() == c.inputs@.len()
    &&& forall|i: int| 0 <= i < c.inputs@.len() ==> #[trigger] w.inputs.entries@[i] == (c.inputs@[i].0, InputSlot { id: i as u64, kind: c.inputs@[i].1 })
    &&& w.inputs.next_id == c.inputs@.len()
    &&& w.view == c.view
    &&& w.capture == (Capture { requested: c.screenshot, broken: false })
    &&& !w.focused
    &&& w.mouse_position == (0i64, 0i64)
}

/// A live session: clock, stage graph, input registry, view settings and
/// capture state, owned by the render thread.
#[derive(Debug)]
pub struct Wvr {
    pub transport: Transport,
    pub graph: StageGraph,
    pub inputs: InputRegistry,
    pub view: ViewSettings,
    pub capture: Capture,
    /// The window has input focus.
    pub focused: bool,
    /// Cursor position in window pixels.
    pub mouse_position: (i64, i64),
}

pub open spec fn setting_valid(s: Setting) -> bool {
    match s {
        Setting::Bpm(b) => b.wf(),
        Setting::Width(w) => w > 0,
        Setting::Height(h) => h > 0,
        Setting::TargetFps(f) => f > 0,
        _ => true,
    }
}

/// Whether no two inputs share a name.
fn unique_input_names(inputs: &Vec<(String, InputKind)>) -> (r: bool)
    ensures
        r == input_names_unique(inputs@),
{
    let n = inputs.len();
    let mut j: usize = 0;
    while j < n
        invariant
            n == inputs@.len(),
            0 <= j <= n,
            forall|a: int, b: int| 0 <= a < b < j ==> #[trigger] inputs@[a].0@ != #[trigger] inputs@[b].0@,
        decreases n - j,
    {
        let mut i: usize = 0;
        while i < j
            invariant
                n == inputs@.len(),
                0 <= i <= j < n,
                forall|a: int| 0 <= a < i ==> #[trigger] inputs@[a].0@ != inputs@[j as int].0@,
            decreases j - i,
        {
            if inputs[i].0 == inputs[j].0 {
                assert(inputs@[i as int].0@ == inputs@[j as int].0@);
                return false;
            }
            i = i + 1;
        }
        j = j + 1;
    }
    true
}

/// `t` is `s` with only the registry changed, to `inputs`.
pub open spec fn with_inputs(s: Wvr, t: Wvr, entries: Seq<(String, InputSlot)>, next_id: u64) -> bool {
    &&& t.inputs.entries@ == entries
    &&& t.inputs.next_id == next_id
    &&& t.transport == s.transport
    &&& t.graph == s.graph
    &&& t.view == s.view
    &&& t.capture == s.capture
}

/// `t` is `s` with only the graph changed.
pub open spec fn graph_only(s: Wvr, t: Wvr) -> bool {
    &&& t.transport == s.transport
    &&& t.inputs == s.inputs
    &&& t.view == s.view
    &&& t.capture == s.capture
}

/// The session after setting `st`, which is valid.
pub open spec fn after_setting(s: Wvr, t: Wvr, st: Setting) -> bool {
    &&& t.graph == s.graph
    &&& t.inputs == s.inputs
    &&& t.transport == (match st {
        Setting::Bpm(b) => Transport { bpm: b, ..s.transport },
        Setting::TargetFps(f) => Transport { target_fps: f, ..s.transport },
        Setting::LockedSpeed(l) => Transport { locked_speed: l, ..s.transport },
        _ => s.transport,
    })
    &&& t.view == (match st {
        Setting::Width(w) => ViewSettings { width: w, ..s.view },
        Setting::Height(h) => ViewSettings { height: h, ..s.view },
        Setting::DynamicResolution(d) => ViewSettings { dynamic_resolution: d, ..s.view },
        Setting::VSync(v) => ViewSettings { vsync: v, ..s.view },
        Setting::Fullscreen(f) => ViewSettings { fullscreen: f, ..s.view },
        _ => s.view,
    })
    &&& t.capture == (match st {
        Setting::Screenshot(c) => Capture { requested: c, ..s.capture },
        _ => s.capture,
    })
}

/// Applying `msg` at wall time `now_us` took session `s` to `t` with result
/// `r`. Every refusal leaves the session as it was.
pub open spec fn applied(s: Wvr, t: Wvr, msg: ControlMessage, now_us: u64, r: Result<Effect, ControlError>) -> bool {
    &&& r is Err ==> t == s
    &&& match msg {
        ControlMessage::Start => t == (Wvr { transport: s.transport.after_play(now_us), ..s })
            && r == Ok::<Effect, ControlError>(
            if s.transport.state == PlayState::Paused { Effect::StartInputs } else { Effect::Nothing },
        ),
        ControlMessage::Pause => t == (Wvr { transport: s.transport.after_pause(), ..s })
            && r == Ok::<Effect, ControlError>(
            if s.transport.state != PlayState::Stopped { Effect::PauseInputs } else { Effect::Nothing },
        ),
        ControlMessage::Stop => t == (Wvr { transport: s.transport.after_stop(), ..s })
            && r == Ok::<Effect, ControlError>(
            if s.transport.state != PlayState::Stopped { Effect::StopAll } else { Effect::Nothing },
        ),
        ControlMessage::AddInput(name, kind) => if s.inputs.next_id == u64::MAX {
            r == Err::<Effect, ControlError>(ControlError::Registry(RegistryError::IdsExhausted))
        } else {
            let slot = InputSlot { id: s.inputs.next_id, kind };
            &&& r == Ok::<Effect, ControlError>(Effect::InputAdded(slot, s.inputs.slot(name@)))
            &&& with_inputs(s, t, upserted(s.inputs.entries@, name, slot), (s.inputs.next_id + 1) as u64)
        },
        ControlMessage::UpdateInput(name, property) => match s.inputs.slot(name@) {
            None => r == Err::<Effect, ControlError>(ControlError::UnknownInput),
            Some(slot) => t == s && r == Ok::<Effect, ControlError>(Effect::InputChanged(slot, property)),
        },
        ControlMessage::RenameInput(from, to) => match s.inputs.slot(from@) {
            None => r == Err::<Effect, ControlError>(ControlError::UnknownInput),
            Some(slot) => {
                let rest = without_key(s.inputs.entries@, from@);
                &&& r == Ok::<Effect, ControlError>(Effect::InputRenamed(slot, to, lookup(rest, to@)))
                &&& with_inputs(s, t, upserted(rest, to, slot), s.inputs.next_id)
            },
        },
        ControlMessage::RemoveInput(name) => match s.inputs.slot(name@) {
            None => r == Err::<Effect, ControlError>(ControlError::UnknownInput),
            Some(slot) => r == Ok::<Effect, ControlError>(Effect::InputRemoved(slot)) && with_inputs(
                s,
                t,
                without_key(s.inputs.entries@, name@),
                s.inputs.next_id,
            ),
        },
        ControlMessage::Configure(st) => if !setting_valid(st) {
            r == Err::<Effect, ControlError>(ControlError::InvalidSetting)
        } else {
            &&& after_setting(s, t, st)
            &&& r == Ok::<Effect, ControlError>(match st {
                Setting::Width(w) => Effect::Resize(w, s.view.height),
                Setting::Height(h) => Effect::Resize(s.view.width, h),
                _ => Effect::Nothing,
            })
        },
        ControlMessage::AddRenderStage(config) => match s.graph.add_stage_error(config) {
            Some(e) => r == Err::<Effect, ControlError>(ControlError::Graph(e)),
            None => r == Ok::<Effect, ControlError>(Effect::Nothing) && graph_only(s, t) && s.graph.appended(
                t.graph,
                config,
            ),
        },
        ControlMessage::RemoveRenderStage(index) => if index >= s.graph.stages@.len() {
            r == Err::<Effect, ControlError>(ControlError::Graph(GraphError::NoSuchStage))
        } else {
            r == Ok::<Effect, ControlError>(Effect::Nothing) && graph_only(s, t) && s.graph.with_stages(
                t.graph,
                s.graph.stages@.remove(index as int),
            )
        },
        ControlMessage::MoveRenderStage(from, to) => if from >= s.graph.stages@.len() || to
            >= s.graph.stages@.len() {
            r == Err::<Effect, ControlError>(ControlError::Graph(GraphError::NoSuchStage))
        } else {
            r == Ok::<Effect, ControlError>(Effect::Nothing) && graph_only(s, t) && s.graph.with_stages(
                t.graph,
                crate::graph::moved(s.graph.stages@, from as int, to as int),
            )
        },
        ControlMessage::UpdateRenderStage(index, u) => match s.graph.update_stage_error(index as int, u) {
            Some(e) => r == Err::<Effect, ControlError>(ControlError::Graph(e)),
            None => r == Ok::<Effect, ControlError>(Effect::Nothing) && graph_only(s, t)
                && s.graph.stage_updated(t.graph, index as int, u),
        },
        ControlMessage::UpdateFinalStage(u) => match s.graph.final_update_error(u) {
            Some(e) => r == Err::<Effect, ControlError>(ControlError::Graph(e)),
            None => r == Ok::<Effect, ControlError>(Effect::Nothing) && graph_only(s, t)
                && s.graph.final_updated(t.graph, u),
        },
    }
}

/// `states[i + 1]` follows `states[i]` by applying `messages[i]` with result
/// `results[i]`, for every message of the batch.
pub open spec fn drained(
    states: Seq<Wvr>,
    messages: Seq<ControlMessage>,
    now_us: u64,
    results: Seq<Result<Effect, ControlError>>,
) -> bool {
    &&& states.len() == messages.len() + 1
    &&& results.len() == messages.len()
    &&& forall|i: int| 0 <= i < messages.len() ==> #[trigger] applied_at(states, messages, now_us, results, i)
    &&& forall|i: int| 0 <= i < states.len() ==> (#[trigger] states[i]).wf()
}

/// Message `i` of the batch took `states[i]` to `states[i + 1]`.
pub open spec fn applied_at(
    states: Seq<Wvr>,
    messages: Seq<ControlMessage>,
    now_us: u64,
    results: Seq<Result<Effect, ControlError>>,
    i: int,
) -> bool {
    applied(states[i], states[i + 1], messages[i], now_us, results[i])
}

impl Wvr {
    pub open spec fn wf(&self) -> bool {
        &&& self.transport.wf()
        &&& self.graph.wf()
        &&& self.inputs.wf()
    }

    /// The frame's clock step and resolution. While capturing, the clock
    /// runs at locked speed so that the output is frame-exact. Then the
    /// clock advances by one frame (see [`Transport::advance`]); when it
    /// would overflow, the session is left as it was. Last, with a dynamic
    /// view and no capture, the resolution follows the window. Returns
    /// whether the resolution changed, in which case every stage buffer is
    /// resized before the next pass.
    pub fn update(&mut self, now_us: u64, window_width: u64, window_height: u64) -> (r: Result<bool, ClockOverflow>)
        requires
            old(self).wf(),
        ensures
            final(self).wf(),
            ({
                let s = *old(self);
                let clock = Transport { locked_speed: s.transport.locked_speed || s.capture.capturing(), ..s.transport };
                let follow = !s.capture.capturing() && s.view.dynamic_resolution && window_width > 0
                    && window_height > 0 && (window_width != s.view.width || window_height != s.view.height);
                let view = if follow {
                    ViewSettings { width: window_width, height: window_height, ..s.view }
                } else {
                    s.view
                };
                let next = if clock.state != PlayState::Playing {
                    Some(clock)
                } else {
                    match clock.next_clock(now_us) {
                        Some(tb) => Some(Transport { time: tb.0, beat: tb.1, last_update_us: now_us, ..clock }),
                        None => None,
                    }
                };
                match next {
                    None => r is Err && *final(self) == s,
                    Some(t) => r == Ok::<bool, ClockOverflow>(follow) && *final(self) == (Wvr {
                        transport: t,
                        view,
                        ..s
                    }),
                }
            }),
    {
        let mut clock = self.transport;
        if self.capture.is_capturing() {
            clock.locked_speed = true;
        }
        match clock.advance(now_us) {
            Err(e) => Err(e),
            Ok(()) => {
                self.transport = clock;
                let follow = !self.capture.is_capturing() && self.view.dynamic_resolution && window_width > 0
                    && window_height > 0 && (window_width != self.view.width || window_height != self.view.height);
                if follow {
                    self.view.width = window_width;
                    self.view.height = window_height;
                }
                Ok(follow)
            },
        }
    }

    /// The plans of this frame's pass: every interior stage in order, then
    /// the final stage, at the session's current time and beat.
    pub fn render_stages(&self) -> (r: Vec<StagePlan>)
        requires
            self.wf(),
        ensures
            r@.len() == self.graph.stages@.len() + 1,
            forall|i: int| 0 <= i < self.graph.stages@.len() ==> #[trigger] plans(
                r@[i],
                self.graph.stages@[i],
                self.graph.stages@,
                self.inputs.entries@,
                self.transport.time,
                self.transport.beat,
            ),
            plans(
                r@.last(),
                self.graph.final_stage,
                self.graph.stages@,
                self.inputs.entries@,
                self.transport.time,
                self.transport.beat,
            ),
    {
        self.graph.render_plan(&self.inputs, self.transport.time, self.transport.beat)
    }

    /// Ends the frame once the final stage is on screen: returns the index
    /// under which to hand this frame to the frame sink, when capturing,
    /// and counts the frame.
    pub fn render_final_stage(&mut self) -> (r: Option<u64>)
        requires
            old(self).wf(),
        ensures
            final(self).wf(),
            r == if old(self).capture.capturing() {
                Some(old(self).transport.frame_count)
            } else {
                None
            },
            final(self).transport.frame_count == if old(self).transport.frame_count < u64::MAX {
                old(self).transport.frame_count + 1
            } else {
                old(self).transport.frame_count as int
            },
            final(self).transport == (Transport { frame_count: final(self).transport.frame_count, ..old(self).transport }),
            final(self).graph == old(self).graph,
            final(self).inputs == old(self).inputs,
            final(self).view == old(self).view,
            final(self).capture == old(self).capture,
    {
        let index = self.transport.frame_count;
        let capture = self.capture.is_capturing();
        self.transport.finish_frame();
        if capture {
            Some(index)
        } else {
            None
        }
    }

    /// Records whether the frame sink took the frame handed to it; returns
    /// whether to log a refusal (the first one only, which turns capture
    /// off for the rest of the session).
    pub fn capture_sent(&mut self, accepted: bool) -> (log: bool)
        ensures
            final(self).capture == old(self).capture.after_send(accepted),
            log == old(self).capture.logs_on(accepted),
            final(self).transport == old(self).transport,
            final(self).graph == old(self).graph,
            final(self).inputs == old(self).inputs,
            final(self).view == old(self).view,
    {
        self.capture.record_send(accepted)
    }

    pub fn is_playing(&self) -> (r: bool)
        ensures
            r == (self.transport.state == PlayState::Playing),
    {
        self.transport.is_playing()
    }

    /// Starts playback at wall time `now_us`; see the `Start` message.
    pub fn play(&mut self, now_us: u64) -> (r: Effect)
        requires
            old(self).wf(),
        ensures
            final(self).wf(),
            applied(*old(self), *final(self), ControlMessage::Start, now_us, Ok(r)),
    {
        let msg = ControlMessage::Start;
        match self.handle_message(msg, now_us) {
            Ok(e) => e,
            Err(_) => Effect::Nothing,
        }
    }

    /// Pauses playback; see the `Pause` message.
    pub fn pause(&mut self) -> (r: Effect)
        requires
            old(self).wf(),
        ensures
            final(self).wf(),
            applied(*old(self), *final(self), ControlMessage::Pause, 0, Ok(r)),
    {
        match self.handle_message(ControlMessage::Pause, 0) {
            Ok(e) => e,
            Err(_) => Effect::Nothing,
        }
    }

    /// Ends the session; see the `Stop` message.
    pub fn stop(&mut self) -> (r: Effect)
        requires
            old(self).wf(),
        ensures
            final(self).wf(),
            applied(*old(self), *final(self), ControlMessage::Stop, 0, Ok(r)),
    {
        match self.handle_message(ControlMessage::Stop, 0) {
            Ok(e) => e,
            Err(_) => Effect::Nothing,
        }
    }

    pub fn set_focused(&mut self, focused: bool)
        ensures
            *final(self) == (Wvr { focused, ..*old(self) }),
    {
        self.focused = focused;
    }

    pub fn set_mouse_position(&mut self, position: (i64, i64))
        ensures
            *final(self) == (Wvr { mouse_position: position, ..*old(self) }),
    {
        self.mouse_position = position;
    }

    pub fn get_width(&self) -> (r: u64)
        ensures
            r == self.view.width,
    {
        self.view.width
    }

    pub fn get_height(&self) -> (r: u64)
        ensures
            r == self.view.height,
    {
        self.view.height
    }

    /// Builds a session from its configuration at wall time `now_us`.
    pub fn new(config: SessionConfig, now_us: u64) -> (r: Result<Wvr, SetupError>)
        requires
            config.render_chain@.len() < u64::MAX - 1,
            config.inputs@.len() < u64::MAX,
        ensures
            match setup_error(config) {
                Some(e) => r == Err::<Wvr, SetupError>(e),
                None => r matches Ok(w) && w.wf() && built_session(w, config, now_us),
            },
    {
        if config.bpm.den == 0 || config.target_fps == 0 || config.view.width == 0 || config.view.height == 0 {
            return Err(SetupError::InvalidSetting);
        }
        let ghost c = config;
        let SessionConfig {
            filters,
            render_chain,
            final_stage,
            inputs,
            bpm,
            target_fps,
            locked_speed,
            screenshot,
            view,
        } = config;
        let mut graph = match StageGraph::new(filters, final_stage) {
            Ok(g) => g,
            Err(e) => return Err(SetupError::Graph(e)),
        };
        let mut chain = render_chain;
        let n = chain.len();
        let mut i: usize = 0;
        while chain.len() > 0
            invariant
                c == config,
                n == c.render_chain@.len(),
                n < u64::MAX - 1,
                i + chain@.len() == n,
                chain@ == c.render_chain@.subrange(i as int, n as int),
                graph.wf(),
                graph.filters@ == c.filters@,
                built_from(graph.final_stage, 0, c.final_stage),
                graph.stages@.len() == i,
                graph.next_id == i + 1,
                forall|j: int| 0 <= j < i ==> built_from(#[trigger] graph.stages@[j], (j + 1) as u64, c.render_chain@[j]),
                chain_error(c.filters@, c.render_chain@, i as int) is None,
                c.final_stage.wf() && in_catalog(c.filters@, c.final_stage.filter@),
                c.bpm.wf() && c.target_fps > 0 && c.view.width > 0 && c.view.height > 0,
            decreases chain@.len(),
        {
            let stage = chain.remove(0);
            assert(stage == c.render_chain@[i as int]);
            proof {
                let chn = c.render_chain@;
                if has_stage_named(graph.stages@, stage.name@) {
                    let j = choose|j: int| 0 <= j < graph.stages@.len() && #[trigger] graph.stages@[j].name@ == stage.name@;
                    assert(built_from(graph.stages@[j], (j + 1) as u64, chn[j]));
                    assert(chn[j].name@ == chn[i as int].name@);
                } else {
                    assert forall|j: int| 0 <= j < i implies #[trigger] chn[j].name@ != chn[i as int].name@ by {
                        assert(built_from(graph.stages@[j], (j + 1) as u64, chn[j]));
                    }
                }
            }
            let ghost before = graph.stages@;
            match graph.add_stage(stage) {
                Ok(_) => {},
                Err(e) => {
                    proof {
                        assert(chain_error(c.filters@, c.render_chain@, i + 1) == Some(e));
                        lemma_chain_error_sticks(c.filters@, c.render_chain@, i + 1, n as int);
                    }
                    return Err(SetupError::Graph(e));
                },
            }
            proof {
                assert forall|j: int| 0 <= j < i + 1 implies built_from(#[trigger] graph.stages@[j], (j + 1) as u64, c.render_chain@[j]) by {
                    if j < i {
                        assert(graph.stages@[j] == before[j]);
                    }
                }
                assert(chain@ =~= c.render_chain@.subrange(i + 1, n as int));
            }
            i = i + 1;
        }
        assert(chain_error(c.filters@, c.render_chain@, n as int) is None);
        if !unique_input_names(&inputs) {
            return Err(SetupError::DuplicateInput);
        }
        let mut registry = InputRegistry::new();
        let m = inputs.len();
        let mut rest = inputs;
        let mut k: usize = 0;
        while rest.len() > 0
            invariant
                c == config,
                m == c.inputs@.len(),
                m < u64::MAX,
                input_names_unique(c.inputs@),
                setup_error(c) is None,
                k + rest@.len() == m,
                rest@ == c.inputs@.subrange(k as int, m as int),
                registry.wf(),
                registry.next_id == k,
                registry.entries@.len() == k,
                forall|j: int| 0 <= j < k ==> #[trigger] registry.entries@[j] == (c.inputs@[j].0, InputSlot { id: j as u64, kind: c.inputs@[j].1 }),
            decreases rest@.len(),
        {
            let (name, kind) = rest.remove(0);
            assert((name, kind) == c.inputs@[k as int]);
            proof {
                assert forall|j: int| 0 <= j < k implies #[trigger] registry.entries@[j].0@ != name@ by {
                    assert(c.inputs@[j].0@ != c.inputs@[k as int].0@);
                }
                assert(!has_key(registry.entries@, name@));
            }
            let ghost before = registry.entries@;
            let _ = registry.add(name, kind);
            proof {
                assert(registry.entries@ =~= before.push((name, InputSlot { id: k as u64, kind })));
                assert(rest@ =~= c.inputs@.subrange(k + 1, m as int));
            }
            k = k + 1;
        }
        let transport = Transport::new(bpm, target_fps, locked_speed, now_us);
        Ok(Wvr {
            transport,
            graph,
            inputs: registry,
            view,
            capture: Capture::new(screenshot),
            focused: false,
            mouse_position: (0, 0),
        })
    }

    /// A session over parts built elsewhere, with no input.
    pub fn from_parts(transport: Transport, graph: StageGraph, view: ViewSettings, capture: bool) -> (r: Wvr)
        requires
            transport.wf(),
            graph.wf(),
        ensures
            r.wf(),
            r.transport == transport,
            r.graph == graph,
            r.inputs.entries@.len() == 0,
            r.inputs.next_id == 0,
            r.view == view,
            r.capture == (Capture { requested: capture, broken: false }),
            !r.focused,
            r.mouse_position == (0i64, 0i64),
    {
        Wvr {
            transport,
            graph,
            inputs: InputRegistry::new(),
            view,
            capture: Capture::new(capture),
            focused: false,
            mouse_position: (0, 0),
        }
    }

    /// Applies one message at wall time `now_us`.
    pub fn handle_message(&mut self, msg: ControlMessage, now_us: u64) -> (r: Result<Effect, ControlError>)
        requires
            old(self).wf(),
        ensures
            final(self).wf(),
            applied(*old(self), *final(self), msg, now_us, r),
    {
        match msg {
            ControlMessage::Start => {
                if self.transport.play(now_us) {
                    Ok(Effect::StartInputs)
                } else {
                    Ok(Effect::Nothing)
                }
            },
            ControlMessage::Pause => {
                if self.transport.pause() {
                    Ok(Effect::PauseInputs)
                } else {
                    Ok(Effect::Nothing)
                }
            },
            ControlMessage::Stop => {
                if self.transport.stop() {
                    Ok(Effect::StopAll)
                } else {
                    Ok(Effect::Nothing)
                }
            },
            ControlMessage::AddInput(name, kind) => match self.inputs.add(name, kind) {
                Ok((slot, replaced)) => Ok(Effect::InputAdded(slot, replaced)),
                Err(e) => Err(ControlError::Registry(e)),
            },
            ControlMessage::UpdateInput(name, property) => match self.inputs.find(&name) {
                Some(slot) => Ok(Effect::InputChanged(slot, property)),
                None => Err(ControlError::UnknownInput),
            },
            ControlMessage::RenameInput(from, to) => {
                let new_name = to.clone();
                match self.inputs.rename(&from, to) {
                    Some((slot, replaced)) => Ok(Effect::InputRenamed(slot, new_name, replaced)),
                    None => Err(ControlError::UnknownInput),
                }
            },
            ControlMessage::RemoveInput(name) => match self.inputs.remove(&name) {
                Some(slot) => Ok(Effect::InputRemoved(slot)),
                None => Err(ControlError::UnknownInput),
            },
            ControlMessage::Configure(setting) => self.apply_setting(setting),
            ControlMessage::AddRenderStage(config) => match self.graph.add_stage(config) {
                Ok(_) => Ok(Effect::Nothing),
                Err(e) => Err(ControlError::Graph(e)),
            },
            ControlMessage::RemoveRenderStage(index) => match self.graph.remove_stage(index) {
                Ok(()) => Ok(Effect::Nothing),
                Err(e) => Err(ControlError::Graph(e)),
            },
            ControlMessage::MoveRenderStage(from, to) => match self.graph.move_stage(from, to) {
                Ok(()) => Ok(Effect::Nothing),
                Err(e) => Err(ControlError::Graph(e)),
            },
            ControlMessage::UpdateRenderStage(index, u) => match self.graph.update_stage(index, u) {
                Ok(()) => Ok(Effect::Nothing),
                Err(e) => Err(ControlError::Graph(e)),
            },
            ControlMessage::UpdateFinalStage(u) => match self.graph.update_final_stage(u) {
                Ok(()) => Ok(Effect::Nothing),
                Err(e) => Err(ControlError::Graph(e)),
            },
        }
    }

    fn apply_setting(&mut self, setting: Setting) -> (r: Result<Effect, ControlError>)
        requires
            old(self).wf(),
        ensures
            final(self).wf(),
            applied(*old(self), *final(self), ControlMessage::Configure(setting), 0, r),
    {
        match setting {
            Setting::Bpm(b) => {
                if b.den == 0 {
                    return Err(ControlError::InvalidSetting);
                }
                self.transport.bpm = b;
                Ok(Effect::Nothing)
            },
            Setting::Width(w) => {
                if w == 0 {
                    return Err(ControlError::InvalidSetting);
                }
                self.view.width = w;
                Ok(Effect::Resize(w, self.view.height))
            },
            Setting::Height(h) => {
                if h == 0 {
                    return Err(ControlError::InvalidSetting);
                }
                self.view.height = h;
                Ok(Effect::Resize(self.view.width, h))
            },
            Setting::TargetFps(f) => {
                if f == 0 {
                    return Err(ControlError::InvalidSetting);
                }
                self.transport.target_fps = f;
                Ok(Effect::Nothing)
            },
            Setting::DynamicResolution(d) => {
                self.view.dynamic_resolution = d;
                Ok(Effect::Nothing)
            },
            Setting::VSync(v) => {
                self.view.vsync = v;
                Ok(Effect::Nothing)
            },
            Setting::Fullscreen(f) => {
                self.view.fullscreen = f;
                Ok(Effect::Nothing)
            },
            Setting::LockedSpeed(l) => {
                self.transport.locked_speed = l;
                Ok(Effect::Nothing)
            },
            Setting::Screenshot(c) => {
                self.capture.set_requested(c);
                Ok(Effect::Nothing)
            },
        }
    }

    /// Applies every queued message in arrival order, each on its own: a
    /// refused one is reported and skipped. Returns one result per message.
    pub fn drain(&mut self, messages: Vec<ControlMessage>, now_us: u64) -> (results: Vec<Result<Effect, ControlError>>)
        requires
            old(self).wf(),
        ensures
            final(self).wf(),
            exists|states: Seq<Wvr>| {
                &&& drained(states, messages@, now_us, results@)
                &&& states[0] == *old(self)
                &&& states.last() == *final(self)
            },
    {
        let ghost all = messages@;
        let count = messages.len();
        let ghost mut states: Seq<Wvr> = seq![*self];
        let mut results: Vec<Result<Effect, ControlError>> = Vec::new();
        let mut rest = messages;
        let mut i: usize = 0;
        while rest.len() > 0
            invariant
                self.wf(),
                i + rest@.len() == all.len(),
                rest@ == all.subrange(i as int, all.len() as int),
                states.len() == i + 1,
                results@.len() == i,
                states[0] == *old(self),
                states.last() == *self,
                all.len() == count,
                forall|j: int| 0 <= j < i ==> #[trigger] applied_at(states, all, now_us, results@, j),
                forall|j: int| 0 <= j < states.len() ==> (#[trigger] states[j]).wf(),
            decreases rest@.len(),
        {
            let ghost prev_states = states;
            let ghost prev_results = results@;
            let ghost pending = rest@;
            let msg = rest.remove(0);
            assert(msg == all[i as int]) by {
                assert(pending[0] == all.subrange(i as int, all.len() as int)[0]);
            }
            let r = self.handle_message(msg, now_us);
            results.push(r);
            proof {
                states = states.push(*self);
                assert(rest@ =~= all.subrange(i + 1, all.len() as int));
                assert forall|j: int| 0 <= j < i + 1 implies #[trigger] applied_at(states, all, now_us, results@, j) by {
                    if j < i {
                        assert(applied_at(prev_states, all, now_us, prev_results, j));
                        assert(states[j] == prev_states[j] && states[j + 1] == prev_states[j + 1]);
                        assert(results@[j] == prev_results[j]);
                    } else {
                        assert(states[j] == prev_states.last());
                    }
                }
            }
            i = i + 1;
        }
        assert(drained(states, messages@, now_us, results@));
        results
    }
}

/// In a drained batch every state is well formed, so no stage or input is
/// left half-built, and a refused message is as if it had not been sent:
/// dropping it, its result and the state it left unchanged leaves a drain of
/// the other messages in the same order, with the same results.
pub proof fn lemma_refused_message_is_skipped(
    states: Seq<Wvr>,
    messages: Seq<ControlMessage>,
    now_us: u64,
    results: Seq<Result<Effect, ControlError>>,
    k: int,
)
    requires
        drained(states, messages, now_us, results),
        0 <= k < messages.len(),
        results[k] is Err,
    ensures
        states[k + 1] == states[k],
        drained(states.remove(k + 1), messages.remove(k), now_us, results.remove(k)),
{
    assert(applied_at(states, messages, now_us, results, k));
    let s2 = states.remove(k + 1);
    let m2 = messages.remove(k);
    let r2 = results.remove(k);
    assert forall|i: int| 0 <= i < m2.len() implies #[trigger] applied_at(s2, m2, now_us, r2, i) by {
        if i < k {
            assert(applied_at(states, messages, now_us, results, i));
        } else {
            assert(applied_at(states, messages, now_us, results, i + 1));
        }
    }
    assert forall|i: int| 0 <= i < s2.len() implies (#[trigger] s2[i]).wf() by {
        if i <= k {
            assert(states[i].wf());
        } else {
            assert(states[i + 1].wf());
        }
    }
}

} // verus!
