//! The ordered chain of interior stages plus the final stage: mutation by
//! index, resolution of bindings by name, and the plan of each render pass.

use vstd::prelude::*;
use crate::inputs::{InputRegistry, InputSlot};
use crate::named::{has_key, key_index, lookup, upserted};
use crate::ratio::Ratio;
use crate::stage::{GraphError, Precision, SamplingMode, Stage, StageConfig, StageUpdate, Variable, variable_value};

verus! {

/// Where a binding reads from this frame.
#[derive(Clone, Copy, Debug, PartialEq, Eq, Structural)]
pub enum Source {
    /// The output buffer of the stage with this id.
    Stage(u64),
    /// A sample of the input provider with this id.
    Input(u64),
    /// Nothing of that name: the binding reads black.
    Empty,
}

/// One binding of a stage, resolved for this frame.
#[derive(Clone, Debug)]
pub struct BindingPlan {
    pub binding: String,
    pub source: Source,
    pub mode: SamplingMode,
}

/// What the renderer needs to run one stage this frame.
#[derive(Debug)]
pub struct StagePlan {
    pub stage_id: u64,
    pub filter: String,
    pub precision: Precision,
    pub inputs: Vec<BindingPlan>,
    /// Each variable's name and current value.
    pub values: Vec<(String, i64)>,
}

/// Interior stages in render order, and the final stage.
#[derive(Debug)]
pub struct StageGraph {
    pub stages: Vec<Stage>,
    pub final_stage: Stage,
    /// Names of the filter programs the catalog can resolve.
    pub filters: Vec<String>,
    pub next_id: u64,
}

pub open spec fn in_catalog(filters: Seq<String>, f: Seq<char>) -> bool {
    exists|i: int| 0 <= i < filters.len() && #[trigger] filters[i]@ == f
}

pub open spec fn names_unique(stages: Seq<Stage>) -> bool {
    forall|i: int, j: int| 0 <= i < j < stages.len() ==> #[trigger] stages[i].name@ != #[trigger] stages[j].name@
}

pub open spec fn has_stage_named(stages: Seq<Stage>, name: Seq<char>) -> bool {
    exists|i: int| 0 <= i < stages.len() && #[trigger] stages[i].name@ == name
}

/// Whether a stage other than the one at `except` is named `name`.
pub open spec fn name_taken(stages: Seq<Stage>, name: Seq<char>, except: int) -> bool {
    exists|i: int| 0 <= i < stages.len() && i != except && #[trigger] stages[i].name@ == name
}

/// What the binding name `name` reads from: the interior stage of that name,
/// else the input of that name, else nothing.
pub open spec fn resolve(stages: Seq<Stage>, inputs: Seq<(String, InputSlot)>, name: Seq<char>) -> Source {
    if has_stage_named(stages, name) {
        Source::Stage(stages[choose|i: int| 0 <= i < stages.len() && #[trigger] stages[i].name@ == name].id)
    } else {
        match lookup(inputs, name) {
            Some(slot) => Source::Input(slot.id),
            None => Source::Empty,
        }
    }
}

pub open spec fn ids(stages: Seq<Stage>) -> Seq<u64> {
    stages.map_values(|s: Stage| s.id)
}

/// `s` is the stage built from `config` with identity `id`.
pub open spec fn built_from(s: Stage, id: u64, config: StageConfig) -> bool {
    &&& s.id == id
    &&& s.name == config.name
    &&& s.filter == config.filter
    &&& s.precision == config.precision
    &&& s.inputs@ == config.inputs@
    &&& s.variables@ == config.variables@
}

/// `after` is `before` with `u` applied, every other field kept.
pub open spec fn updated(before: Stage, after: Stage, u: StageUpdate) -> bool {
    &&& after.id == before.id
    &&& after.name == (match u {
        StageUpdate::Name(n) => n,
        _ => before.name,
    })
    &&& after.filter == (match u {
        StageUpdate::Filter(f) => f,
        _ => before.filter,
    })
    &&& after.precision == (match u {
        StageUpdate::Precision(p) => p,
        _ => before.precision,
    })
    &&& after.inputs@ == (match u {
        StageUpdate::Input(n, x) => upserted(before.inputs@, n, x),
        _ => before.inputs@,
    })
    &&& after.variables@ == (match u {
        StageUpdate::Variable(n, v) => upserted(before.variables@, n, Variable { value: v, automation: None }),
        StageUpdate::VariableAutomation(n, c) => {
            let i = key_index(before.variables@, n@);
            let was = before.variables@[i];
            before.variables@.update(i, (was.0, Variable { value: was.1.value, automation: Some(c) }))
        },
        _ => before.variables@,
    })
}

/// The error an update meets on stage `s` of a graph with filter catalog
/// `filters`, where `taken` says whether another interior stage holds a name.
pub open spec fn update_error(s: Stage, u: StageUpdate, filters: Seq<String>, taken: spec_fn(Seq<char>) -> bool) -> Option<GraphError> {
    match u {
        StageUpdate::Filter(f) => if in_catalog(filters, f@) { None } else { Some(GraphError::UnknownFilter) },
        StageUpdate::VariableAutomation(n, c) => if !c.wf() {
            Some(GraphError::InvalidCurve)
        } else if !has_key(s.variables@, n@) {
            Some(GraphError::UnknownVariable)
        } else {
            None
        },
        StageUpdate::Name(n) => if taken(n@) { Some(GraphError::DuplicateStageName) } else { None },
        _ => None,
    }
}

impl StageGraph {
    pub open spec fn wf(&self) -> bool {
        let st = self.stages@;
        &&& forall|i: int| 0 <= i < st.len() ==> (#[trigger] st[i]).wf()
        &&& self.final_stage.wf()
        &&& names_unique(st)
        &&& forall|i: int| 0 <= i < st.len() ==> #[trigger] st[i].id < self.next_id
        &&& self.final_stage.id < self.next_id
        &&& forall|i: int, j: int| 0 <= i < j < st.len() ==> #[trigger] st[i].id != #[trigger] st[j].id
        &&& forall|i: int| 0 <= i < st.len() ==> #[trigger] st[i].id != self.final_stage.id
    }

    /// Why adding a stage built from `config` is refused, if it is.
    pub open spec fn add_stage_error(&self, config: StageConfig) -> Option<GraphError> {
        if !config.wf() {
            Some(GraphError::InvalidConfig)
        } else if !in_catalog(self.filters@, config.filter@) {
            Some(GraphError::UnknownFilter)
        } else if has_stage_named(self.stages@, config.name@) {
            Some(GraphError::DuplicateStageName)
        } else if self.next_id == u64::MAX {
            Some(GraphError::IdsExhausted)
        } else {
            None
        }
    }

    /// `after` is this graph with a stage built from `config` appended under
    /// the next id.
    pub open spec fn appended(&self, after: StageGraph, config: StageConfig) -> bool {
        &&& after.next_id == self.next_id + 1
        &&& after.stages@.len() == self.stages@.len() + 1
        &&& after.stages@.drop_last() == self.stages@
        &&& built_from(after.stages@.last(), self.next_id, config)
        &&& after.final_stage == self.final_stage
        &&& after.filters == self.filters
    }

    /// `after` is this graph with its interior stages replaced by `stages`.
    pub open spec fn with_stages(&self, after: StageGraph, stages: Seq<Stage>) -> bool {
        &&& after.stages@ == stages
        &&& after.final_stage == self.final_stage
        &&& after.filters == self.filters
        &&& after.next_id == self.next_id
    }

    /// Why applying `u` to the interior stage at `index` is refused, if it is.
    pub open spec fn update_stage_error(&self, index: int, u: StageUpdate) -> Option<GraphError> {
        if !(0 <= index < self.stages@.len()) {
            Some(GraphError::NoSuchStage)
        } else {
            update_error(self.stages@[index], u, self.filters@, |n: Seq<char>| name_taken(self.stages@, n, index))
        }
    }

    /// `after` is this graph with `u` applied to the interior stage at `index`.
    pub open spec fn stage_updated(&self, after: StageGraph, index: int, u: StageUpdate) -> bool {
        &&& after.stages@.len() == self.stages@.len()
        &&& updated(self.stages@[index], after.stages@[index], u)
        &&& forall|j: int| 0 <= j < self.stages@.len() && j != index ==> #[trigger] after.stages@[j] == self.stages@[j]
        &&& after.final_stage == self.final_stage
        &&& after.filters == self.filters
        &&& after.next_id == self.next_id
    }

    /// Why applying `u` to the final stage is refused, if it is.
    pub open spec fn final_update_error(&self, u: StageUpdate) -> Option<GraphError> {
        update_error(self.final_stage, u, self.filters@, |n: Seq<char>| false)
    }

    /// `after` is this graph with `u` applied to the final stage.
    pub open spec fn final_updated(&self, after: StageGraph, u: StageUpdate) -> bool {
        &&& updated(self.final_stage, after.final_stage, u)
        &&& after.stages == self.stages
        &&& after.filters == self.filters
        &&& after.next_id == self.next_id
    }

    /// A graph with no interior stage and the final stage built from
    /// `final_config`, whose id is 0.
    pub fn new(filters: Vec<String>, final_config: StageConfig) -> (r: Result<StageGraph, GraphError>)
        ensures
            !final_config.wf() ==> (r matches Err(e) && e == GraphError::InvalidConfig),
            final_config.wf() && !in_catalog(filters@, final_config.filter@) ==> (r matches Err(e)
                && e == GraphError::UnknownFilter),
            final_config.wf() && in_catalog(filters@, final_config.filter@) ==> (r matches Ok(g) && g.wf()
                && g.stages@.len() == 0 && built_from(g.final_stage, 0, final_config) && g.filters@
                == filters@ && g.next_id == 1),
    {
        if !final_config.is_valid() {
            return Err(GraphError::InvalidConfig);
        }
        if !catalog_has(&filters, &final_config.filter) {
            return Err(GraphError::UnknownFilter);
        }
        let final_stage = Stage::from_config(0, final_config);
        Ok(StageGraph { stages: Vec::new(), final_stage, filters, next_id: 1 })
    }

    /// Builds a stage from `config` and appends it to the chain, returning
    /// its id.
    pub fn add_stage(&mut self, config: StageConfig) -> (r: Result<u64, GraphError>)
        requires
            old(self).wf(),
        ensures
            final(self).wf(),
            match old(self).add_stage_error(config) {
                Some(e) => r == Err::<u64, GraphError>(e) && *final(self) == *old(self),
                None => r == Ok::<u64, GraphError>(old(self).next_id) && old(self).appended(*final(self), config),
            },
    {
        if !config.is_valid() {
            return Err(GraphError::InvalidConfig);
        }
        if !catalog_has(&self.filters, &config.filter) {
            return Err(GraphError::UnknownFilter);
        }
        if self.find_stage(&config.name, self.stages.len()) {
            return Err(GraphError::DuplicateStageName);
        }
        if self.next_id == u64::MAX {
            return Err(GraphError::IdsExhausted);
        }
        let id = self.next_id;
        let ghost before = self.stages@;
        self.stages.push(Stage::from_config(id, config));
        self.next_id = self.next_id + 1;
        proof {
            assert(self.stages@.drop_last() =~= before);
            assert forall|i: int, j: int| 0 <= i < j < self.stages@.len() implies
                #[trigger] self.stages@[i].name@ != #[trigger] self.stages@[j].name@ by {
                if j < before.len() {
                    assert(before[i].name@ != before[j].name@);
                } else {
                    assert(!(before[i].name@ == config.name@));
                }
            }
            assert forall|i: int, j: int| 0 <= i < j < self.stages@.len() implies
                #[trigger] self.stages@[i].id != #[trigger] self.stages@[j].id by {
                if j < before.len() {
                    assert(before[i].id != before[j].id);
                } else {
                    assert(before[i].id < id);
                }
            }
        }
        Ok(id)
    }

    /// Whether an interior stage other than the one at `except` is named
    /// `name` (pass the length to exclude none).
    fn find_stage(&self, name: &String, except: usize) -> (r: bool)
        ensures
            r == name_taken(self.stages@, name@, except as int),
    {
        let mut i: usize = 0;
        while i < self.stages.len()
            invariant
                0 <= i <= self.stages@.len(),
                forall|j: int| 0 <= j < i && j != except ==> #[trigger] self.stages@[j].name@ != name@,
            decreases self.stages@.len() - i,
        {
            if i != except && self.stages[i].name == *name {
                return true;
            }
            i = i + 1;
        }
        false
    }

    /// Drops the interior stage at `index`. Bindings elsewhere are left as
    /// they are: they name their sources.
    pub fn remove_stage(&mut self, index: usize) -> (r: Result<(), GraphError>)
        requires
            old(self).wf(),
        ensures
            final(self).wf(),
            index >= old(self).stages@.len() ==> r == Err::<(), GraphError>(GraphError::NoSuchStage)
                && *final(self) == *old(self),
            index < old(self).stages@.len() ==> r is Ok && old(self).with_stages(
                *final(self),
                old(self).stages@.remove(index as int),
            ),
    {
        if index >= self.stages.len() {
            return Err(GraphError::NoSuchStage);
        }
        let ghost before = self.stages@;
        self.stages.remove(index);
        proof {
            let after = self.stages@;
            assert forall|i: int, j: int| 0 <= i < j < after.len() implies
                #[trigger] after[i].name@ != #[trigger] after[j].name@ by {
                let bi = if i < index { i } else { i + 1 };
                let bj = if j < index { j } else { j + 1 };
                assert(before[bi].name@ != before[bj].name@);
            }
            assert forall|i: int, j: int| 0 <= i < j < after.len() implies
                #[trigger] after[i].id != #[trigger] after[j].id by {
                let bi = if i < index { i } else { i + 1 };
                let bj = if j < index { j } else { j + 1 };
                assert(before[bi].id != before[bj].id);
            }
        }
        Ok(())
    }

    /// Moves the interior stage at `from` so that it stands at `to`.
    pub fn move_stage(&mut self, from: usize, to: usize) -> (r: Result<(), GraphError>)
        requires
            old(self).wf(),
        ensures
            final(self).wf(),
            !(from < old(self).stages@.len() && to < old(self).stages@.len()) ==> r == Err::<
                (),
                GraphError,
            >(GraphError::NoSuchStage) && *final(self) == *old(self),
            from < old(self).stages@.len() && to < old(self).stages@.len() ==> r is Ok
                && old(self).with_stages(*final(self), moved(old(self).stages@, from as int, to as int)),
    {
        if from >= self.stages.len() || to >= self.stages.len() {
            return Err(GraphError::NoSuchStage);
        }
        let ghost before = self.stages@;
        let stage = self.stages.remove(from);
        self.stages.insert(to, stage);
        proof {
            lemma_moved_is_permutation(before, from as int, to as int);
            let after = self.stages@;
            assert(after == moved(before, from as int, to as int));
            assert forall|i: int, j: int| 0 <= i < j < after.len() implies
                #[trigger] after[i].name@ != #[trigger] after[j].name@ by {
                let bi = moved_from(before.len() as int, from as int, to as int, i);
                let bj = moved_from(before.len() as int, from as int, to as int, j);
                if bi < bj {
                    assert(before[bi].name@ != before[bj].name@);
                } else {
                    assert(before[bj].name@ != before[bi].name@);
                }
            }
            assert forall|i: int, j: int| 0 <= i < j < after.len() implies
                #[trigger] after[i].id != #[trigger] after[j].id by {
                let bi = moved_from(before.len() as int, from as int, to as int, i);
                let bj = moved_from(before.len() as int, from as int, to as int, j);
                if bi < bj {
                    assert(before[bi].id != before[bj].id);
                } else {
                    assert(before[bj].id != before[bi].id);
                }
            }
            assert forall|i: int| 0 <= i < after.len() implies (#[trigger] after[i]).wf() && after[i].id
                < self.next_id && after[i].id != self.final_stage.id by {
                let bi = moved_from(before.len() as int, from as int, to as int, i);
                assert(before[bi].wf());
            }
        }
        Ok(())
    }

    /// Applies `u` to the interior stage at `index`.
    pub fn update_stage(&mut self, index: usize, u: StageUpdate) -> (r: Result<(), GraphError>)
        requires
            old(self).wf(),
        ensures
            final(self).wf(),
            match old(self).update_stage_error(index as int, u) {
                Some(e) => r == Err::<(), GraphError>(e) && *final(self) == *old(self),
                None => r is Ok && old(self).stage_updated(*final(self), index as int, u),
            },
    {
        if index >= self.stages.len() {
            return Err(GraphError::NoSuchStage);
        }
        match &u {
            StageUpdate::Filter(f) => {
                if !catalog_has(&self.filters, f) {
                    return Err(GraphError::UnknownFilter);
                }
            },
            StageUpdate::Name(n) => {
                if self.find_stage(n, index) {
                    return Err(GraphError::DuplicateStageName);
                }
            },
            _ => {},
        }
        let checked = local_check(&self.stages[index], &u);
        if checked.is_err() {
            return checked;
        }
        let ghost before = self.stages@;
        let mut stage = self.stages.remove(index);
        apply_update(&mut stage, u);
        self.stages.insert(index, stage);
        let r: Result<(), GraphError> = Ok(());
        proof {
            let after = self.stages@;
            assert(after =~= before.update(index as int, stage));
            assert forall|i: int, j: int| 0 <= i < j < after.len() implies
                #[trigger] after[i].name@ != #[trigger] after[j].name@ by {
                if i != index && j != index {
                    assert(before[i].name@ != before[j].name@);
                } else if i == index {
                    assert(!(j != index && before[j].name@ == after[i].name@));
                    if r is Ok { } else { assert(before[i].name@ != before[j].name@); }
                } else {
                    assert(!(i != index && before[i].name@ == after[j].name@));
                    if r is Ok { } else { assert(before[i].name@ != before[j].name@); }
                }
            }
            assert forall|i: int, j: int| 0 <= i < j < after.len() implies
                #[trigger] after[i].id != #[trigger] after[j].id by {
                assert(before[i].id != before[j].id);
            }
            assert forall|i: int| 0 <= i < after.len() implies (#[trigger] after[i]).wf() && after[i].id
                < self.next_id && after[i].id != self.final_stage.id by {
                assert(before[i].wf());
            }
        }
        r
    }

    /// Applies `u` to the final stage. Its name is free: no other stage
    /// reads the final stage by name.
    pub fn update_final_stage(&mut self, u: StageUpdate) -> (r: Result<(), GraphError>)
        requires
            old(self).wf(),
        ensures
            final(self).wf(),
            match old(self).final_update_error(u) {
                Some(e) => r == Err::<(), GraphError>(e) && *final(self) == *old(self),
                None => r is Ok && old(self).final_updated(*final(self), u),
            },
    {
        match &u {
            StageUpdate::Filter(f) => {
                if !catalog_has(&self.filters, f) {
                    return Err(GraphError::UnknownFilter);
                }
            },
            _ => {},
        }
        let checked = local_check(&self.final_stage, &u);
        if checked.is_err() {
            return checked;
        }
        apply_update(&mut self.final_stage, u);
        Ok(())
    }

    /// What the binding name `name` reads from this frame.
    pub fn resolve_binding(&self, inputs: &InputRegistry, name: &String) -> (r: Source)
        requires
            self.wf(),
            inputs.wf(),
        ensures
            r == resolve(self.stages@, inputs.entries@, name@),
    {
        let mut i: usize = 0;
        while i < self.stages.len()
            invariant
                self.wf(),
                0 <= i <= self.stages@.len(),
                forall|j: int| 0 <= j < i ==> #[trigger] self.stages@[j].name@ != name@,
            decreases self.stages@.len() - i,
        {
            if self.stages[i].name == *name {
                proof {
                    let st = self.stages@;
                    let c = choose|c: int| 0 <= c < st.len() && #[trigger] st[c].name@ == name@;
                    if c != i as int {
                        if c < i { assert(st[c].name@ != st[i as int].name@); }
                        else { assert(st[i as int].name@ != st[c].name@); }
                    }
                }
                return Source::Stage(self.stages[i].id);
            }
            i = i + 1;
        }
        match inputs.find(name) {
            Some(slot) => Source::Input(slot.id),
            None => Source::Empty,
        }
    }

    /// The plan of `stage` at session time `time` and beat `beat`.
    pub fn plan_stage(&self, stage: &Stage, inputs: &InputRegistry, time: Ratio, beat: Ratio) -> (r: StagePlan)
        requires
            self.wf(),
            inputs.wf(),
            stage.wf(),
            time.wf(),
            beat.wf(),
        ensures
            plans(r, *stage, self.stages@, inputs.entries@, time, beat),
    {
        let mut bound: Vec<BindingPlan> = Vec::new();
        let mut i: usize = 0;
        while i < stage.inputs.len()
            invariant
                self.wf(),
                inputs.wf(),
                0 <= i <= stage.inputs@.len(),
                bound@.len() == i,
                forall|j: int| 0 <= j < i ==> #[trigger] binding_planned(bound@[j], stage.inputs@[j], self.stages@, inputs.entries@),
            decreases stage.inputs@.len() - i,
        {
            let source = self.resolve_binding(inputs, &stage.inputs[i].1.source);
            bound.push(BindingPlan {
                binding: stage.inputs[i].0.clone(),
                source,
                mode: stage.inputs[i].1.mode,
            });
            i = i + 1;
        }
        let mut values: Vec<(String, i64)> = Vec::new();
        let mut k: usize = 0;
        while k < stage.variables.len()
            invariant
                stage.wf(),
                time.wf(),
                beat.wf(),
                bound@.len() == stage.inputs@.len(),
                forall|j: int| 0 <= j < bound@.len() ==> #[trigger] binding_planned(bound@[j], stage.inputs@[j], self.stages@, inputs.entries@),
                0 <= k <= stage.variables@.len(),
                values@.len() == k,
                forall|j: int| 0 <= j < k ==> (#[trigger] values@[j]).0 == stage.variables@[j].0 && values@[j].1
                    == variable_value(stage.variables@[j].1, time, beat),
            decreases stage.variables@.len() - k,
        {
            proof {
                assert(crate::stage::variable_ok(stage.variables@[k as int].1));
            }
            let v = stage.variables[k].1.current(time, beat);
            values.push((stage.variables[k].0.clone(), v));
            k = k + 1;
        }
        StagePlan {
            stage_id: stage.id,
            filter: stage.filter.clone(),
            precision: stage.precision,
            inputs: bound,
            values,
        }
    }

    /// The plans of one render pass: every interior stage in order, then the
    /// final stage.
    pub fn render_plan(&self, inputs: &InputRegistry, time: Ratio, beat: Ratio) -> (r: Vec<StagePlan>)
        requires
            self.wf(),
            inputs.wf(),
            time.wf(),
            beat.wf(),
        ensures
            r@.len() == self.stages@.len() + 1,
            forall|i: int| 0 <= i < self.stages@.len() ==> #[trigger] plans(r@[i], self.stages@[i], self.stages@, inputs.entries@, time, beat),
            plans(r@.last(), self.final_stage, self.stages@, inputs.entries@, time, beat),
    {
        let mut r: Vec<StagePlan> = Vec::new();
        let mut i: usize = 0;
        while i < self.stages.len()
            invariant
                self.wf(),
                inputs.wf(),
                time.wf(),
                beat.wf(),
                0 <= i <= self.stages@.len(),
                r@.len() == i,
                forall|j: int| 0 <= j < i ==> #[trigger] plans(r@[j], self.stages@[j], self.stages@, inputs.entries@, time, beat),
            decreases self.stages@.len() - i,
        {
            proof {
                assert(self.stages@[i as int].wf());
            }
            let p = self.plan_stage(&self.stages[i], inputs, time, beat);
            r.push(p);
            i = i + 1;
        }
        let p = self.plan_stage(&self.final_stage, inputs, time, beat);
        r.push(p);
        r
    }
}

/// `p` is binding `b` resolved against `stages` and `inputs`.
pub open spec fn binding_planned(p: BindingPlan, b: (String, crate::stage::SampledInput), stages: Seq<Stage>, inputs: Seq<(String, InputSlot)>) -> bool {
    &&& p.binding == b.0
    &&& p.source == resolve(stages, inputs, b.1.source@)
    &&& p.mode == b.1.mode
}

/// `p` is the plan of stage `s` at `time` and `beat`.
pub open spec fn plans(p: StagePlan, s: Stage, stages: Seq<Stage>, inputs: Seq<(String, InputSlot)>, time: Ratio, beat: Ratio) -> bool {
    &&& p.stage_id == s.id
    &&& p.filter == s.filter
    &&& p.precision == s.precision
    &&& p.inputs@.len() == s.inputs@.len()
    &&& forall|j: int| 0 <= j < s.inputs@.len() ==> #[trigger] binding_planned(p.inputs@[j], s.inputs@[j], stages, inputs)
    &&& p.values@.len() == s.variables@.len()
    &&& forall|j: int| 0 <= j < s.variables@.len() ==> (#[trigger] p.values@[j]).0 == s.variables@[j].0 && p.values@[j].1
        == variable_value(s.variables@[j].1, time, beat)
}

/// The error that `u` meets on `stage` itself, whatever the graph.
fn local_check(stage: &Stage, u: &StageUpdate) -> (r: Result<(), GraphError>)
    requires
        stage.wf(),
    ensures
        r == match *u {
            StageUpdate::VariableAutomation(n, c) => if !c.wf() {
                Err::<(), GraphError>(GraphError::InvalidCurve)
            } else if !has_key(stage.variables@, n@) {
                Err::<(), GraphError>(GraphError::UnknownVariable)
            } else {
                Ok(())
            },
            _ => Ok(()),
        },
{
    match u {
        StageUpdate::VariableAutomation(n, c) => {
            if !c.is_valid() {
                Err(GraphError::InvalidCurve)
            } else if crate::named::position(&stage.variables, n).is_none() {
                Err(GraphError::UnknownVariable)
            } else {
                Ok(())
            }
        },
        _ => Ok(()),
    }
}

/// Applies `u`, which passed every check, to `stage`.
fn apply_update(stage: &mut Stage, u: StageUpdate)
    requires
        old(stage).wf(),
        u matches StageUpdate::VariableAutomation(n, c) ==> c.wf() && has_key(old(stage).variables@, n@),
    ensures
        final(stage).wf(),
        updated(*old(stage), *final(stage), u),
{
    match u {
        StageUpdate::Filter(f) => {
            stage.filter = f;
        },
        StageUpdate::Variable(n, v) => {
            stage.set_variable(n, v);
        },
        StageUpdate::VariableAutomation(n, c) => {
            let _ = stage.set_variable_automation(&n, c);
        },
        StageUpdate::Input(n, x) => {
            stage.set_input(n, x);
        },
        StageUpdate::Precision(p) => {
            stage.precision = p;
        },
        StageUpdate::Name(n) => {
            stage.name = n;
        },
    }
}

/// The chain with the stage at `from` moved to stand at `to`.
pub open spec fn moved(stages: Seq<Stage>, from: int, to: int) -> Seq<Stage> {
    stages.remove(from).insert(to, stages[from])
}

/// The index before a move of the stage found at `j` after it.
pub open spec fn moved_from(n: int, from: int, to: int, j: int) -> int {
    let r = if j < to { j } else if j == to { -1 } else { j - 1 };
    if r == -1 { from } else if r < from { r } else { r + 1 }
}

/// The index after a move of the stage found at `i` before it.
pub open spec fn moved_to(from: int, to: int, i: int) -> int {
    if i == from {
        to
    } else {
        let r = if i < from { i } else { i - 1 };
        if r < to { r } else { r + 1 }
    }
}

proof fn lemma_moved_is_permutation(stages: Seq<Stage>, from: int, to: int)
    requires
        0 <= from < stages.len(),
        0 <= to < stages.len(),
    ensures
        forall|i: int| 0 <= i < stages.len() ==> 0 <= #[trigger] moved_to(from, to, i) < stages.len()
            && moved(stages, from, to)[moved_to(from, to, i)] == stages[i],
        moved(stages, from, to).len() == stages.len(),
        forall|j: int| 0 <= j < stages.len() ==> 0 <= #[trigger] moved_from(stages.len() as int, from, to, j) < stages.len()
            && moved(stages, from, to)[j] == stages[moved_from(stages.len() as int, from, to, j)],
        forall|i: int, j: int| 0 <= i < j < stages.len() ==> #[trigger] moved_from(stages.len() as int, from, to, i)
            != #[trigger] moved_from(stages.len() as int, from, to, j),
{
}

/// Moving a stage changes only the order of the chain: the same stages,
/// with their identities and bindings, remain, and every binding name
/// resolves to the same source as before.
pub proof fn lemma_move_keeps_stages_and_bindings(
    stages: Seq<Stage>,
    inputs: Seq<(String, InputSlot)>,
    from: int,
    to: int,
)
    requires
        names_unique(stages),
        0 <= from < stages.len(),
        0 <= to < stages.len(),
    ensures
        moved(stages, from, to).to_multiset() == stages.to_multiset(),
        ids(moved(stages, from, to)).to_multiset() == ids(stages).to_multiset(),
        names_unique(moved(stages, from, to)),
        forall|name: Seq<char>| #[trigger] resolve(moved(stages, from, to), inputs, name) == resolve(stages, inputs, name),
{
    broadcast use vstd::multiset::group_multiset_axioms;
    let m = moved(stages, from, to);
    let n = stages.len() as int;
    let x = stages[from];
    vstd::seq_lib::to_multiset_remove(stages, from);
    vstd::seq_lib::to_multiset_insert(stages.remove(from), to, x);
    vstd::seq_lib::to_multiset_contains(stages, x);
    assert(m.to_multiset() =~= stages.to_multiset());
    let is = ids(stages);
    assert(ids(m) =~= is.remove(from).insert(to, is[from]));
    vstd::seq_lib::to_multiset_remove(is, from);
    vstd::seq_lib::to_multiset_insert(is.remove(from), to, is[from]);
    vstd::seq_lib::to_multiset_contains(is, is[from]);
    assert(ids(m).to_multiset() =~= is.to_multiset());
    lemma_moved_is_permutation(stages, from, to);
    assert forall|i: int, j: int| 0 <= i < j < m.len() implies #[trigger] m[i].name@ != #[trigger] m[j].name@ by {
        let bi = moved_from(n, from, to, i);
        let bj = moved_from(n, from, to, j);
        if bi < bj {
            assert(stages[bi].name@ != stages[bj].name@);
        } else {
            assert(stages[bj].name@ != stages[bi].name@);
        }
    }
    assert forall|name: Seq<char>| #[trigger] resolve(m, inputs, name) == resolve(stages, inputs, name) by {
        if has_stage_named(stages, name) {
            let c = choose|c: int| 0 <= c < stages.len() && #[trigger] stages[c].name@ == name;
            assert(m[moved_to(from, to, c)].name@ == name);
            assert(has_stage_named(m, name));
            let d = choose|d: int| 0 <= d < m.len() && #[trigger] m[d].name@ == name;
            let bd = moved_from(n, from, to, d);
            assert(stages[bd].name@ == name);
            if bd != c {
                if bd < c {
                    assert(stages[bd].name@ != stages[c].name@);
                } else {
                    assert(stages[c].name@ != stages[bd].name@);
                }
            }
        } else if has_stage_named(m, name) {
            let d = choose|d: int| 0 <= d < m.len() && #[trigger] m[d].name@ == name;
            assert(stages[moved_from(n, from, to, d)].name@ == name);
        }
    }
}

fn catalog_has(filters: &Vec<String>, f: &String) -> (r: bool)
    ensures
        r == in_catalog(filters@, f@),
{
    let mut i: usize = 0;
    while i < filters.len()
        invariant
            0 <= i <= filters@.len(),
            forall|j: int| 0 <= j < i ==> #[trigger] filters@[j]@ != f@,
        decreases filters@.len() - i,
    {
        if filters[i] == *f {
            return true;
        }
        i = i + 1;
    }
    false
}

} // verus!
