//! One filter pass of the composite chain: its bindings to other stages or
//! inputs, its variables and their automation.

use vstd::prelude::*;
use crate::automation::{AutomationCurve, Domain, POSITION_SCALE};
use crate::named::{unique_keys, has_key, key_index, lookup, upserted, position, upsert, lemma_upserted};
use crate::ratio::Ratio;

verus! {

/// Texture-fetch policy of a binding.
#[derive(Clone, Copy, Debug, PartialEq, Eq, Structural)]
pub enum SamplingMode {
    Nearest,
    Linear,
    Mipmaps,
}

/// A binding's source, a stage or input named `source`, and how to sample it.
#[derive(Clone, Debug)]
pub struct SampledInput {
    pub source: String,
    pub mode: SamplingMode,
}

/// Storage precision of a stage's output buffer.
#[derive(Clone, Copy, Debug, PartialEq, Eq, Structural)]
pub enum Precision {
    /// Eight bits per channel.
    Byte,
    /// Sixteen bits per channel.
    Half,
    /// Thirty-two bits per channel.
    Full,
}

/// A uniform's raw value and, optionally, the curve that drives it.
#[derive(Clone, Debug)]
pub struct Variable {
    pub value: i64,
    pub automation: Option<AutomationCurve>,
}

/// What a stage is built from.
#[derive(Clone, Debug)]
pub struct StageConfig {
    pub name: String,
    pub filter: String,
    pub precision: Precision,
    pub inputs: Vec<(String, SampledInput)>,
    pub variables: Vec<(String, Variable)>,
}

/// A render stage. `id` is its identity for the whole session.
#[derive(Debug)]
pub struct Stage {
    pub id: u64,
    pub name: String,
    pub filter: String,
    pub precision: Precision,
    /// Binding name to source.
    pub inputs: Vec<(String, SampledInput)>,
    /// Variable name to value.
    pub variables: Vec<(String, Variable)>,
}

/// One change to a stage.
#[derive(Clone, Debug)]
pub enum StageUpdate {
    /// Swap the filter program.
    Filter(String),
    /// Set a variable's raw value, dropping any curve that drove it.
    Variable(String, i64),
    /// Replace the curve of an existing variable, keeping its raw value.
    VariableAutomation(String, AutomationCurve),
    /// Bind a name to a source.
    Input(String, SampledInput),
    Precision(Precision),
    Name(String),
}

/// Why a change to the stage graph was refused.
#[derive(Clone, Copy, Debug, PartialEq, Eq, Structural)]
pub enum GraphError {
    /// No interior stage at that index.
    NoSuchStage,
    /// The filter catalog has no program of that name.
    UnknownFilter,
    /// Another interior stage already has that name.
    DuplicateStageName,
    /// The stage has no variable of that name.
    UnknownVariable,
    /// An automation curve without keyframes or with unordered keyframes.
    InvalidCurve,
    /// A stage configuration with a binding or variable name twice, or an
    /// invalid curve.
    InvalidConfig,
    /// Every stage id has been handed out.
    IdsExhausted,
}

pub open spec fn variable_ok(v: Variable) -> bool {
    v.automation matches Some(c) ==> c.wf()
}

pub open spec fn variables_ok(vars: Seq<(String, Variable)>) -> bool {
    &&& unique_keys(vars)
    &&& forall|i: int| 0 <= i < vars.len() ==> #[trigger] variable_ok(vars[i].1)
}

/// `floor(r * POSITION_SCALE)`, saturated: the curve position of a time or
/// beat value.
pub open spec fn scaled_position(r: Ratio) -> int {
    let p = (r.num as int) * (POSITION_SCALE as int) / (r.den as int);
    if p > u64::MAX { u64::MAX as int } else { p }
}

/// A variable's value at session time `time` and beat `beat`: its curve's
/// value at the matching position when it has one, its raw value otherwise.
pub open spec fn variable_value(v: Variable, time: Ratio, beat: Ratio) -> int {
    match v.automation {
        None => v.value as int,
        Some(c) => c.value_at(
            match c.domain {
                Domain::Time => scaled_position(time),
                Domain::Beat => scaled_position(beat),
            },
        ),
    }
}

impl Variable {
    /// The value at session time `time` and beat `beat`.
    pub fn current(&self, time: Ratio, beat: Ratio) -> (r: i64)
        requires
            variable_ok(*self),
            time.wf(),
            beat.wf(),
        ensures
            r as int == variable_value(*self, time, beat),
    {
        match &self.automation {
            None => self.value,
            Some(c) => {
                let at = match c.domain {
                    Domain::Time => time.floor_scaled(POSITION_SCALE),
                    Domain::Beat => beat.floor_scaled(POSITION_SCALE),
                };
                c.evaluate(at)
            },
        }
    }
}

impl StageConfig {
    pub open spec fn wf(&self) -> bool {
        unique_keys(self.inputs@) && variables_ok(self.variables@)
    }

    /// Whether binding and variable names are unique and every curve valid.
    pub fn is_valid(&self) -> (r: bool)
        ensures
            r == self.wf(),
    {
        unique_names(&self.inputs) && valid_variables(&self.variables)
    }
}

/// Whether no name occurs twice.
pub fn unique_names<T>(s: &Vec<(String, T)>) -> (r: bool)
    ensures
        r == unique_keys(s@),
{
    let n = s.len();
    let mut j: usize = 0;
    while j < n
        invariant
            n == s@.len(),
            0 <= j <= n,
            forall|a: int, b: int| 0 <= a < b < j ==> #[trigger] s@[a].0@ != #[trigger] s@[b].0@,
        decreases n - j,
    {
        let mut i: usize = 0;
        while i < j
            invariant
                n == s@.len(),
                0 <= i <= j < n,
                forall|a: int| 0 <= a < i ==> #[trigger] s@[a].0@ != s@[j as int].0@,
            decreases j - i,
        {
            if s[i].0 == s[j].0 {
                assert(!unique_keys(s@)) by {
                    assert(s@[i as int].0@ == s@[j as int].0@);
                }
                return false;
            }
            i = i + 1;
        }
        j = j + 1;
    }
    true
}

fn valid_variables(vars: &Vec<(String, Variable)>) -> (r: bool)
    ensures
        r == variables_ok(vars@),
{
    if !unique_names(vars) {
        return false;
    }
    let mut i: usize = 0;
    while i < vars.len()
        invariant
            0 <= i <= vars@.len(),
            forall|j: int| 0 <= j < i ==> #[trigger] variable_ok(vars@[j].1),
        decreases vars@.len() - i,
    {
        match &vars[i].1.automation {
            Some(c) => {
                if !c.is_valid() {
                    assert(!variable_ok(vars@[i as int].1));
                    return false;
                }
            },
            None => {},
        }
        i = i + 1;
    }
    true
}

impl Stage {
    pub open spec fn wf(&self) -> bool {
        unique_keys(self.inputs@) && variables_ok(self.variables@)
    }

    /// A stage built from `config`, with identity `id`.
    pub fn from_config(id: u64, config: StageConfig) -> (r: Stage)
        ensures
            r.id == id,
            r.name == config.name,
            r.filter == config.filter,
            r.precision == config.precision,
            r.inputs@ == config.inputs@,
            r.variables@ == config.variables@,
    {
        Stage {
            id,
            name: config.name,
            filter: config.filter,
            precision: config.precision,
            inputs: config.inputs,
            variables: config.variables,
        }
    }

    /// Sets a variable's raw value, dropping any curve that drove it.
    pub fn set_variable(&mut self, name: String, value: i64)
        requires
            old(self).wf(),
        ensures
            final(self).wf(),
            final(self).variables@ == upserted(
                old(self).variables@,
                name,
                Variable { value, automation: None },
            ),
            final(self).id == old(self).id,
            final(self).name == old(self).name,
            final(self).filter == old(self).filter,
            final(self).precision == old(self).precision,
            final(self).inputs@ == old(self).inputs@,
    {
        let v = Variable { value, automation: None };
        proof {
            lemma_upserted(self.variables@, name, v);
            lemma_upserted_values_ok(self.variables@, name, v);
        }
        upsert(&mut self.variables, name, v);
    }

    /// Replaces the curve of the variable `name`, keeping its raw value.
    pub fn set_variable_automation(&mut self, name: &String, curve: AutomationCurve) -> (r: Result<(), GraphError>)
        requires
            old(self).wf(),
        ensures
            final(self).wf(),
            !curve.wf() ==> r == Err::<(), GraphError>(GraphError::InvalidCurve),
            curve.wf() && !has_key(old(self).variables@, name@) ==> r == Err::<(), GraphError>(
                GraphError::UnknownVariable,
            ),
            r is Err ==> final(self).variables@ == old(self).variables@,
            curve.wf() && has_key(old(self).variables@, name@) ==> ({
                let i = key_index(old(self).variables@, name@);
                let was = old(self).variables@[i];
                &&& r is Ok
                &&& final(self).variables@ == old(self).variables@.update(
                    i,
                    (was.0, Variable { value: was.1.value, automation: Some(curve) }),
                )
            }),
            final(self).id == old(self).id,
            final(self).name == old(self).name,
            final(self).filter == old(self).filter,
            final(self).precision == old(self).precision,
            final(self).inputs@ == old(self).inputs@,
    {
        if !curve.is_valid() {
            return Err(GraphError::InvalidCurve);
        }
        match position(&self.variables, name) {
            None => Err(GraphError::UnknownVariable),
            Some(i) => {
                let ghost before = self.variables@;
                let (key, was) = self.variables.remove(i);
                let v = Variable { value: was.value, automation: Some(curve) };
                self.variables.insert(i, (key, v));
                proof {
                    assert(self.variables@ =~= before.update(i as int, (key, v)));
                    assert forall|a: int, b: int| 0 <= a < b < self.variables@.len() implies
                        #[trigger] self.variables@[a].0@ != #[trigger] self.variables@[b].0@ by {
                        assert(before[a].0@ != before[b].0@);
                    }
                    assert forall|j: int| 0 <= j < self.variables@.len() implies
                        #[trigger] variable_ok(self.variables@[j].1) by {
                        if j != i {
                            assert(variable_ok(before[j].1));
                        }
                    }
                }
                Ok(())
            },
        }
    }

    /// Binds `name` to `input`, in place of an earlier binding of that name.
    pub fn set_input(&mut self, name: String, input: SampledInput)
        requires
            old(self).wf(),
        ensures
            final(self).wf(),
            final(self).inputs@ == upserted(old(self).inputs@, name, input),
            final(self).id == old(self).id,
            final(self).name == old(self).name,
            final(self).filter == old(self).filter,
            final(self).precision == old(self).precision,
            final(self).variables@ == old(self).variables@,
    {
        upsert(&mut self.inputs, name, input);
    }

    /// The binding of `name`.
    pub fn input(&self, name: &String) -> (r: Option<&SampledInput>)
        requires
            self.wf(),
        ensures
            r matches Some(x) ==> lookup(self.inputs@, name@) == Some(*x),
            r is None ==> lookup(self.inputs@, name@) is None,
    {
        match position(&self.inputs, name) {
            Some(i) => Some(&self.inputs[i].1),
            None => None,
        }
    }
}

/// Upserting a valid variable keeps every variable valid.
proof fn lemma_upserted_values_ok(vars: Seq<(String, Variable)>, k: String, v: Variable)
    requires
        variables_ok(vars),
        variable_ok(v),
    ensures
        forall|i: int| 0 <= i < upserted(vars, k, v).len() ==> #[trigger] variable_ok(upserted(vars, k, v)[i].1),
{
    let r = upserted(vars, k, v);
    assert forall|i: int| 0 <= i < r.len() implies #[trigger] variable_ok(r[i].1) by {
        if i < vars.len() && (!has_key(vars, k@) || i != key_index(vars, k@)) {
            assert(variable_ok(vars[i].1));
        }
    }
}

} // verus!
