//! Typed in-memory form of a module's self-description.
//!
//! A module describes itself once, as a serialised model description; the
//! runtime decodes it into these types and never re-reads it afterwards.
//! All time- and real-valued fields hold IEEE-754 double bit patterns.

use vstd::prelude::*;

verus! {

/// Declared scalar kind of a variable.
#[derive(Debug, Clone, Copy, PartialEq, Eq, Structural)]
pub enum VariableType {
    DtasmReal,
    DtasmInt,
    DtasmBool,
    DtasmString,
}

/// Whether a variable is written by the environment (`Input`), produced by
/// the model (`Output`), internal (`Local`), or fixed at initialization
/// (`Parameter`).
#[derive(Debug, Clone, Copy, PartialEq, Eq, Structural)]
pub enum CausalityType {
    Local,
    Parameter,
    Input,
    Output,
}

/// Default value of a variable; only the slot matching the variable's
/// declared type carries meaning. `real_val` holds IEEE-754 double bits.
#[derive(Debug)]
pub struct VariableValue {
    pub real_val: u64,
    pub int_val: i32,
    pub bool_val: bool,
    pub string_val: String,
}

/// One variable declared by the model description.
#[derive(Debug)]
pub struct ModelVariable {
    pub id: i32,
    pub name: String,
    pub value_type: VariableType,
    pub description: String,
    pub unit: String,
    pub causality: CausalityType,
    pub derivative_of_id: i32,
    pub default: Option<VariableValue>,
}

/// Optional capabilities advertised by a module.
#[derive(Debug, Clone, Copy, PartialEq, Eq, Structural)]
pub struct Capabilities {
    pub can_handle_variable_step_size: bool,
    pub can_reset_step: bool,
    pub can_interpolate_inputs: bool,
}

/// Identity and provenance of a model.
#[derive(Debug)]
pub struct ModelInfo {
    pub name: String,
    pub id: String,
    pub description: String,
    pub generation_tool: String,
    pub generation_date_time: String,
    pub name_delimiter: String,
    pub capabilities: Capabilities,
}

/// Suggested experiment parameters; all times are IEEE-754 double bits.
#[derive(Debug)]
pub struct ExperimentInfo {
    pub time_step_min: u64,
    pub time_step_max: u64,
    pub time_step_default: u64,
    pub start_time_default: u64,
    pub end_time_default: u64,
    pub time_unit: String,
}

/// A module's complete self-description: immutable after first load.
#[derive(Debug)]
pub struct ModelDescription {
    pub model: ModelInfo,
    pub variables: Vec<ModelVariable>,
    pub experiment: Option<ExperimentInfo>,
}

} // verus!

verus! {

/// Ghost form of a default value.
pub struct VariableValueView {
    pub real_val: u64,
    pub int_val: i32,
    pub bool_val: bool,
    pub string_val: Seq<char>,
}

impl View for VariableValue {
    type V = VariableValueView;

    open spec fn view(&self) -> VariableValueView {
        VariableValueView {
            real_val: self.real_val,
            int_val: self.int_val,
            bool_val: self.bool_val,
            string_val: self.string_val@,
        }
    }
}

/// Ghost form of a declared variable.
pub struct ModelVariableView {
    pub id: i32,
    pub name: Seq<char>,
    pub value_type: VariableType,
    pub description: Seq<char>,
    pub unit: Seq<char>,
    pub causality: CausalityType,
    pub derivative_of_id: i32,
    pub default: Option<VariableValueView>,
}

impl View for ModelVariable {
    type V = ModelVariableView;

    open spec fn view(&self) -> ModelVariableView {
        ModelVariableView {
            id: self.id,
            name: self.name@,
            value_type: self.value_type,
            description: self.description@,
            unit: self.unit@,
            causality: self.causality,
            derivative_of_id: self.derivative_of_id,
            default: match self.default {
                Some(v) => Some(v@),
                None => None,
            },
        }
    }
}

/// Ghost form of the model identity block.
pub struct ModelInfoView {
    pub name: Seq<char>,
    pub id: Seq<char>,
    pub description: Seq<char>,
    pub generation_tool: Seq<char>,
    pub generation_date_time: Seq<char>,
    pub name_delimiter: Seq<char>,
    pub capabilities: Capabilities,
}

impl View for ModelInfo {
    type V = ModelInfoView;

    open spec fn view(&self) -> ModelInfoView {
        ModelInfoView {
            name: self.name@,
            id: self.id@,
            description: self.description@,
            generation_tool: self.generation_tool@,
            generation_date_time: self.generation_date_time@,
            name_delimiter: self.name_delimiter@,
            capabilities: self.capabilities,
        }
    }
}

/// Ghost form of the experiment block.
pub struct ExperimentInfoView {
    pub time_step_min: u64,
    pub time_step_max: u64,
    pub time_step_default: u64,
    pub start_time_default: u64,
    pub end_time_default: u64,
    pub time_unit: Seq<char>,
}

impl View for ExperimentInfo {
    type V = ExperimentInfoView;

    open spec fn view(&self) -> ExperimentInfoView {
        ExperimentInfoView {
            time_step_min: self.time_step_min,
            time_step_max: self.time_step_max,
            time_step_default: self.time_step_default,
            start_time_default: self.start_time_default,
            end_time_default: self.end_time_default,
            time_unit: self.time_unit@,
        }
    }
}

/// Ghost form of a whole model description.
pub struct ModelDescriptionView {
    pub model: ModelInfoView,
    pub variables: Seq<ModelVariableView>,
    pub experiment: Option<ExperimentInfoView>,
}

impl View for ModelDescription {
    type V = ModelDescriptionView;

    open spec fn view(&self) -> ModelDescriptionView {
        ModelDescriptionView {
            model: self.model@,
            variables: self.variables@.map_values(|v: ModelVariable| v@),
            experiment: match self.experiment {
                Some(e) => Some(e@),
                None => None,
            },
        }
    }
}

} // verus!

verus! {

impl Clone for VariableValue {
    /// A copy with the same view.
    fn clone(&self) -> (r: Self)
        ensures
            r@ == self@,
    {
        VariableValue {
            real_val: self.real_val,
            int_val: self.int_val,
            bool_val: self.bool_val,
            string_val: self.string_val.clone(),
        }
    }
}

impl Clone for ModelVariable {
    /// A copy with the same view.
    fn clone(&self) -> (r: Self)
        ensures
            r@ == self@,
    {
        ModelVariable {
            id: self.id,
            name: self.name.clone(),
            value_type: self.value_type,
            description: self.description.clone(),
            unit: self.unit.clone(),
            causality: self.causality,
            derivative_of_id: self.derivative_of_id,
            default: match &self.default {
                Some(d) => Some(d.clone()),
                None => None,
            },
        }
    }
}

impl Clone for ModelInfo {
    /// A copy with the same view.
    fn clone(&self) -> (r: Self)
        ensures
            r@ == self@,
    {
        ModelInfo {
            name: self.name.clone(),
            id: self.id.clone(),
            description: self.description.clone(),
            generation_tool: self.generation_tool.clone(),
            generation_date_time: self.generation_date_time.clone(),
            name_delimiter: self.name_delimiter.clone(),
            capabilities: self.capabilities,
        }
    }
}

impl Clone for ExperimentInfo {
    /// A copy with the same view.
    fn clone(&self) -> (r: Self)
        ensures
            r@ == self@,
    {
        ExperimentInfo {
            time_step_min: self.time_step_min,
            time_step_max: self.time_step_max,
            time_step_default: self.time_step_default,
            start_time_default: self.start_time_default,
            end_time_default: self.end_time_default,
            time_unit: self.time_unit.clone(),
        }
    }
}

impl Clone for ModelDescription {
    /// A copy with the same view.
    #[verifier::loop_isolation(false)]
    fn clone(&self) -> (r: Self)
        ensures
            r@ == self@,
    {
        let n = self.variables.len();
        let mut vs: Vec<ModelVariable> = Vec::new();
        let mut i: usize = 0;
        while i < n
            invariant
                0 <= i <= n,
                vs@.len() == i,
                forall|j: int| 0 <= j < i ==> (#[trigger] vs@[j])@ == self.variables@[j]@,
            decreases n - i,
        {
            vs.push(self.variables[i].clone());
            i = i + 1;
        }
        let r = ModelDescription {
            model: self.model.clone(),
            variables: vs,
            experiment: match &self.experiment {
                Some(e) => Some(e.clone()),
                None => None,
            },
        };
        proof {
            assert(r@.variables =~= self@.variables);
        }
        r
    }
}

} // verus!
