//! Dynamic value bundles and per-call response types.
//!
//! Real values and times are IEEE-754 double bit patterns (`u64`): the
//! runtime only moves them across the sandbox boundary and never computes
//! with them.

use vstd::prelude::*;
use crate::idmap::IdMap;
use crate::model_description::{CausalityType, VariableType, VariableValue};

verus! {

/// What the registry records for one variable id.
#[derive(Debug, Clone)]
pub struct DtasmVarType {
    pub name: String,
    pub value_type: VariableType,
    pub causality: CausalityType,
    pub default: Option<VariableValue>,
}

/// Ghost form of a registry record.
pub struct DtasmVarTypeView {
    pub name: Seq<char>,
    pub value_type: VariableType,
    pub causality: CausalityType,
    pub default: Option<crate::model_description::VariableValueView>,
}

impl View for DtasmVarType {
    type V = DtasmVarTypeView;

    open spec fn view(&self) -> DtasmVarTypeView {
        DtasmVarTypeView {
            name: self.name@,
            value_type: self.value_type,
            causality: self.causality,
            default: match self.default {
                Some(v) => Some(v@),
                None => None,
            },
        }
    }
}

/// Ghost form of a value bundle: the four raw pair sequences.
pub struct VarValuesView {
    pub reals: Seq<(i32, u64)>,
    pub ints: Seq<(i32, i32)>,
    pub bools: Seq<(i32, bool)>,
    pub strings: Seq<(i32, Seq<char>)>,
}

/// The dynamic input/output bundle: one id-keyed mapping per value type.
/// Keys are unique within each mapping; insertion order is irrelevant to the
/// protocol's meaning, though encodings preserve it.
#[derive(Debug, Clone)]
pub struct DtasmVarValues {
    pub real_values: IdMap<u64>,
    pub int_values: IdMap<i32>,
    pub bool_values: IdMap<bool>,
    pub string_values: IdMap<String>,
}

impl View for DtasmVarValues {
    type V = VarValuesView;

    open spec fn view(&self) -> VarValuesView {
        VarValuesView {
            reals: self.real_values@,
            ints: self.int_values@,
            bools: self.bool_values@,
            strings: self.string_values@,
        }
    }
}

impl DtasmVarValues {
    /// Key uniqueness in all four mappings.
    pub open spec fn wf(&self) -> bool {
        &&& self.real_values.wf()
        &&& self.int_values.wf()
        &&& self.bool_values.wf()
        &&& self.string_values.wf()
    }

    /// An empty bundle.
    pub fn new() -> (r: DtasmVarValues)
        ensures
            r.wf(),
            r.real_values@ =~= Seq::<(i32, u64)>::empty(),
            r.int_values@ =~= Seq::<(i32, i32)>::empty(),
            r.bool_values@ =~= Seq::<(i32, bool)>::empty(),
            r.string_values@ =~= Seq::<(i32, Seq<char>)>::empty(),
    {
        DtasmVarValues {
            real_values: IdMap::new(),
            int_values: IdMap::new(),
            bool_values: IdMap::new(),
            string_values: IdMap::new(),
        }
    }
}

/// Maximal level at which log messages should be reported.
#[derive(Debug, Clone, Copy, PartialEq, Eq, Structural)]
pub enum LogLevel {
    Error,
    Warn,
    Info,
}

/// Status reported by a module for one operation.
#[derive(Debug, Clone, Copy, PartialEq, Eq, Structural)]
pub enum Status {
    OK,
    Warning,
    Discard,
    Error,
}

/// Response from a call to retrieve values of variables.
///
/// * `status` - status after the last time step computation.
/// * `current_time` - current internal time of the instance (double bits).
/// * `values` - current values of the requested variables.
#[derive(Debug, Clone)]
pub struct GetValuesResponse {
    pub status: Status,
    pub current_time: u64,
    pub values: DtasmVarValues,
}

/// Response from a time-step computation; `updated_time` is double bits.
#[derive(Debug, Clone)]
pub struct DoStepResponse {
    pub status: Status,
    pub updated_time: u64,
}

} // verus!
