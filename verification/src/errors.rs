//! The closed error taxonomy of the runtime.

use vstd::prelude::*;
use crate::model_description::{CausalityType, VariableType};

verus! {

/// Validation and protocol errors of the call dispatcher.
#[derive(Debug, Clone)]
pub enum DtasmError {
    /// The module lacks a required export; fatal at load time.
    MissingDtasmExport(String),
    /// An operation was attempted before its prerequisites.
    InvalidCallingOrder,
    /// An id that the registry does not know.
    UnknownVariableId(i32),
    /// A request or response used the wrong typed slot; carries the
    /// registry's declared type for the offending id.
    VariableTypeMismatch(VariableType, i32),
    /// A value of a write-only variable was requested.
    VariableCausalityMismatch(CausalityType, i32),
    /// A value was set on a variable whose causality does not allow it.
    VariableCausalityInvalidForSet(CausalityType, i32),
    /// A value was set on a variable that does not allow it.
    VariableInvalidForSet(i32),
    /// Unexpected response size or other transport inconsistency.
    DtasmInternalError(String),
    /// A value was missing or malformed. On this crate's wire format a
    /// string value is always present and a malformed one fails decoding,
    /// so the dispatcher surfaces such responses as `DtasmInternalError`;
    /// the variant stays in the taxonomy for hosts and modules that report
    /// it themselves.
    InvalidVariableValue(String, i32),
    /// Reserved.
    NotImplementedError(String),
}

impl DtasmError {
    /// A short description, usable where the error is reported: a fixed
    /// phrase per variant, with the carried detail string appended where
    /// one exists.
    pub fn describe(&self) -> (r: String)
        ensures
            match *self {
                DtasmError::MissingDtasmExport(name) => r@ == "missing dtasm export symbol: "@
                    + name@,
                DtasmError::InvalidCallingOrder => r@ == "invalid invocation order"@,
                DtasmError::UnknownVariableId(_) => r@ == "unknown variable id requested"@,
                DtasmError::VariableTypeMismatch(_, _) => r@
                    == "unexpected variable type for requested variable id"@,
                DtasmError::VariableCausalityMismatch(_, _) => r@
                    == "unexpected variable causality for requested variable id"@,
                DtasmError::VariableCausalityInvalidForSet(_, _) => r@
                    == "causality does not allow to set value for requested variable id"@,
                DtasmError::VariableInvalidForSet(_) => r@
                    == "causality does not allow to set value for requested variable id"@,
                DtasmError::DtasmInternalError(msg) => r@ == "internal error in dtasm module: "@
                    + msg@,
                DtasmError::InvalidVariableValue(repr, _) => r@ == "invalid variable value: "@
                    + repr@,
                DtasmError::NotImplementedError(what) => r@ == "not implemented: "@ + what@,
            },
    {
        match self {
            DtasmError::MissingDtasmExport(name) => join_msg("missing dtasm export symbol: ", name),
            DtasmError::InvalidCallingOrder => String::from_str("invalid invocation order"),
            DtasmError::UnknownVariableId(_) => String::from_str("unknown variable id requested"),
            DtasmError::VariableTypeMismatch(_, _) => String::from_str(
                "unexpected variable type for requested variable id",
            ),
            DtasmError::VariableCausalityMismatch(_, _) => String::from_str(
                "unexpected variable causality for requested variable id",
            ),
            DtasmError::VariableCausalityInvalidForSet(_, _) => String::from_str(
                "causality does not allow to set value for requested variable id",
            ),
            DtasmError::VariableInvalidForSet(_) => String::from_str(
                "causality does not allow to set value for requested variable id",
            ),
            DtasmError::DtasmInternalError(msg) => join_msg("internal error in dtasm module: ", msg),
            DtasmError::InvalidVariableValue(repr, _) => join_msg(
                "invalid variable value: ",
                repr,
            ),
            DtasmError::NotImplementedError(what) => join_msg("not implemented: ", what),
        }
    }
}

/// Concatenation of a fixed prefix and a detail string.
fn join_msg(prefix: &str, detail: &String) -> (r: String)
    ensures
        r@ == prefix@ + detail@,
{
    let mut r = prefix.to_owned();
    r.append(detail.as_str());
    r
}

/// Errors surfaced by the host runtime: either a validation error of the
/// protocol, or a failure reported by the sandbox VM (a trap, a load or
/// instantiation failure), carried as its rendered message.
#[derive(Debug, Clone)]
pub enum DtasmtimeError {
    /// The sandbox VM reported a failure; the payload is its message.
    ModuleError(String),
    /// A validation or protocol error.
    DtasmError(DtasmError),
}

} // verus!
