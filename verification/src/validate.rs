//! Validation of requests and responses against the variable registry.
//!
//! Each check scans the typed mappings in a fixed order (real, int, bool,
//! string) and reports the first violation, exactly as its specification
//! function states. The dispatcher calls these before anything crosses the
//! sandbox boundary (and, for responses, right after decoding), so every
//! accepted bundle satisfies the registry's declared types and causalities.

use vstd::prelude::*;
use crate::errors::DtasmError;
use crate::idmap::{get_of, IdMap};
use crate::model_description::{CausalityType, VariableType};
use crate::types::{DtasmVarType, DtasmVarTypeView, DtasmVarValues, VarValuesView};

verus! {

/// The registry's ghost form: id/record pairs with unique ids.
pub type RegistryView = Seq<(i32, DtasmVarTypeView)>;

// ---------------------------------------------------------------------------
// Specification of the checks
// ---------------------------------------------------------------------------

/// First violation in one typed mapping when only the declared type is
/// checked: an unknown id, or a record whose type differs from the
/// mapping's. The reported mismatch carries the registry's declared type.
pub open spec fn check_typed<T>(
    reg: RegistryView,
    pairs: Seq<(i32, T)>,
    expected: VariableType,
) -> Option<DtasmError>
    decreases pairs.len(),
{
    if pairs.len() == 0 {
        None
    } else {
        let id = pairs[0].0;
        match get_of(reg, id) {
            None => Some(DtasmError::UnknownVariableId(id)),
            Some(rec) => {
                if rec.value_type != expected {
                    Some(DtasmError::VariableTypeMismatch(rec.value_type, id))
                } else {
                    check_typed(reg, pairs.skip(1), expected)
                }
            },
        }
    }
}

/// First violation across a whole bundle when only types are checked, as
/// initialization demands (initialization may set any causality).
pub open spec fn init_check(reg: RegistryView, v: VarValuesView) -> Option<DtasmError> {
    match check_typed(reg, v.reals, VariableType::DtasmReal) {
        Some(e) => Some(e),
        None => match check_typed(reg, v.ints, VariableType::DtasmInt) {
            Some(e) => Some(e),
            None => match check_typed(reg, v.bools, VariableType::DtasmBool) {
                Some(e) => Some(e),
                None => check_typed(reg, v.strings, VariableType::DtasmString),
            },
        },
    }
}

/// First violation in one typed mapping when setting values: an unknown id,
/// a causality other than `Input`, or a type mismatch, in that order.
pub open spec fn check_set<T>(
    reg: RegistryView,
    pairs: Seq<(i32, T)>,
    expected: VariableType,
) -> Option<DtasmError>
    decreases pairs.len(),
{
    if pairs.len() == 0 {
        None
    } else {
        let id = pairs[0].0;
        match get_of(reg, id) {
            None => Some(DtasmError::UnknownVariableId(id)),
            Some(rec) => {
                if rec.causality != CausalityType::Input {
                    Some(DtasmError::VariableCausalityInvalidForSet(rec.causality, id))
                } else if rec.value_type != expected {
                    Some(DtasmError::VariableTypeMismatch(rec.value_type, id))
                } else {
                    check_set(reg, pairs.skip(1), expected)
                }
            },
        }
    }
}

/// First violation across a whole bundle handed to `setValues`.
pub open spec fn set_check(reg: RegistryView, v: VarValuesView) -> Option<DtasmError> {
    match check_set(reg, v.reals, VariableType::DtasmReal) {
        Some(e) => Some(e),
        None => match check_set(reg, v.ints, VariableType::DtasmInt) {
            Some(e) => Some(e),
            None => match check_set(reg, v.bools, VariableType::DtasmBool) {
                Some(e) => Some(e),
                None => check_set(reg, v.strings, VariableType::DtasmString),
            },
        },
    }
}

/// First violation in a requested id list: an unknown id, or an id declared
/// `Input` (inputs are write-only).
pub open spec fn get_check(reg: RegistryView, ids: Seq<i32>) -> Option<DtasmError>
    decreases ids.len(),
{
    if ids.len() == 0 {
        None
    } else {
        let id = ids[0];
        match get_of(reg, id) {
            None => Some(DtasmError::UnknownVariableId(id)),
            Some(rec) => {
                if rec.causality == CausalityType::Input {
                    Some(DtasmError::VariableCausalityMismatch(CausalityType::Input, id))
                } else {
                    get_check(reg, ids.skip(1))
                }
            },
        }
    }
}

/// First violation in one typed mapping of a module's response: an unknown
/// id, or a value in the wrong typed slot. The reported mismatch carries the
/// slot's type.
pub open spec fn check_resp<T>(
    reg: RegistryView,
    pairs: Seq<(i32, T)>,
    expected: VariableType,
) -> Option<DtasmError>
    decreases pairs.len(),
{
    if pairs.len() == 0 {
        None
    } else {
        let id = pairs[0].0;
        match get_of(reg, id) {
            None => Some(DtasmError::UnknownVariableId(id)),
            Some(rec) => {
                if rec.value_type != expected {
                    Some(DtasmError::VariableTypeMismatch(expected, id))
                } else {
                    check_resp(reg, pairs.skip(1), expected)
                }
            },
        }
    }
}

/// First violation across a whole response bundle.
pub open spec fn resp_check(reg: RegistryView, v: VarValuesView) -> Option<DtasmError> {
    match check_resp(reg, v.reals, VariableType::DtasmReal) {
        Some(e) => Some(e),
        None => match check_resp(reg, v.ints, VariableType::DtasmInt) {
            Some(e) => Some(e),
            None => match check_resp(reg, v.bools, VariableType::DtasmBool) {
                Some(e) => Some(e),
                None => check_resp(reg, v.strings, VariableType::DtasmString),
            },
        },
    }
}

// ---------------------------------------------------------------------------
// Executable checks
// ---------------------------------------------------------------------------

/// Which of the three per-mapping rules to apply.
enum Rule {
    TypedOnly,
    SetInput,
    RespSlot,
}

/// The specification a rule stands for.
spec fn rule_check<T>(
    rule: Rule,
    reg: RegistryView,
    pairs: Seq<(i32, T)>,
    expected: VariableType,
) -> Option<DtasmError> {
    match rule {
        Rule::TypedOnly => check_typed(reg, pairs, expected),
        Rule::SetInput => check_set(reg, pairs, expected),
        Rule::RespSlot => check_resp(reg, pairs, expected),
    }
}

/// Scan one typed mapping under the given rule.
#[verifier::loop_isolation(false)]
fn scan_pairs<V: View>(
    rule: &Rule,
    reg: &IdMap<DtasmVarType>,
    pairs: &Vec<(i32, V)>,
    expected: VariableType,
) -> (r: Result<(), DtasmError>)
    ensures
        match rule_check(*rule, reg@, crate::idmap::pairs_view(pairs@), expected) {
            None => r is Ok,
            Some(e) => r == Err::<(), DtasmError>(e),
        },
{
    let ghost all = crate::idmap::pairs_view(pairs@);
    proof {
        assert(all.skip(0) =~= all);
    }
    let n = pairs.len();
    let mut i: usize = 0;
    while i < n
        invariant
            0 <= i <= n,
            rule_check(*rule, reg@, all, expected) == rule_check(
                *rule,
                reg@,
                all.skip(i as int),
                expected,
            ),
        decreases n - i,
    {
        let id = pairs[i].0;
        proof {
            assert(all.skip(i as int)[0].0 == id);
            assert(all.skip(i as int).skip(1) =~= all.skip(i as int + 1));
        }
        match reg.get(id) {
            None => {
                return Err(DtasmError::UnknownVariableId(id));
            },
            Some(rec) => {
                match rule {
                    Rule::TypedOnly => {
                        if rec.value_type != expected {
                            return Err(DtasmError::VariableTypeMismatch(rec.value_type, id));
                        }
                    },
                    Rule::SetInput => {
                        if rec.causality != CausalityType::Input {
                            return Err(
                                DtasmError::VariableCausalityInvalidForSet(rec.causality, id),
                            );
                        }
                        if rec.value_type != expected {
                            return Err(DtasmError::VariableTypeMismatch(rec.value_type, id));
                        }
                    },
                    Rule::RespSlot => {
                        if rec.value_type != expected {
                            return Err(DtasmError::VariableTypeMismatch(expected, id));
                        }
                    },
                }
            },
        }
        i = i + 1;
    }
    proof {
        assert(all.skip(n as int).len() == 0);
    }
    Ok(())
}

/// Scan a whole bundle under the given rule.
fn scan_bundle(rule: Rule, reg: &IdMap<DtasmVarType>, vals: &DtasmVarValues) -> (r: Result<
    (),
    DtasmError,
>)
    ensures
        match rule {
            Rule::TypedOnly => match init_check(reg@, vals@) {
                None => r is Ok,
                Some(e) => r == Err::<(), DtasmError>(e),
            },
            Rule::SetInput => match set_check(reg@, vals@) {
                None => r is Ok,
                Some(e) => r == Err::<(), DtasmError>(e),
            },
            Rule::RespSlot => match resp_check(reg@, vals@) {
                None => r is Ok,
                Some(e) => r == Err::<(), DtasmError>(e),
            },
        },
{
    let reals = vals.real_values.entries();
    let ints = vals.int_values.entries();
    let bools = vals.bool_values.entries();
    let strings = vals.string_values.entries();
    let r1 = scan_pairs(&rule, reg, reals, VariableType::DtasmReal);
    if r1.is_err() {
        return r1;
    }
    let r2 = scan_pairs(&rule, reg, ints, VariableType::DtasmInt);
    if r2.is_err() {
        return r2;
    }
    let r3 = scan_pairs(&rule, reg, bools, VariableType::DtasmBool);
    if r3.is_err() {
        return r3;
    }
    scan_pairs(&rule, reg, strings, VariableType::DtasmString)
}

/// Check a bundle of initial values: every id known, every value in the
/// mapping of its declared type; any causality is allowed.
pub fn check_init_values(reg: &IdMap<DtasmVarType>, vals: &DtasmVarValues) -> (r: Result<
    (),
    DtasmError,
>)
    ensures
        match init_check(reg@, vals@) {
            None => r is Ok,
            Some(e) => r == Err::<(), DtasmError>(e),
        },
{
    scan_bundle(Rule::TypedOnly, reg, vals)
}

/// Check a bundle handed to `setValues`: every id known, declared `Input`,
/// and in the mapping of its declared type.
pub fn check_set_values(reg: &IdMap<DtasmVarType>, vals: &DtasmVarValues) -> (r: Result<
    (),
    DtasmError,
>)
    ensures
        match set_check(reg@, vals@) {
            None => r is Ok,
            Some(e) => r == Err::<(), DtasmError>(e),
        },
{
    scan_bundle(Rule::SetInput, reg, vals)
}

/// Check a requested id list: every id known and none declared `Input`.
#[verifier::loop_isolation(false)]
pub fn check_get_ids(reg: &IdMap<DtasmVarType>, ids: &Vec<i32>) -> (r: Result<(), DtasmError>)
    ensures
        match get_check(reg@, ids@) {
            None => r is Ok,
            Some(e) => r == Err::<(), DtasmError>(e),
        },
{
    proof {
        assert(ids@.skip(0) =~= ids@);
    }
    let n = ids.len();
    let mut i: usize = 0;
    while i < n
        invariant
            0 <= i <= n,
            get_check(reg@, ids@) == get_check(reg@, ids@.skip(i as int)),
        decreases n - i,
    {
        let id = ids[i];
        proof {
            assert(ids@.skip(i as int)[0] == id);
            assert(ids@.skip(i as int).skip(1) =~= ids@.skip(i as int + 1));
        }
        match reg.get(id) {
            None => {
                return Err(DtasmError::UnknownVariableId(id));
            },
            Some(rec) => {
                if rec.causality == CausalityType::Input {
                    return Err(
                        DtasmError::VariableCausalityMismatch(CausalityType::Input, id),
                    );
                }
            },
        }
        i = i + 1;
    }
    Ok(())
}

/// Check every value of a module's response against the registry: each id
/// known and each value in the slot of its declared type. The response is
/// rejected whole on the first discrepancy.
pub fn check_response_values(reg: &IdMap<DtasmVarType>, vals: &DtasmVarValues) -> (r: Result<
    (),
    DtasmError,
>)
    ensures
        match resp_check(reg@, vals@) {
            None => r is Ok,
            Some(e) => r == Err::<(), DtasmError>(e),
        },
{
    scan_bundle(Rule::RespSlot, reg, vals)
}

} // verus!

verus! {

/// A response check reports only an unknown id or a slot mismatch.
proof fn lemma_check_resp_variants<T>(
    reg: RegistryView,
    pairs: Seq<(i32, T)>,
    expected: VariableType,
)
    ensures
        match check_resp(reg, pairs, expected) {
            Some(e) => e matches DtasmError::UnknownVariableId(_) || e matches
                DtasmError::VariableTypeMismatch(_, _),
            None => true,
        },
    decreases pairs.len(),
{
    if pairs.len() > 0 {
        lemma_check_resp_variants(reg, pairs.skip(1), expected);
    }
}

/// A whole-bundle response check reports only an unknown id or a slot
/// mismatch.
pub proof fn lemma_resp_check_variants(reg: RegistryView, v: VarValuesView)
    ensures
        match resp_check(reg, v) {
            Some(e) => e matches DtasmError::UnknownVariableId(_) || e matches
                DtasmError::VariableTypeMismatch(_, _),
            None => true,
        },
{
    lemma_check_resp_variants(reg, v.reals, VariableType::DtasmReal);
    lemma_check_resp_variants(reg, v.ints, VariableType::DtasmInt);
    lemma_check_resp_variants(reg, v.bools, VariableType::DtasmBool);
    lemma_check_resp_variants(reg, v.strings, VariableType::DtasmString);
}

} // verus!

verus! {

/// A typed-only check reports only an unknown id or a type mismatch.
proof fn lemma_check_typed_variants<T>(
    reg: RegistryView,
    pairs: Seq<(i32, T)>,
    expected: VariableType,
)
    ensures
        match check_typed(reg, pairs, expected) {
            Some(e) => e matches DtasmError::UnknownVariableId(_) || e matches
                DtasmError::VariableTypeMismatch(_, _),
            None => true,
        },
    decreases pairs.len(),
{
    if pairs.len() > 0 {
        lemma_check_typed_variants(reg, pairs.skip(1), expected);
    }
}

/// A whole-bundle initialization check reports only an unknown id or a
/// type mismatch.
pub proof fn lemma_init_check_variants(reg: RegistryView, v: VarValuesView)
    ensures
        match init_check(reg, v) {
            Some(e) => e matches DtasmError::UnknownVariableId(_) || e matches
                DtasmError::VariableTypeMismatch(_, _),
            None => true,
        },
{
    lemma_check_typed_variants(reg, v.reals, VariableType::DtasmReal);
    lemma_check_typed_variants(reg, v.ints, VariableType::DtasmInt);
    lemma_check_typed_variants(reg, v.bools, VariableType::DtasmBool);
    lemma_check_typed_variants(reg, v.strings, VariableType::DtasmString);
}

/// A set check reports only an unknown id, a causality violation or a
/// type mismatch.
proof fn lemma_check_set_variants<T>(
    reg: RegistryView,
    pairs: Seq<(i32, T)>,
    expected: VariableType,
)
    ensures
        match check_set(reg, pairs, expected) {
            Some(e) => e matches DtasmError::UnknownVariableId(_) || e matches
                DtasmError::VariableCausalityInvalidForSet(_, _) || e matches
                DtasmError::VariableTypeMismatch(_, _),
            None => true,
        },
    decreases pairs.len(),
{
    if pairs.len() > 0 {
        lemma_check_set_variants(reg, pairs.skip(1), expected);
    }
}

/// A whole-bundle set check reports only an unknown id, a causality
/// violation or a type mismatch.
pub proof fn lemma_set_check_variants(reg: RegistryView, v: VarValuesView)
    ensures
        match set_check(reg, v) {
            Some(e) => e matches DtasmError::UnknownVariableId(_) || e matches
                DtasmError::VariableCausalityInvalidForSet(_, _) || e matches
                DtasmError::VariableTypeMismatch(_, _),
            None => true,
        },
{
    lemma_check_set_variants(reg, v.reals, VariableType::DtasmReal);
    lemma_check_set_variants(reg, v.ints, VariableType::DtasmInt);
    lemma_check_set_variants(reg, v.bools, VariableType::DtasmBool);
    lemma_check_set_variants(reg, v.strings, VariableType::DtasmString);
}

} // verus!

verus! {

/// Type guard: a value bundle whose real mapping leads with a known input
/// of integer type is rejected with exactly that mismatch, carrying the
/// registry's declared type.
pub proof fn lemma_set_check_type_guard(
    reg: RegistryView,
    v: VarValuesView,
    id: i32,
    rec: DtasmVarTypeView,
)
    requires
        v.reals.len() > 0,
        v.reals[0].0 == id,
        get_of(reg, id) == Some(rec),
        rec.causality == CausalityType::Input,
        rec.value_type == VariableType::DtasmInt,
    ensures
        set_check(reg, v) == Some(DtasmError::VariableTypeMismatch(VariableType::DtasmInt, id)),
{
}

/// Causality guard: a value bundle whose real mapping leads with an id
/// declared `Output` is rejected with exactly that violation.
pub proof fn lemma_set_check_causality_guard(
    reg: RegistryView,
    v: VarValuesView,
    id: i32,
    rec: DtasmVarTypeView,
)
    requires
        v.reals.len() > 0,
        v.reals[0].0 == id,
        get_of(reg, id) == Some(rec),
        rec.causality == CausalityType::Output,
    ensures
        set_check(reg, v) == Some(
            DtasmError::VariableCausalityInvalidForSet(CausalityType::Output, id),
        ),
{
}

} // verus!
