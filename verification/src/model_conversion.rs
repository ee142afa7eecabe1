//! Derivation of the variable registry from a model description.
//!
//! The registry maps each declared variable id to its name, value type,
//! causality and default; every type and causality check of the dispatcher
//! consults it. It is built by one pass over the declared variables; where
//! one id is declared twice, the later declaration wins.

use vstd::prelude::*;
use crate::idmap::{
    fold_insert, fold_insert_from, get_of, lemma_fold_insert_distinct,
    lemma_fold_insert_from_empty, lemma_get_of_index, IdMap,
};
use crate::model_description::{ModelDescription, ModelVariableView};
use crate::types::{DtasmVarType, DtasmVarTypeView};

verus! {

/// The registry record derived from one declared variable.
pub open spec fn var_type_of(v: ModelVariableView) -> DtasmVarTypeView {
    DtasmVarTypeView {
        name: v.name,
        value_type: v.value_type,
        causality: v.causality,
        default: v.default,
    }
}

/// The registry entries derived from a variable list, in declaration order.
pub open spec fn reg_entries(vars: Seq<ModelVariableView>) -> Seq<(i32, DtasmVarTypeView)> {
    vars.map_values(|v: ModelVariableView| (v.id, var_type_of(v)))
}

/// The registry derived from a variable list: its entries, later
/// declarations replacing earlier ones.
pub open spec fn registry_of(vars: Seq<ModelVariableView>) -> Seq<(i32, DtasmVarTypeView)> {
    fold_insert(reg_entries(vars))
}

/// No two declared variables share an id.
pub open spec fn distinct_var_ids(vars: Seq<ModelVariableView>) -> bool {
    forall|i: int, j: int| 0 <= i < j < vars.len() ==> vars[i].id != vars[j].id
}

/// Registry consistency: in the registry derived from a model description
/// without duplicate ids, every declared variable is recorded under its own
/// id with exactly its declared name, value type, causality and default.
pub proof fn lemma_registry_consistency(vars: Seq<ModelVariableView>)
    requires
        distinct_var_ids(vars),
    ensures
        forall|i: int|
            0 <= i < vars.len() ==> get_of(registry_of(vars), #[trigger] vars[i].id) == Some(
                var_type_of(vars[i]),
            ),
{
    let es = reg_entries(vars);
    assert(forall|k: int| 0 <= k < es.len() ==> (#[trigger] es[k]) == (vars[k].id, var_type_of(
        vars[k],
    )));
    lemma_fold_insert_distinct(es);
    assert forall|i: int| 0 <= i < vars.len() implies get_of(
        registry_of(vars),
        #[trigger] vars[i].id,
    ) == Some(var_type_of(vars[i])) by {
        lemma_get_of_index(es, i);
    }
}

/// Record the registry entries of every declared variable, later
/// declarations replacing earlier ones and existing records.
#[verifier::loop_isolation(false)]
pub fn add_var_types(md: &ModelDescription, var_types: &mut IdMap<DtasmVarType>)
    requires
        old(var_types).wf(),
    ensures
        final(var_types).wf(),
        final(var_types)@ == fold_insert_from(old(var_types)@, reg_entries(md@.variables)),
{
    let ghost es = reg_entries(md@.variables);
    let n = md.variables.len();
    let mut i: usize = 0;
    while i < n
        invariant
            0 <= i <= n,
            var_types.wf(),
            var_types@ == fold_insert_from(old(var_types)@, es.take(i as int)),
        decreases n - i,
    {
        let mv = &md.variables[i];
        let rec = DtasmVarType {
            name: mv.name.clone(),
            value_type: mv.value_type,
            causality: mv.causality,
            default: match &mv.default {
                Some(d) => Some(d.clone()),
                None => None,
            },
        };
        proof {
            assert(rec@ == var_type_of(md@.variables[i as int]));
            assert(es.take(i as int + 1).drop_last() =~= es.take(i as int));
            assert(es.take(i as int + 1).last() == es[i as int]);
        }
        var_types.insert(mv.id, rec);
        i = i + 1;
    }
    proof {
        assert(es.take(n as int) =~= es);
    }
}

/// Build the registry of a model description from scratch.
pub fn collect_var_types(md: &ModelDescription) -> (r: IdMap<DtasmVarType>)
    ensures
        r.wf(),
        r@ == registry_of(md@.variables),
{
    let mut var_types: IdMap<DtasmVarType> = IdMap::new();
    proof {
        lemma_fold_insert_from_empty(reg_entries(md@.variables));
    }
    add_var_types(md, &mut var_types);
    var_types
}

} // verus!
