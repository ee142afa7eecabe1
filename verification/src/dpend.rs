//! Variable bookkeeping for the double-pendulum sample module.
//!
//! The pendulum's physics (the Runge-Kutta integrator over its angles and
//! velocities) is floating-point simulation work and lives with the
//! embedder; what belongs to the protocol is the mapping from declared
//! variable ids to the pendulum's own variables, derived from the model
//! description by name, which is built and specified here.

use vstd::prelude::*;
use vstd::string::StringExecFns;
use crate::idmap::IdMap;
use crate::model_description::{ModelDescription, ModelVariableView};

verus! {

/// The pendulum's variables: angles, velocities, accelerations, masses,
/// lengths and initial angles.
#[derive(Debug, Clone, Copy, PartialEq, Eq, Structural)]
pub enum DpVar {
    TH1,
    TH2,
    W1,
    W2,
    A1,
    A2,
    M1,
    M2,
    L1,
    L2,
    TH10,
    TH20,
}

impl View for DpVar {
    type V = DpVar;

    open spec fn view(&self) -> DpVar {
        *self
    }
}

/// The pendulum's variable by its declared name, if any.
pub open spec fn dp_var_of_name(name: Seq<char>) -> Option<DpVar> {
    if name == "theta1"@ {
        Some(DpVar::TH1)
    } else if name == "theta2"@ {
        Some(DpVar::TH2)
    } else if name == "theta1_0_Value"@ {
        Some(DpVar::TH10)
    } else if name == "theta2_0_Value"@ {
        Some(DpVar::TH20)
    } else if name == "joint1.velocity"@ {
        Some(DpVar::W1)
    } else if name == "joint2.velocity"@ {
        Some(DpVar::W2)
    } else if name == "joint1.acceleration"@ {
        Some(DpVar::A1)
    } else if name == "joint2.acceleration"@ {
        Some(DpVar::A2)
    } else if name == "m1_Value"@ {
        Some(DpVar::M1)
    } else if name == "m2_Value"@ {
        Some(DpVar::M2)
    } else if name == "l1_Value"@ {
        Some(DpVar::L1)
    } else if name == "l2_Value"@ {
        Some(DpVar::L2)
    } else {
        None
    }
}

/// The id-to-variable bindings derived from a declared variable list:
/// variables with recognised names, in declaration order.
pub open spec fn dp_var_entries(vars: Seq<ModelVariableView>) -> Seq<(i32, DpVar)>
    decreases vars.len(),
{
    if vars.len() == 0 {
        Seq::empty()
    } else {
        (match dp_var_of_name(vars[0].name) {
            Some(v) => seq![(vars[0].id, v)],
            None => Seq::<(i32, DpVar)>::empty(),
        }) + dp_var_entries(vars.skip(1))
    }
}

/// One more declared variable extends the bindings at the end.
proof fn lemma_dp_var_entries_snoc(vars: Seq<ModelVariableView>, v: ModelVariableView)
    ensures
        dp_var_entries(vars.push(v)) == dp_var_entries(vars) + (match dp_var_of_name(v.name) {
            Some(a) => seq![(v.id, a)],
            None => Seq::<(i32, DpVar)>::empty(),
        }),
    decreases vars.len(),
{
    let tail = match dp_var_of_name(v.name) {
        Some(a) => seq![(v.id, a)],
        None => Seq::<(i32, DpVar)>::empty(),
    };
    if vars.len() == 0 {
        assert(vars.push(v)[0] == v);
        assert(vars.push(v).skip(1) =~= Seq::<ModelVariableView>::empty());
        assert(dp_var_entries(vars.push(v)) == tail + dp_var_entries(vars.push(v).skip(1)));
        assert(dp_var_entries(vars.push(v).skip(1)) == Seq::<(i32, DpVar)>::empty());
        assert(dp_var_entries(vars) == Seq::<(i32, DpVar)>::empty());
        assert(tail + Seq::<(i32, DpVar)>::empty() =~= Seq::<(i32, DpVar)>::empty() + tail);
    } else {
        lemma_dp_var_entries_snoc(vars.skip(1), v);
        assert(vars.push(v)[0] == vars[0]);
        assert(vars.push(v).skip(1) =~= vars.skip(1).push(v));
        let h = match dp_var_of_name(vars[0].name) {
            Some(a) => seq![(vars[0].id, a)],
            None => Seq::<(i32, DpVar)>::empty(),
        };
        assert(dp_var_entries(vars.push(v)) == h + (dp_var_entries(vars.skip(1)) + tail));
        assert(h + (dp_var_entries(vars.skip(1)) + tail) =~= (h + dp_var_entries(vars.skip(1)))
            + tail);
    }
}

/// The pendulum's mapping from declared ids to its own variables.
#[derive(Debug)]
pub struct DpVarMaps {
    pub map_id_var: IdMap<DpVar>,
}

impl DpVarMaps {
    /// An empty mapping.
    pub fn new() -> (r: DpVarMaps)
        ensures
            r.map_id_var@ =~= Seq::<(i32, DpVar)>::empty(),
            r.map_id_var.wf(),
    {
        DpVarMaps { map_id_var: IdMap::new() }
    }
}

/// The pendulum's variable for a declared name, if any.
fn classify_dp_name(name: &String) -> (r: Option<DpVar>)
    ensures
        r == dp_var_of_name(name@),
{
    if *name == String::from_str("theta1") {
        Some(DpVar::TH1)
    } else if *name == String::from_str("theta2") {
        Some(DpVar::TH2)
    } else if *name == String::from_str("theta1_0_Value") {
        Some(DpVar::TH10)
    } else if *name == String::from_str("theta2_0_Value") {
        Some(DpVar::TH20)
    } else if *name == String::from_str("joint1.velocity") {
        Some(DpVar::W1)
    } else if *name == String::from_str("joint2.velocity") {
        Some(DpVar::W2)
    } else if *name == String::from_str("joint1.acceleration") {
        Some(DpVar::A1)
    } else if *name == String::from_str("joint2.acceleration") {
        Some(DpVar::A2)
    } else if *name == String::from_str("m1_Value") {
        Some(DpVar::M1)
    } else if *name == String::from_str("m2_Value") {
        Some(DpVar::M2)
    } else if *name == String::from_str("l1_Value") {
        Some(DpVar::L1)
    } else if *name == String::from_str("l2_Value") {
        Some(DpVar::L2)
    } else {
        None
    }
}

/// Record the binding of every recognised declared variable, later
/// declarations replacing earlier ones.
#[verifier::loop_isolation(false)]
pub fn create_var_maps(dt_md: &ModelDescription, var_maps: &mut DpVarMaps)
    requires
        old(var_maps).map_id_var.wf(),
    ensures
        final(var_maps).map_id_var.wf(),
        final(var_maps).map_id_var@ == crate::idmap::fold_insert_from(
            old(var_maps).map_id_var@,
            dp_var_entries(dt_md@.variables),
        ),
{
    let n = dt_md.variables.len();
    let mut i: usize = 0;
    while i < n
        invariant
            0 <= i <= n,
            var_maps.map_id_var.wf(),
            var_maps.map_id_var@ == crate::idmap::fold_insert_from(
                old(var_maps).map_id_var@,
                dp_var_entries(dt_md@.variables.take(i as int)),
            ),
        decreases n - i,
    {
        let mv = &dt_md.variables[i];
        proof {
            assert(dt_md@.variables.take(i as int).push(dt_md@.variables[i as int])
                =~= dt_md@.variables.take(i as int + 1));
            lemma_dp_var_entries_snoc(dt_md@.variables.take(i as int), dt_md@.variables[i as int]);
        }
        match classify_dp_name(&mv.name) {
            None => {
                proof {
                    assert(dp_var_entries(dt_md@.variables.take(i as int + 1)) =~= dp_var_entries(
                        dt_md@.variables.take(i as int),
                    ));
                }
            },
            Some(v) => {
                var_maps.map_id_var.insert(mv.id, v);
                proof {
                    let pre = dp_var_entries(dt_md@.variables.take(i as int));
                    let now = dp_var_entries(dt_md@.variables.take(i as int + 1));
                    assert(now =~= pre.push((dt_md@.variables[i as int].id, v)));
                    assert(now.drop_last() =~= pre);
                }
            },
        }
        i = i + 1;
    }
    proof {
        assert(dt_md@.variables.take(n as int) =~= dt_md@.variables);
    }
}

} // verus!
