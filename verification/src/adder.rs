//! The sample adder module: the guest side of the protocol.
//!
//! The module declares twelve variables, a triple of input/input/output for
//! each value type. On every step it writes the sum of the two real inputs,
//! the sum of the two integer inputs, the conjunction of the two boolean
//! inputs and the concatenation of the two string inputs to the matching
//! outputs. Floating-point arithmetic is an external collaborator: the
//! embedder reads the real operands and the current time, computes the sum
//! and the advanced time, and hands both back as double bits to
//! [`AddMod::apply_step`]; everything else about a step is computed and
//! proved here.

use vstd::prelude::*;
use vstd::string::StringExecFns;
use crate::idmap::{get_of, has_key, insert_of, IdMap};
use crate::model_description::{ModelDescription, ModelVariableView};
use crate::types::{DoStepResponse, DtasmVarValues, GetValuesResponse, Status};
use crate::errors::DtasmError;

verus! {

/// The adder's variables.
#[derive(Debug, Clone, Copy, PartialEq, Eq, Structural)]
pub enum AddVar {
    RI1,
    RI2,
    RO,
    II1,
    II2,
    IO,
    BI1,
    BI2,
    BO,
    SI1,
    SI2,
    SO,
}

impl View for AddVar {
    type V = AddVar;

    open spec fn view(&self) -> AddVar {
        *self
    }
}

/// The adder's variable by its declared name, if any.
pub open spec fn add_var_of_name(name: Seq<char>) -> Option<AddVar> {
    if name == "real_in1"@ {
        Some(AddVar::RI1)
    } else if name == "real_in2"@ {
        Some(AddVar::RI2)
    } else if name == "real_out"@ {
        Some(AddVar::RO)
    } else if name == "int_in1"@ {
        Some(AddVar::II1)
    } else if name == "int_in2"@ {
        Some(AddVar::II2)
    } else if name == "int_out"@ {
        Some(AddVar::IO)
    } else if name == "bool_in1"@ {
        Some(AddVar::BI1)
    } else if name == "bool_in2"@ {
        Some(AddVar::BI2)
    } else if name == "bool_out"@ {
        Some(AddVar::BO)
    } else if name == "string_in1"@ {
        Some(AddVar::SI1)
    } else if name == "string_in2"@ {
        Some(AddVar::SI2)
    } else if name == "string_out"@ {
        Some(AddVar::SO)
    } else {
        None
    }
}

/// The id-to-variable bindings derived from a declared variable list:
/// variables with recognised names, in declaration order.
pub open spec fn add_var_entries(vars: Seq<ModelVariableView>) -> Seq<(i32, AddVar)>
    decreases vars.len(),
{
    if vars.len() == 0 {
        Seq::empty()
    } else {
        (match add_var_of_name(vars[0].name) {
            Some(v) => seq![(vars[0].id, v)],
            None => Seq::<(i32, AddVar)>::empty(),
        }) + add_var_entries(vars.skip(1))
    }
}

/// One more declared variable extends the bindings at the end.
proof fn lemma_add_var_entries_snoc(vars: Seq<ModelVariableView>, v: ModelVariableView)
    ensures
        add_var_entries(vars.push(v)) == add_var_entries(vars) + (match add_var_of_name(v.name) {
            Some(a) => seq![(v.id, a)],
            None => Seq::<(i32, AddVar)>::empty(),
        }),
    decreases vars.len(),
{
    let tail = match add_var_of_name(v.name) {
        Some(a) => seq![(v.id, a)],
        None => Seq::<(i32, AddVar)>::empty(),
    };
    if vars.len() == 0 {
        assert(vars.push(v)[0] == v);
        assert(vars.push(v).skip(1) =~= Seq::<ModelVariableView>::empty());
        assert(add_var_entries(vars.push(v)) == tail + add_var_entries(vars.push(v).skip(1)));
        assert(add_var_entries(vars.push(v).skip(1)) == Seq::<(i32, AddVar)>::empty());
        assert(add_var_entries(vars) == Seq::<(i32, AddVar)>::empty());
        assert(tail + Seq::<(i32, AddVar)>::empty() =~= Seq::<(i32, AddVar)>::empty() + tail);
    } else {
        lemma_add_var_entries_snoc(vars.skip(1), v);
        assert(vars.push(v)[0] == vars[0]);
        assert(vars.push(v).skip(1) =~= vars.skip(1).push(v));
        let h = match add_var_of_name(vars[0].name) {
            Some(a) => seq![(vars[0].id, a)],
            None => Seq::<(i32, AddVar)>::empty(),
        };
        assert(add_var_entries(vars.push(v)) == h + (add_var_entries(vars.skip(1)) + tail));
        assert(h + (add_var_entries(vars.skip(1)) + tail) =~= (h + add_var_entries(vars.skip(1)))
            + tail);
    }
}

/// The adder's mapping from declared ids to its own variables.
#[derive(Debug)]
pub struct AddVarMaps {
    pub map_id_var: IdMap<AddVar>,
}

impl AddVarMaps {
    /// An empty mapping.
    pub fn new() -> (r: AddVarMaps)
        ensures
            r.map_id_var@ =~= Seq::<(i32, AddVar)>::empty(),
            r.map_id_var.wf(),
    {
        AddVarMaps { map_id_var: IdMap::new() }
    }
}

/// The adder's variable for a declared name, if any.
fn classify_name(name: &String) -> (r: Option<AddVar>)
    ensures
        r == add_var_of_name(name@),
{
    if *name == String::from_str("real_in1") {
        Some(AddVar::RI1)
    } else if *name == String::from_str("real_in2") {
        Some(AddVar::RI2)
    } else if *name == String::from_str("real_out") {
        Some(AddVar::RO)
    } else if *name == String::from_str("int_in1") {
        Some(AddVar::II1)
    } else if *name == String::from_str("int_in2") {
        Some(AddVar::II2)
    } else if *name == String::from_str("int_out") {
        Some(AddVar::IO)
    } else if *name == String::from_str("bool_in1") {
        Some(AddVar::BI1)
    } else if *name == String::from_str("bool_in2") {
        Some(AddVar::BI2)
    } else if *name == String::from_str("bool_out") {
        Some(AddVar::BO)
    } else if *name == String::from_str("string_in1") {
        Some(AddVar::SI1)
    } else if *name == String::from_str("string_in2") {
        Some(AddVar::SI2)
    } else if *name == String::from_str("string_out") {
        Some(AddVar::SO)
    } else {
        None
    }
}

/// Record the binding of every recognised declared variable, later
/// declarations replacing earlier ones.
#[verifier::loop_isolation(false)]
pub fn create_var_maps(dt_md: &ModelDescription, var_maps: &mut AddVarMaps)
    requires
        old(var_maps).map_id_var.wf(),
    ensures
        final(var_maps).map_id_var.wf(),
        final(var_maps).map_id_var@ == crate::idmap::fold_insert_from(
            old(var_maps).map_id_var@,
            add_var_entries(dt_md@.variables),
        ),
{
    let ghost es = add_var_entries(dt_md@.variables);
    let n = dt_md.variables.len();
    let mut i: usize = 0;
    while i < n
        invariant
            0 <= i <= n,
            var_maps.map_id_var.wf(),
            var_maps.map_id_var@ == crate::idmap::fold_insert_from(
                old(var_maps).map_id_var@,
                add_var_entries(dt_md@.variables.take(i as int)),
            ),
        decreases n - i,
    {
        let mv = &dt_md.variables[i];
        proof {
            assert(dt_md@.variables.take(i as int).push(dt_md@.variables[i as int])
                =~= dt_md@.variables.take(i as int + 1));
            lemma_add_var_entries_snoc(
                dt_md@.variables.take(i as int),
                dt_md@.variables[i as int],
            );
        }
        match classify_name(&mv.name) {
            None => {
                proof {
                    assert(add_var_entries(dt_md@.variables.take(i as int + 1)) =~= add_var_entries(
                        dt_md@.variables.take(i as int),
                    ));
                }
            },
            Some(v) => {
                var_maps.map_id_var.insert(mv.id, v);
                proof {
                    let pre = add_var_entries(dt_md@.variables.take(i as int));
                    let now = add_var_entries(dt_md@.variables.take(i as int + 1));
                    assert(now =~= pre.push((dt_md@.variables[i as int].id, v)));
                    assert(now.drop_last() =~= pre);
                }
            },
        }
        i = i + 1;
    }
    proof {
        assert(dt_md@.variables.take(n as int) =~= dt_md@.variables);
    }
}

/// The adder's whole simulation state.
///
/// `t` and the three real slots hold IEEE-754 double bits.
#[derive(Debug)]
pub struct AddState {
    pub t: u64,
    pub var_maps: AddVarMaps,
    pub ri1: u64,
    pub ri2: u64,
    pub ro: u64,
    pub ii1: i32,
    pub ii2: i32,
    pub io: i32,
    pub bi1: bool,
    pub bi2: bool,
    pub bo: bool,
    pub si1: String,
    pub si2: String,
    pub so: String,
}

impl AddState {
    /// The initial state: time zero, no bindings, zero and empty values.
    pub fn new() -> (r: AddState)
        ensures
            r.t == 0 && r.ri1 == 0 && r.ri2 == 0 && r.ro == 0 && r.ii1 == 0 && r.ii2 == 0
                && r.io == 0 && !r.bi1 && !r.bi2 && !r.bo,
            r.si1@ == Seq::<char>::empty() && r.si2@ == Seq::<char>::empty() && r.so@ == Seq::<
                char,
            >::empty(),
            r.var_maps.map_id_var@ =~= Seq::<(i32, AddVar)>::empty(),
            r.var_maps.map_id_var.wf(),
    {
        AddState {
            t: 0,
            var_maps: AddVarMaps::new(),
            ri1: 0,
            ri2: 0,
            ro: 0,
            ii1: 0,
            ii2: 0,
            io: 0,
            bi1: false,
            bi2: false,
            bo: false,
            si1: String::new(),
            si2: String::new(),
            so: String::new(),
        }
    }
}

} // verus!

verus! {

/// Ghost form of the adder's state.
pub struct AddStateView {
    pub t: u64,
    pub m: Seq<(i32, AddVar)>,
    pub ri1: u64,
    pub ri2: u64,
    pub ro: u64,
    pub ii1: i32,
    pub ii2: i32,
    pub io: i32,
    pub bi1: bool,
    pub bi2: bool,
    pub bo: bool,
    pub si1: Seq<char>,
    pub si2: Seq<char>,
    pub so: Seq<char>,
}

impl View for AddState {
    type V = AddStateView;

    open spec fn view(&self) -> AddStateView {
        AddStateView {
            t: self.t,
            m: self.var_maps.map_id_var@,
            ri1: self.ri1,
            ri2: self.ri2,
            ro: self.ro,
            ii1: self.ii1,
            ii2: self.ii2,
            io: self.io,
            bi1: self.bi1,
            bi2: self.bi2,
            bo: self.bo,
            si1: self.si1@,
            si2: self.si2@,
            so: self.so@,
        }
    }
}

/// The variable's current value, read from the state into a bundle slot.
pub open spec fn add_output_ok(
    st: AddStateView,
    vals: crate::types::VarValuesView,
    id: i32,
    v: AddVar,
) -> bool {
    match v {
        AddVar::RO => get_of(vals.reals, id) == Some(st.ro),
        AddVar::IO => get_of(vals.ints, id) == Some(st.io),
        AddVar::BO => get_of(vals.bools, id) == Some(st.bo),
        AddVar::SO => get_of(vals.strings, id) == Some(st.so),
        _ => false,
    }
}

/// The first requested id that is unknown or not an output.
pub open spec fn add_get_check(m: Seq<(i32, AddVar)>, ids: Seq<i32>) -> Option<i32>
    decreases ids.len(),
{
    if ids.len() == 0 {
        None
    } else {
        match get_of(m, ids[0]) {
            Some(AddVar::RO) | Some(AddVar::IO) | Some(AddVar::BO) | Some(AddVar::SO) => {
                add_get_check(m, ids.skip(1))
            },
            _ => Some(ids[0]),
        }
    }
}

/// The state after one real-slot write.
pub open spec fn set_real_slot(st: AddStateView, v: AddVar, val: u64) -> AddStateView {
    match v {
        AddVar::RI1 => AddStateView { ri1: val, ..st },
        AddVar::RI2 => AddStateView { ri2: val, ..st },
        AddVar::RO => AddStateView { ro: val, ..st },
        _ => st,
    }
}

/// The state after one integer-slot write.
pub open spec fn set_int_slot(st: AddStateView, v: AddVar, val: i32) -> AddStateView {
    match v {
        AddVar::II1 => AddStateView { ii1: val, ..st },
        AddVar::II2 => AddStateView { ii2: val, ..st },
        AddVar::IO => AddStateView { io: val, ..st },
        _ => st,
    }
}

/// The state after one boolean-slot write.
pub open spec fn set_bool_slot(st: AddStateView, v: AddVar, val: bool) -> AddStateView {
    match v {
        AddVar::BI1 => AddStateView { bi1: val, ..st },
        AddVar::BI2 => AddStateView { bi2: val, ..st },
        AddVar::BO => AddStateView { bo: val, ..st },
        _ => st,
    }
}

/// The state after one string-slot write.
pub open spec fn set_string_slot(st: AddStateView, v: AddVar, val: Seq<char>) -> AddStateView {
    match v {
        AddVar::SI1 => AddStateView { si1: val, ..st },
        AddVar::SI2 => AddStateView { si2: val, ..st },
        AddVar::SO => AddStateView { so: val, ..st },
        _ => st,
    }
}

/// The state after writing a sequence of real bindings, in order.
pub open spec fn apply_reals(st: AddStateView, m: Seq<(i32, AddVar)>, ps: Seq<(i32, u64)>) -> AddStateView
    decreases ps.len(),
{
    if ps.len() == 0 {
        st
    } else {
        apply_reals(set_real_slot(st, get_of(m, ps[0].0).unwrap(), ps[0].1), m, ps.skip(1))
    }
}

/// The state after writing a sequence of integer bindings, in order.
pub open spec fn apply_ints(st: AddStateView, m: Seq<(i32, AddVar)>, ps: Seq<(i32, i32)>) -> AddStateView
    decreases ps.len(),
{
    if ps.len() == 0 {
        st
    } else {
        apply_ints(set_int_slot(st, get_of(m, ps[0].0).unwrap(), ps[0].1), m, ps.skip(1))
    }
}

/// The state after writing a sequence of boolean bindings, in order.
pub open spec fn apply_bools(st: AddStateView, m: Seq<(i32, AddVar)>, ps: Seq<(i32, bool)>) -> AddStateView
    decreases ps.len(),
{
    if ps.len() == 0 {
        st
    } else {
        apply_bools(set_bool_slot(st, get_of(m, ps[0].0).unwrap(), ps[0].1), m, ps.skip(1))
    }
}

/// The state after writing a sequence of string bindings, in order.
pub open spec fn apply_strings(
    st: AddStateView,
    m: Seq<(i32, AddVar)>,
    ps: Seq<(i32, Seq<char>)>,
) -> AddStateView
    decreases ps.len(),
{
    if ps.len() == 0 {
        st
    } else {
        apply_strings(set_string_slot(st, get_of(m, ps[0].0).unwrap(), ps[0].1), m, ps.skip(1))
    }
}

/// Whether every id of a pair sequence is bound in the adder's map.
pub open spec fn all_ids_known<T>(m: Seq<(i32, AddVar)>, ps: Seq<(i32, T)>) -> bool {
    forall|i: int| 0 <= i < ps.len() ==> has_key(m, (#[trigger] ps[i]).0)
}

/// Whether some mapping of a bundle binds the given id.
pub open spec fn bundle_has_id(v: crate::types::VarValuesView, id: i32) -> bool {
    ||| exists|i: int| 0 <= i < v.reals.len() && (#[trigger] v.reals[i]).0 == id
    ||| exists|i: int| 0 <= i < v.ints.len() && (#[trigger] v.ints[i]).0 == id
    ||| exists|i: int| 0 <= i < v.bools.len() && (#[trigger] v.bools[i]).0 == id
    ||| exists|i: int| 0 <= i < v.strings.len() && (#[trigger] v.strings[i]).0 == id
}

/// The exact response bundle for a requested id list: each id's bound
/// output value inserted into its typed map, in request order, and
/// nothing else.
pub open spec fn gather_outputs(st: AddStateView, ids: Seq<i32>) -> crate::types::VarValuesView
    decreases ids.len(),
{
    if ids.len() == 0 {
        crate::types::VarValuesView {
            reals: Seq::empty(),
            ints: Seq::empty(),
            bools: Seq::empty(),
            strings: Seq::empty(),
        }
    } else {
        let prev = gather_outputs(st, ids.drop_last());
        let id = ids.last();
        match get_of(st.m, id) {
            Some(AddVar::RO) => crate::types::VarValuesView {
                reals: insert_of(prev.reals, id, st.ro),
                ..prev
            },
            Some(AddVar::IO) => crate::types::VarValuesView {
                ints: insert_of(prev.ints, id, st.io),
                ..prev
            },
            Some(AddVar::BO) => crate::types::VarValuesView {
                bools: insert_of(prev.bools, id, st.bo),
                ..prev
            },
            Some(AddVar::SO) => crate::types::VarValuesView {
                strings: insert_of(prev.strings, id, st.so),
                ..prev
            },
            _ => prev,
        }
    }
}

/// The whole state after writing a bundle, mapping by mapping.
pub open spec fn apply_bundle(st: AddStateView, vals: crate::types::VarValuesView) -> AddStateView {
    apply_strings(
        apply_bools(
            apply_ints(apply_reals(st, st.m, vals.reals), st.m, vals.ints),
            st.m,
            vals.bools,
        ),
        st.m,
        vals.strings,
    )
}

/// Whether every id of a whole bundle is bound in the adder's map.
pub open spec fn bundle_ids_known(m: Seq<(i32, AddVar)>, vals: crate::types::VarValuesView) -> bool {
    &&& all_ids_known(m, vals.reals)
    &&& all_ids_known(m, vals.ints)
    &&& all_ids_known(m, vals.bools)
    &&& all_ids_known(m, vals.strings)
}

} // verus!

verus! {

/// Some id of the bundle that the map does not bind, if any.
fn find_unknown_id(m: &IdMap<AddVar>, vals: &DtasmVarValues) -> (r: Option<i32>)
    ensures
        match r {
            None => bundle_ids_known(m@, vals@),
            Some(id) => !has_key(m@, id) && !bundle_ids_known(m@, vals@) && bundle_has_id(
                vals@,
                id,
            ),
        },
{
    let reals = vals.real_values.entries();
    match scan_unknown_u64(m, reals) {
        Some(id) => {
            proof {
                assert(crate::idmap::pairs_view(reals@) == vals@.reals);
            }
            return Some(id);
        },
        None => {},
    }
    let ints = vals.int_values.entries();
    match scan_unknown_i32(m, ints) {
        Some(id) => {
            proof {
                assert(crate::idmap::pairs_view(ints@) == vals@.ints);
            }
            return Some(id);
        },
        None => {},
    }
    let bools = vals.bool_values.entries();
    match scan_unknown_bool(m, bools) {
        Some(id) => {
            proof {
                assert(crate::idmap::pairs_view(bools@) == vals@.bools);
            }
            return Some(id);
        },
        None => {},
    }
    let strings = vals.string_values.entries();
    match scan_unknown_string(m, strings) {
        Some(id) => {
            proof {
                assert(crate::idmap::pairs_view(strings@) == vals@.strings);
            }
            return Some(id);
        },
        None => {},
    }
    None
}

/// Some id of a real pair list that the map does not bind, if any.
#[verifier::loop_isolation(false)]
fn scan_unknown_u64(m: &IdMap<AddVar>, ps: &Vec<(i32, u64)>) -> (r: Option<i32>)
    ensures
        match r {
            None => all_ids_known(m@, crate::idmap::pairs_view(ps@)),
            Some(id) => !has_key(m@, id) && !all_ids_known(m@, crate::idmap::pairs_view(ps@))
                && (exists|i: int|
                0 <= i < crate::idmap::pairs_view(ps@).len() && (#[trigger] crate::idmap::pairs_view(
                    ps@,
                )[i]).0 == id),
        },
{
    let n = ps.len();
    let mut i: usize = 0;
    while i < n
        invariant
            0 <= i <= n,
            forall|j: int|
                0 <= j < i ==> has_key(m@, (#[trigger] crate::idmap::pairs_view(ps@)[j]).0),
        decreases n - i,
    {
        if !m.contains(ps[i].0) {
            proof {
                assert(crate::idmap::pairs_view(ps@)[i as int].0 == ps@[i as int].0);
            }
            return Some(ps[i].0);
        }
        i = i + 1;
    }
    None
}

/// Some id of an integer pair list that the map does not bind, if any.
#[verifier::loop_isolation(false)]
fn scan_unknown_i32(m: &IdMap<AddVar>, ps: &Vec<(i32, i32)>) -> (r: Option<i32>)
    ensures
        match r {
            None => all_ids_known(m@, crate::idmap::pairs_view(ps@)),
            Some(id) => !has_key(m@, id) && !all_ids_known(m@, crate::idmap::pairs_view(ps@))
                && (exists|i: int|
                0 <= i < crate::idmap::pairs_view(ps@).len() && (#[trigger] crate::idmap::pairs_view(
                    ps@,
                )[i]).0 == id),
        },
{
    let n = ps.len();
    let mut i: usize = 0;
    while i < n
        invariant
            0 <= i <= n,
            forall|j: int|
                0 <= j < i ==> has_key(m@, (#[trigger] crate::idmap::pairs_view(ps@)[j]).0),
        decreases n - i,
    {
        if !m.contains(ps[i].0) {
            proof {
                assert(crate::idmap::pairs_view(ps@)[i as int].0 == ps@[i as int].0);
            }
            return Some(ps[i].0);
        }
        i = i + 1;
    }
    None
}

/// Some id of a boolean pair list that the map does not bind, if any.
#[verifier::loop_isolation(false)]
fn scan_unknown_bool(m: &IdMap<AddVar>, ps: &Vec<(i32, bool)>) -> (r: Option<i32>)
    ensures
        match r {
            None => all_ids_known(m@, crate::idmap::pairs_view(ps@)),
            Some(id) => !has_key(m@, id) && !all_ids_known(m@, crate::idmap::pairs_view(ps@))
                && (exists|i: int|
                0 <= i < crate::idmap::pairs_view(ps@).len() && (#[trigger] crate::idmap::pairs_view(
                    ps@,
                )[i]).0 == id),
        },
{
    let n = ps.len();
    let mut i: usize = 0;
    while i < n
        invariant
            0 <= i <= n,
            forall|j: int|
                0 <= j < i ==> has_key(m@, (#[trigger] crate::idmap::pairs_view(ps@)[j]).0),
        decreases n - i,
    {
        if !m.contains(ps[i].0) {
            proof {
                assert(crate::idmap::pairs_view(ps@)[i as int].0 == ps@[i as int].0);
            }
            return Some(ps[i].0);
        }
        i = i + 1;
    }
    None
}

/// Some id of a string pair list that the map does not bind, if any.
#[verifier::loop_isolation(false)]
fn scan_unknown_string(m: &IdMap<AddVar>, ps: &Vec<(i32, String)>) -> (r: Option<i32>)
    ensures
        match r {
            None => all_ids_known(m@, crate::idmap::pairs_view(ps@)),
            Some(id) => !has_key(m@, id) && !all_ids_known(m@, crate::idmap::pairs_view(ps@))
                && (exists|i: int|
                0 <= i < crate::idmap::pairs_view(ps@).len() && (#[trigger] crate::idmap::pairs_view(
                    ps@,
                )[i]).0 == id),
        },
{
    let n = ps.len();
    let mut i: usize = 0;
    while i < n
        invariant
            0 <= i <= n,
            forall|j: int|
                0 <= j < i ==> has_key(m@, (#[trigger] crate::idmap::pairs_view(ps@)[j]).0),
        decreases n - i,
    {
        if !m.contains(ps[i].0) {
            proof {
                assert(crate::idmap::pairs_view(ps@)[i as int].0 == ps@[i as int].0);
            }
            return Some(ps[i].0);
        }
        i = i + 1;
    }
    None
}

/// Write a list of real bindings into the state, in order.
#[verifier::loop_isolation(false)]
fn apply_real_pairs(st: &mut AddState, ps: &Vec<(i32, u64)>)
    requires
        all_ids_known(old(st)@.m, crate::idmap::pairs_view(ps@)),
    ensures
        final(st)@ == apply_reals(old(st)@, old(st)@.m, crate::idmap::pairs_view(ps@)),
        final(st)@.m == old(st)@.m,
{
    let ghost m = st@.m;
    let ghost all = crate::idmap::pairs_view(ps@);
    proof {
        assert(all.skip(0) =~= all);
    }
    let n = ps.len();
    let mut i: usize = 0;
    while i < n
        invariant
            0 <= i <= n,
            st@.m == m,
            apply_reals(old(st)@, m, all) == apply_reals(st@, m, all.skip(i as int)),
        decreases n - i,
    {
        let (id, val) = ps[i];
        proof {
            assert(all.skip(i as int)[0] == (id, val));
            assert(all.skip(i as int).skip(1) =~= all.skip(i as int + 1));
        }
        let v = match st.var_maps.map_id_var.get(id) {
            Some(v) => *v,
            None => {
                proof {
                    assert(has_key(m, all[i as int].0));
                    assert(false);
                }
                AddVar::RI1
            },
        };
        let ghost prev = st@;
        match v {
            AddVar::RI1 => {
                st.ri1 = val;
            },
            AddVar::RI2 => {
                st.ri2 = val;
            },
            AddVar::RO => {
                st.ro = val;
            },
            _ => {},
        }
        proof {
            assert(st@ == set_real_slot(prev, v, val));
        }
        i = i + 1;
    }
    proof {
        assert(all.skip(n as int).len() == 0);
    }
}

} // verus!

verus! {

/// Write a list of integer bindings into the state, in order.
#[verifier::loop_isolation(false)]
fn apply_int_pairs(st: &mut AddState, ps: &Vec<(i32, i32)>)
    requires
        all_ids_known(old(st)@.m, crate::idmap::pairs_view(ps@)),
    ensures
        final(st)@ == apply_ints(old(st)@, old(st)@.m, crate::idmap::pairs_view(ps@)),
        final(st)@.m == old(st)@.m,
{
    let ghost m = st@.m;
    let ghost all = crate::idmap::pairs_view(ps@);
    proof {
        assert(all.skip(0) =~= all);
    }
    let n = ps.len();
    let mut i: usize = 0;
    while i < n
        invariant
            0 <= i <= n,
            st@.m == m,
            apply_ints(old(st)@, m, all) == apply_ints(st@, m, all.skip(i as int)),
        decreases n - i,
    {
        let (id, val) = ps[i];
        proof {
            assert(all.skip(i as int)[0] == (id, val));
            assert(all.skip(i as int).skip(1) =~= all.skip(i as int + 1));
        }
        let v = match st.var_maps.map_id_var.get(id) {
            Some(v) => *v,
            None => {
                proof {
                    assert(has_key(m, all[i as int].0));
                    assert(false);
                }
                AddVar::II1
            },
        };
        let ghost prev = st@;
        match v {
            AddVar::II1 => {
                st.ii1 = val;
            },
            AddVar::II2 => {
                st.ii2 = val;
            },
            AddVar::IO => {
                st.io = val;
            },
            _ => {},
        }
        proof {
            assert(st@ == set_int_slot(prev, v, val));
        }
        i = i + 1;
    }
    proof {
        assert(all.skip(n as int).len() == 0);
    }
}

/// Write a list of boolean bindings into the state, in order.
#[verifier::loop_isolation(false)]
fn apply_bool_pairs(st: &mut AddState, ps: &Vec<(i32, bool)>)
    requires
        all_ids_known(old(st)@.m, crate::idmap::pairs_view(ps@)),
    ensures
        final(st)@ == apply_bools(old(st)@, old(st)@.m, crate::idmap::pairs_view(ps@)),
        final(st)@.m == old(st)@.m,
{
    let ghost m = st@.m;
    let ghost all = crate::idmap::pairs_view(ps@);
    proof {
        assert(all.skip(0) =~= all);
    }
    let n = ps.len();
    let mut i: usize = 0;
    while i < n
        invariant
            0 <= i <= n,
            st@.m == m,
            apply_bools(old(st)@, m, all) == apply_bools(st@, m, all.skip(i as int)),
        decreases n - i,
    {
        let (id, val) = ps[i];
        proof {
            assert(all.skip(i as int)[0] == (id, val));
            assert(all.skip(i as int).skip(1) =~= all.skip(i as int + 1));
        }
        let v = match st.var_maps.map_id_var.get(id) {
            Some(v) => *v,
            None => {
                proof {
                    assert(has_key(m, all[i as int].0));
                    assert(false);
                }
                AddVar::BI1
            },
        };
        let ghost prev = st@;
        match v {
            AddVar::BI1 => {
                st.bi1 = val;
            },
            AddVar::BI2 => {
                st.bi2 = val;
            },
            AddVar::BO => {
                st.bo = val;
            },
            _ => {},
        }
        proof {
            assert(st@ == set_bool_slot(prev, v, val));
        }
        i = i + 1;
    }
    proof {
        assert(all.skip(n as int).len() == 0);
    }
}

/// Write a list of string bindings into the state, in order.
#[verifier::loop_isolation(false)]
fn apply_string_pairs(st: &mut AddState, ps: &Vec<(i32, String)>)
    requires
        all_ids_known(old(st)@.m, crate::idmap::pairs_view(ps@)),
    ensures
        final(st)@ == apply_strings(old(st)@, old(st)@.m, crate::idmap::pairs_view(ps@)),
        final(st)@.m == old(st)@.m,
{
    let ghost m = st@.m;
    let ghost all = crate::idmap::pairs_view(ps@);
    proof {
        assert(all.skip(0) =~= all);
    }
    let n = ps.len();
    let mut i: usize = 0;
    while i < n
        invariant
            0 <= i <= n,
            st@.m == m,
            apply_strings(old(st)@, m, all) == apply_strings(st@, m, all.skip(i as int)),
        decreases n - i,
    {
        let id = ps[i].0;
        let val = ps[i].1.clone();
        proof {
            assert(all.skip(i as int)[0] == (id, val@));
            assert(all.skip(i as int).skip(1) =~= all.skip(i as int + 1));
        }
        let v = match st.var_maps.map_id_var.get(id) {
            Some(v) => *v,
            None => {
                proof {
                    assert(has_key(m, all[i as int].0));
                    assert(false);
                }
                AddVar::SI1
            },
        };
        let ghost prev = st@;
        let ghost valv = val@;
        match v {
            AddVar::SI1 => {
                st.si1 = val;
            },
            AddVar::SI2 => {
                st.si2 = val;
            },
            AddVar::SO => {
                st.so = val;
            },
            _ => {},
        }
        proof {
            assert(st@ == set_string_slot(prev, v, valv));
        }
        i = i + 1;
    }
    proof {
        assert(all.skip(n as int).len() == 0);
    }
}

} // verus!

verus! {

/// The sample adder module, with instance-owned state.
#[derive(Debug)]
pub struct AddMod {
    pub state: Option<AddState>,
}

impl AddMod {
    /// A module that has not been initialized yet.
    pub fn new() -> (r: AddMod)
        ensures
            r.state is None,
    {
        AddMod { state: None }
    }

    /// Initialize the simulation state: time starts at `tmin` (double
    /// bits), all values take their defaults, and the id bindings are
    /// derived from the model description.
    pub fn initialize(&mut self, md: &ModelDescription, tmin: u64) -> (r: Result<
        Status,
        DtasmError,
    >)
        ensures
            r == Ok::<Status, DtasmError>(Status::OK),
            final(self).state matches Some(st) && st@ == (AddStateView {
                t: tmin,
                m: crate::idmap::fold_insert(add_var_entries(md@.variables)),
                ri1: 0,
                ri2: 0,
                ro: 0,
                ii1: 0,
                ii2: 0,
                io: 0,
                bi1: false,
                bi2: false,
                bo: false,
                si1: Seq::<char>::empty(),
                si2: Seq::<char>::empty(),
                so: Seq::<char>::empty(),
            }) && st.var_maps.map_id_var.wf(),
    {
        let mut st = AddState::new();
        st.t = tmin;
        proof {
            crate::idmap::lemma_fold_insert_from_empty(add_var_entries(md@.variables));
        }
        create_var_maps(md, &mut st.var_maps);
        self.state = Some(st);
        Ok(Status::OK)
    }

    /// The two real operands of the next step, as double bits.
    pub fn real_inputs(&self) -> (r: (u64, u64))
        requires
            self.state is Some,
        ensures
            r.0 == self.state.unwrap()@.ri1 && r.1 == self.state.unwrap()@.ri2,
    {
        match &self.state {
            Some(st) => (st.ri1, st.ri2),
            None => (0, 0),
        }
    }

    /// The current simulated time, as double bits.
    pub fn current_time(&self) -> (r: u64)
        requires
            self.state is Some,
        ensures
            r == self.state.unwrap()@.t,
    {
        match &self.state {
            Some(st) => st.t,
            None => 0,
        }
    }

    /// Retrieve values of output variables: each requested id must be bound
    /// to an output, whose current value is then returned under that id;
    /// any other id is reported as unknown.
    #[verifier::loop_isolation(false)]
    pub fn get_values(&self, var_ids: &Vec<i32>) -> (r: Result<GetValuesResponse, DtasmError>)
        requires
            self.state is Some,
        ensures
            match add_get_check(self.state.unwrap()@.m, var_ids@) {
                Some(id) => r matches Err(e) && e == DtasmError::UnknownVariableId(id),
                None => r matches Ok(resp) && resp.status == Status::OK && resp.current_time
                    == self.state.unwrap()@.t && resp.values.wf() && resp.values@
                    == gather_outputs(self.state.unwrap()@, var_ids@) && (forall|i: int|
                    0 <= i < var_ids@.len() ==> add_output_ok(
                        self.state.unwrap()@,
                        resp.values@,
                        #[trigger] var_ids@[i],
                        get_of(self.state.unwrap()@.m, var_ids@[i]).unwrap(),
                    )),
            },
    {
        let st = match &self.state {
            Some(st) => st,
            None => {
                return Err(DtasmError::InvalidCallingOrder);
            },
        };
        let ghost m = st@.m;
        proof {
            assert(var_ids@.skip(0) =~= var_ids@);
        }
        let mut vals = DtasmVarValues::new();
        proof {
            assert(var_ids@.take(0) =~= Seq::<i32>::empty());
        }
        let n = var_ids.len();
        let mut i: usize = 0;
        while i < n
            invariant
                0 <= i <= n,
                vals.wf(),
                add_get_check(m, var_ids@) == add_get_check(m, var_ids@.skip(i as int)),
                vals@ == gather_outputs(st@, var_ids@.take(i as int)),
                forall|j: int|
                    0 <= j < i ==> add_output_ok(
                        st@,
                        vals@,
                        #[trigger] var_ids@[j],
                        get_of(m, var_ids@[j]).unwrap(),
                    ),
            decreases n - i,
        {
            let id = var_ids[i];
            proof {
                assert(var_ids@.skip(i as int)[0] == id);
                assert(var_ids@.skip(i as int).skip(1) =~= var_ids@.skip(i as int + 1));
                assert(var_ids@.take(i as int + 1).drop_last() =~= var_ids@.take(i as int));
                assert(var_ids@.take(i as int + 1).last() == var_ids@[i as int]);
            }
            let ghost prevv = vals@;
            match st.var_maps.map_id_var.get(id) {
                Some(v) => {
                    match v {
                        AddVar::RO => {
                            vals.real_values.insert(id, st.ro);
                        },
                        AddVar::IO => {
                            vals.int_values.insert(id, st.io);
                        },
                        AddVar::BO => {
                            vals.bool_values.insert(id, st.bo);
                        },
                        AddVar::SO => {
                            vals.string_values.insert(id, st.so.clone());
                        },
                        _ => {
                            return Err(DtasmError::UnknownVariableId(id));
                        },
                    }
                    proof {
                        assert(vals@ == gather_outputs(st@, var_ids@.take(i as int + 1)));
                    }
                },
                None => {
                    return Err(DtasmError::UnknownVariableId(id));
                },
            }
            i = i + 1;
        }
        proof {
            assert(var_ids@.skip(n as int).len() == 0);
            assert(var_ids@.take(n as int) =~= var_ids@);
        }
        Ok(GetValuesResponse { status: Status::OK, current_time: st.t, values: vals })
    }

    /// Write input values into the slots their ids are bound to, in bundle
    /// order (reals, then integers, booleans, strings). If any id is
    /// unbound, nothing is written and that id is reported as unknown.
    pub fn set_values(&mut self, input_vals: &DtasmVarValues) -> (r: Result<Status, DtasmError>)
        requires
            old(self).state is Some,
        ensures
            final(self).state is Some,
            ({
                let st0 = old(self).state.unwrap()@;
                if bundle_ids_known(st0.m, input_vals@) {
                    r == Ok::<Status, DtasmError>(Status::OK) && final(self).state.unwrap()@
                        == apply_bundle(st0, input_vals@)
                } else {
                    (r matches Err(e) && e matches DtasmError::UnknownVariableId(bad)
                        && !has_key(st0.m, bad) && bundle_has_id(input_vals@, bad)) && final(self).state.unwrap()@ == st0
                }
            }),
    {
        let st_ref = match &self.state {
            Some(st) => st,
            None => {
                return Err(DtasmError::InvalidCallingOrder);
            },
        };
        match find_unknown_id(&st_ref.var_maps.map_id_var, input_vals) {
            Some(id) => {
                return Err(DtasmError::UnknownVariableId(id));
            },
            None => {},
        }
        let mut st = match self.state.take() {
            Some(st) => st,
            None => {
                return Err(DtasmError::InvalidCallingOrder);
            },
        };
        apply_real_pairs(&mut st, input_vals.real_values.entries());
        apply_int_pairs(&mut st, input_vals.int_values.entries());
        apply_bool_pairs(&mut st, input_vals.bool_values.entries());
        apply_string_pairs(&mut st, input_vals.string_values.entries());
        self.state = Some(st);
        Ok(Status::OK)
    }

    /// Commit one time step: the embedder supplies the real sum and the
    /// advanced time (double bits); the integer sum, the boolean
    /// conjunction and the string concatenation are computed here. The
    /// integer sum must fit in a signed 32-bit word.
    pub fn apply_step(&mut self, real_out: u64, updated_time: u64) -> (r: Result<
        DoStepResponse,
        DtasmError,
    >)
        requires
            old(self).state is Some,
            i32::MIN <= old(self).state.unwrap()@.ii1 + old(self).state.unwrap()@.ii2 <= i32::MAX,
        ensures
            ({
                let st0 = old(self).state.unwrap()@;
                &&& r == Ok::<DoStepResponse, DtasmError>(
                    DoStepResponse { status: Status::OK, updated_time },
                )
                &&& (final(self).state matches Some(st) && st@ == (AddStateView {
                    t: updated_time,
                    ro: real_out,
                    io: (st0.ii1 + st0.ii2) as i32,
                    bo: st0.bi1 && st0.bi2,
                    so: st0.si1 + st0.si2,
                    ..st0
                }))
            }),
    {
        let mut st = match self.state.take() {
            Some(st) => st,
            None => {
                return Err(DtasmError::InvalidCallingOrder);
            },
        };
        st.ro = real_out;
        st.io = st.ii1 + st.ii2;
        st.bo = st.bi1 && st.bi2;
        let mut cat = st.si1.clone();
        cat.append(st.si2.as_str());
        st.so = cat;
        st.t = updated_time;
        self.state = Some(st);
        Ok(DoStepResponse { status: Status::OK, updated_time })
    }
}

} // verus!

verus! {

/// One declared variable of the adder, in ghost form.
pub open spec fn adder_var_view(
    id: i32,
    name: Seq<char>,
    vt: crate::model_description::VariableType,
    caus: crate::model_description::CausalityType,
) -> ModelVariableView {
    ModelVariableView {
        id,
        name,
        value_type: vt,
        description: Seq::<char>::empty(),
        unit: Seq::<char>::empty(),
        causality: caus,
        derivative_of_id: 0,
        default: None,
    }
}

/// The adder's self-description, in ghost form: twelve variables, an
/// input/input/output triple per value type, with ids one to twelve.
pub open spec fn adder_md_view() -> crate::model_description::ModelDescriptionView {
    crate::model_description::ModelDescriptionView {
        model: crate::model_description::ModelInfoView {
            name: "add"@,
            id: "add"@,
            description: "adds two values of each supported type"@,
            generation_tool: Seq::<char>::empty(),
            generation_date_time: Seq::<char>::empty(),
            name_delimiter: "."@,
            capabilities: crate::model_description::Capabilities {
                can_handle_variable_step_size: true,
                can_reset_step: false,
                can_interpolate_inputs: false,
            },
        },
        variables: seq![
            adder_var_view(1, "real_in1"@, crate::model_description::VariableType::DtasmReal, crate::model_description::CausalityType::Input),
            adder_var_view(2, "real_in2"@, crate::model_description::VariableType::DtasmReal, crate::model_description::CausalityType::Input),
            adder_var_view(3, "real_out"@, crate::model_description::VariableType::DtasmReal, crate::model_description::CausalityType::Output),
            adder_var_view(4, "int_in1"@, crate::model_description::VariableType::DtasmInt, crate::model_description::CausalityType::Input),
            adder_var_view(5, "int_in2"@, crate::model_description::VariableType::DtasmInt, crate::model_description::CausalityType::Input),
            adder_var_view(6, "int_out"@, crate::model_description::VariableType::DtasmInt, crate::model_description::CausalityType::Output),
            adder_var_view(7, "bool_in1"@, crate::model_description::VariableType::DtasmBool, crate::model_description::CausalityType::Input),
            adder_var_view(8, "bool_in2"@, crate::model_description::VariableType::DtasmBool, crate::model_description::CausalityType::Input),
            adder_var_view(9, "bool_out"@, crate::model_description::VariableType::DtasmBool, crate::model_description::CausalityType::Output),
            adder_var_view(10, "string_in1"@, crate::model_description::VariableType::DtasmString, crate::model_description::CausalityType::Input),
            adder_var_view(11, "string_in2"@, crate::model_description::VariableType::DtasmString, crate::model_description::CausalityType::Input),
            adder_var_view(12, "string_out"@, crate::model_description::VariableType::DtasmString, crate::model_description::CausalityType::Output),
        ],
        experiment: None,
    }
}

/// One declared variable of the adder.
fn adder_var(
    id: i32,
    name: &str,
    vt: crate::model_description::VariableType,
    caus: crate::model_description::CausalityType,
) -> (r: crate::model_description::ModelVariable)
    ensures
        r@ == adder_var_view(id, name@, vt, caus),
{
    crate::model_description::ModelVariable {
        id,
        name: name.to_owned(),
        value_type: vt,
        description: String::new(),
        unit: String::new(),
        causality: caus,
        derivative_of_id: 0,
        default: None,
    }
}

/// The adder's self-description.
pub fn adder_model_description() -> (r: ModelDescription)
    ensures
        r@ == adder_md_view(),
{
    let mut vars: Vec<crate::model_description::ModelVariable> = Vec::new();
    vars.push(adder_var(1, "real_in1", crate::model_description::VariableType::DtasmReal, crate::model_description::CausalityType::Input));
    vars.push(adder_var(2, "real_in2", crate::model_description::VariableType::DtasmReal, crate::model_description::CausalityType::Input));
    vars.push(adder_var(3, "real_out", crate::model_description::VariableType::DtasmReal, crate::model_description::CausalityType::Output));
    vars.push(adder_var(4, "int_in1", crate::model_description::VariableType::DtasmInt, crate::model_description::CausalityType::Input));
    vars.push(adder_var(5, "int_in2", crate::model_description::VariableType::DtasmInt, crate::model_description::CausalityType::Input));
    vars.push(adder_var(6, "int_out", crate::model_description::VariableType::DtasmInt, crate::model_description::CausalityType::Output));
    vars.push(adder_var(7, "bool_in1", crate::model_description::VariableType::DtasmBool, crate::model_description::CausalityType::Input));
    vars.push(adder_var(8, "bool_in2", crate::model_description::VariableType::DtasmBool, crate::model_description::CausalityType::Input));
    vars.push(adder_var(9, "bool_out", crate::model_description::VariableType::DtasmBool, crate::model_description::CausalityType::Output));
    vars.push(adder_var(10, "string_in1", crate::model_description::VariableType::DtasmString, crate::model_description::CausalityType::Input));
    vars.push(adder_var(11, "string_in2", crate::model_description::VariableType::DtasmString, crate::model_description::CausalityType::Input));
    vars.push(adder_var(12, "string_out", crate::model_description::VariableType::DtasmString, crate::model_description::CausalityType::Output));
    let r = ModelDescription {
        model: crate::model_description::ModelInfo {
            name: "add".to_owned(),
            id: "add".to_owned(),
            description: "adds two values of each supported type".to_owned(),
            generation_tool: String::new(),
            generation_date_time: String::new(),
            name_delimiter: ".".to_owned(),
            capabilities: crate::model_description::Capabilities {
                can_handle_variable_step_size: true,
                can_reset_step: false,
                can_interpolate_inputs: false,
            },
        },
        variables: vars,
        experiment: None,
    };
    proof {
        assert(r@.variables =~= adder_md_view().variables);
        assert(r@.model.name == adder_md_view().model.name);
        assert(r@.model.id == adder_md_view().model.id);
        assert(r@.model.description == adder_md_view().model.description);
        assert(r@.model.generation_tool == adder_md_view().model.generation_tool);
        assert(r@.model.generation_date_time == adder_md_view().model.generation_date_time);
        assert(r@.model.name_delimiter == adder_md_view().model.name_delimiter);
        assert(r@.model == adder_md_view().model);
        assert(r@.experiment == adder_md_view().experiment);
        assert(r@ == adder_md_view());
    }
    r
}

} // verus!

use crate::codec::{
    dec_get_values_req, dec_init_req, dec_set_values_req, enc_get_values_res, enc_status_res,
    folded, lemma_rt_get_values_res, read_get_values_req, read_init_req, read_var_values,
    write_get_values_res, write_status_res,
};
use crate::mdcodec::{enc_model_description, write_model_description};
use crate::types::VarValuesView;

verus! {

/// What the scaffold hands back for one call: the full encoded length, and
/// the encoded bytes only where they fit the caller's buffer.
pub open spec fn delivered(r: (usize, Option<Vec<u8>>), bytes: Seq<u8>, out_max: int) -> bool {
    &&& r.0 == bytes.len()
    &&& (bytes.len() <= out_max ==> (r.1 matches Some(b) && b@ == bytes))
    &&& (bytes.len() > out_max ==> r.1 is None)
}

/// Hand an encoded response back: the bytes only if they fit, their length
/// regardless (a length above the buffer size asks the host to retry with
/// more space).
fn deliver(bytes: Vec<u8>, out_max_len: usize) -> (r: (usize, Option<Vec<u8>>))
    ensures
        delivered(r, bytes@, out_max_len as int),
{
    let n = bytes.len();
    if n <= out_max_len {
        (n, Some(bytes))
    } else {
        (n, None)
    }
}

/// An empty value bundle, in ghost form.
pub open spec fn empty_bundle() -> VarValuesView {
    VarValuesView {
        reals: Seq::empty(),
        ints: Seq::empty(),
        bools: Seq::empty(),
        strings: Seq::empty(),
    }
}

/// The adder's self-description call: encode the description and hand it
/// back if it fits.
pub fn handle_get_model_description(out_max_len: usize) -> (r: (usize, Option<Vec<u8>>))
    ensures
        delivered(r, enc_model_description(adder_md_view()), out_max_len as int),
{
    let md = adder_model_description();
    let mut buf: Vec<u8> = Vec::new();
    write_model_description(&mut buf, &md);
    assert(buf@ =~= enc_model_description(adder_md_view()));
    deliver(buf, out_max_len)
}

/// The adder's initialization call: decode the request, initialize the
/// state from the adder's own description and the request's start time,
/// and answer with a status (an undecodable request answers `Error` and
/// changes nothing).
pub fn handle_init(m: &mut AddMod, in_bytes: &[u8], out_max_len: usize) -> (r: (
    usize,
    Option<Vec<u8>>,
))
    ensures
        match dec_init_req(in_bytes@) {
            None => *final(m) == *old(m) && delivered(
                r,
                enc_status_res(Status::Error),
                out_max_len as int,
            ),
            Some((raw, _)) => (final(m).state matches Some(st) && st@.t == raw.starttime && st@.m
                == crate::idmap::fold_insert(add_var_entries(adder_md_view().variables)))
                && delivered(r, enc_status_res(Status::OK), out_max_len as int),
        },
{
    proof {
        assert(in_bytes@.skip(0) =~= in_bytes@);
    }
    let status = match read_init_req(in_bytes, 0) {
        None => Status::Error,
        Some((req, _)) => {
            let md = adder_model_description();
            match m.initialize(&md, req.starttime) {
                Ok(st) => st,
                Err(_) => Status::Error,
            }
        },
    };
    let mut buf: Vec<u8> = Vec::new();
    write_status_res(&mut buf, status);
    assert(buf@ =~= enc_status_res(status));
    deliver(buf, out_max_len)
}

/// The adder's set-values call: decode the request and write the decoded
/// bundle into the state; an undecodable request, or one naming an unbound
/// id, answers `Error` and changes nothing.
pub fn handle_set_values(m: &mut AddMod, in_bytes: &[u8], out_max_len: usize) -> (r: (
    usize,
    Option<Vec<u8>>,
))
    requires
        old(m).state is Some,
    ensures
        final(m).state is Some,
        match dec_set_values_req(in_bytes@) {
            None => final(m).state == old(m).state && delivered(
                r,
                enc_status_res(Status::Error),
                out_max_len as int,
            ),
            Some((raw, _)) => {
                let st0 = old(m).state.unwrap()@;
                if bundle_ids_known(st0.m, folded(raw)) {
                    final(m).state.unwrap()@ == apply_bundle(st0, folded(raw)) && delivered(
                        r,
                        enc_status_res(Status::OK),
                        out_max_len as int,
                    )
                } else {
                    final(m).state.unwrap()@ == st0 && delivered(
                        r,
                        enc_status_res(Status::Error),
                        out_max_len as int,
                    )
                }
            },
        },
{
    proof {
        assert(in_bytes@.skip(0) =~= in_bytes@);
    }
    let status = match read_var_values(in_bytes, 0) {
        None => Status::Error,
        Some((vals, _)) => {
            match m.set_values(&vals) {
                Ok(st) => st,
                Err(_) => Status::Error,
            }
        },
    };
    let mut buf: Vec<u8> = Vec::new();
    write_status_res(&mut buf, status);
    assert(buf@ =~= enc_status_res(status));
    deliver(buf, out_max_len)
}

/// The adder's get-values call: decode the requested ids and answer with
/// the bound outputs' current values at the current time; an undecodable
/// request, or one asking for anything but a bound output, answers a
/// response with status `Error` and no values.
pub fn handle_get_values(m: &AddMod, in_bytes: &[u8], out_max_len: usize) -> (r: (
    usize,
    Option<Vec<u8>>,
))
    requires
        m.state is Some,
    ensures
        ({
            let st = m.state.unwrap()@;
            match dec_get_values_req(in_bytes@) {
                None => delivered(
                    r,
                    enc_get_values_res(Status::Error, 0, empty_bundle()),
                    out_max_len as int,
                ),
                Some((ids, _)) => match add_get_check(st.m, ids) {
                    Some(_) => delivered(
                        r,
                        enc_get_values_res(Status::Error, 0, empty_bundle()),
                        out_max_len as int,
                    ),
                    None => (r.1 matches Some(b) ==> (match crate::codec::dec_get_values_res(b@) {
                        Some(((s2, t2, raw), _)) => s2 == Status::OK && t2 == st.t && raw
                            == gather_outputs(st, ids),
                        None => false,
                    })) && (r.1 is None ==> r.0 > out_max_len),
                },
            }
        }),
{
    proof {
        assert(in_bytes@.skip(0) =~= in_bytes@);
    }
    let empty = DtasmVarValues::new();
    match read_get_values_req(in_bytes, 0) {
        None => {
            let mut buf: Vec<u8> = Vec::new();
            write_get_values_res(&mut buf, Status::Error, 0, &empty);
            proof {
                assert(empty@ == empty_bundle());
                assert(buf@ =~= enc_get_values_res(Status::Error, 0, empty_bundle()));
            }
            deliver(buf, out_max_len)
        },
        Some((ids, _)) => {
            match m.get_values(&ids) {
                Err(_) => {
                    let mut buf: Vec<u8> = Vec::new();
                    write_get_values_res(&mut buf, Status::Error, 0, &empty);
                    proof {
                        assert(empty@ == empty_bundle());
                        assert(buf@ =~= enc_get_values_res(Status::Error, 0, empty_bundle()));
                    }
                    deliver(buf, out_max_len)
                },
                Ok(resp) => {
                    let mut buf: Vec<u8> = Vec::new();
                    write_get_values_res(&mut buf, resp.status, resp.current_time, &resp.values);
                    proof {
                        assert(buf@ =~= enc_get_values_res(
                            resp.status,
                            resp.current_time,
                            resp.values@,
                        ));
                        lemma_rt_get_values_res(
                            resp.status,
                            resp.current_time,
                            resp.values@,
                            Seq::<u8>::empty(),
                        );
                        assert(enc_get_values_res(resp.status, resp.current_time, resp.values@)
                            + Seq::<u8>::empty() =~= buf@);
                    }
                    deliver(buf, out_max_len)
                },
            }
        },
    }
}

} // verus!

verus! {

/// The bindings the adder's own self-description induces: each of the
/// twelve declared ids is bound to its variable, and the ids are distinct.
#[verifier::rlimit(100)]
#[verifier::spinoff_prover]
pub proof fn lemma_adder_bindings()
    ensures
        ({
            let m = crate::idmap::fold_insert(add_var_entries(adder_md_view().variables));
            &&& crate::idmap::distinct_keys(m)
            &&& get_of(m, 1) == Some(AddVar::RI1)
            &&& get_of(m, 2) == Some(AddVar::RI2)
            &&& get_of(m, 3) == Some(AddVar::RO)
            &&& get_of(m, 4) == Some(AddVar::II1)
            &&& get_of(m, 5) == Some(AddVar::II2)
            &&& get_of(m, 6) == Some(AddVar::IO)
            &&& get_of(m, 7) == Some(AddVar::BI1)
            &&& get_of(m, 8) == Some(AddVar::BI2)
            &&& get_of(m, 9) == Some(AddVar::BO)
            &&& get_of(m, 10) == Some(AddVar::SI1)
            &&& get_of(m, 11) == Some(AddVar::SI2)
            &&& get_of(m, 12) == Some(AddVar::SO)
        }),
{
    reveal_strlit("real_in1");
    reveal_strlit("real_in2");
    reveal_strlit("real_out");
    reveal_strlit("int_in1");
    reveal_strlit("int_in2");
    reveal_strlit("int_out");
    reveal_strlit("bool_in1");
    reveal_strlit("bool_in2");
    reveal_strlit("bool_out");
    reveal_strlit("string_in1");
    reveal_strlit("string_in2");
    reveal_strlit("string_out");
    assert(("real_in1"@)[7] != ("real_in2"@)[7]);
    assert(("real_in1"@)[5] != ("real_out"@)[5]);
    assert(("real_in2"@)[5] != ("real_out"@)[5]);
    assert(("int_in1"@)[6] != ("int_in2"@)[6]);
    assert(("int_in1"@)[4] != ("int_out"@)[4]);
    assert(("int_in2"@)[4] != ("int_out"@)[4]);
    assert(("real_in1"@)[0] != ("bool_in1"@)[0]);
    assert(("real_in2"@)[0] != ("bool_in1"@)[0]);
    assert(("real_out"@)[0] != ("bool_in1"@)[0]);
    assert(("real_in1"@)[0] != ("bool_in2"@)[0]);
    assert(("real_in2"@)[0] != ("bool_in2"@)[0]);
    assert(("real_out"@)[0] != ("bool_in2"@)[0]);
    assert(("bool_in1"@)[7] != ("bool_in2"@)[7]);
    assert(("real_in1"@)[0] != ("bool_out"@)[0]);
    assert(("real_in2"@)[0] != ("bool_out"@)[0]);
    assert(("real_out"@)[0] != ("bool_out"@)[0]);
    assert(("bool_in1"@)[5] != ("bool_out"@)[5]);
    assert(("bool_in2"@)[5] != ("bool_out"@)[5]);
    assert(("string_in1"@)[9] != ("string_in2"@)[9]);
    assert(("string_in1"@)[7] != ("string_out"@)[7]);
    assert(("string_in2"@)[7] != ("string_out"@)[7]);
    let vars = adder_md_view().variables;
    let es = seq![
        (1i32, AddVar::RI1),
        (2i32, AddVar::RI2),
        (3i32, AddVar::RO),
        (4i32, AddVar::II1),
        (5i32, AddVar::II2),
        (6i32, AddVar::IO),
        (7i32, AddVar::BI1),
        (8i32, AddVar::BI2),
        (9i32, AddVar::BO),
        (10i32, AddVar::SI1),
        (11i32, AddVar::SI2),
        (12i32, AddVar::SO),
    ];
    assert(vars.skip(12) =~= Seq::<ModelVariableView>::empty());
    assert(add_var_entries(vars.skip(12)) == Seq::<(i32, AddVar)>::empty());
    assert(es.skip(12) =~= Seq::<(i32, AddVar)>::empty());
    assert(vars.skip(11)[0] == vars[11]);
    assert(vars.skip(11).skip(1) =~= vars.skip(12));
    assert(add_var_of_name(vars[11].name) == Some(AddVar::SO));
    assert(add_var_entries(vars.skip(11)) =~= seq![(12i32, AddVar::SO)] + add_var_entries(vars.skip(12)));
    assert(add_var_entries(vars.skip(11)) =~= es.skip(11));
    assert(vars.skip(10)[0] == vars[10]);
    assert(vars.skip(10).skip(1) =~= vars.skip(11));
    assert(add_var_of_name(vars[10].name) == Some(AddVar::SI2));
    assert(add_var_entries(vars.skip(10)) =~= seq![(11i32, AddVar::SI2)] + add_var_entries(vars.skip(11)));
    assert(add_var_entries(vars.skip(10)) =~= es.skip(10));
    assert(vars.skip(9)[0] == vars[9]);
    assert(vars.skip(9).skip(1) =~= vars.skip(10));
    assert(add_var_of_name(vars[9].name) == Some(AddVar::SI1));
    assert(add_var_entries(vars.skip(9)) =~= seq![(10i32, AddVar::SI1)] + add_var_entries(vars.skip(10)));
    assert(add_var_entries(vars.skip(9)) =~= es.skip(9));
    assert(vars.skip(8)[0] == vars[8]);
    assert(vars.skip(8).skip(1) =~= vars.skip(9));
    assert(add_var_of_name(vars[8].name) == Some(AddVar::BO));
    assert(add_var_entries(vars.skip(8)) =~= seq![(9i32, AddVar::BO)] + add_var_entries(vars.skip(9)));
    assert(add_var_entries(vars.skip(8)) =~= es.skip(8));
    assert(vars.skip(7)[0] == vars[7]);
    assert(vars.skip(7).skip(1) =~= vars.skip(8));
    assert(add_var_of_name(vars[7].name) == Some(AddVar::BI2));
    assert(add_var_entries(vars.skip(7)) =~= seq![(8i32, AddVar::BI2)] + add_var_entries(vars.skip(8)));
    assert(add_var_entries(vars.skip(7)) =~= es.skip(7));
    assert(vars.skip(6)[0] == vars[6]);
    assert(vars.skip(6).skip(1) =~= vars.skip(7));
    assert(add_var_of_name(vars[6].name) == Some(AddVar::BI1));
    assert(add_var_entries(vars.skip(6)) =~= seq![(7i32, AddVar::BI1)] + add_var_entries(vars.skip(7)));
    assert(add_var_entries(vars.skip(6)) =~= es.skip(6));
    assert(vars.skip(5)[0] == vars[5]);
    assert(vars.skip(5).skip(1) =~= vars.skip(6));
    assert(add_var_of_name(vars[5].name) == Some(AddVar::IO));
    assert(add_var_entries(vars.skip(5)) =~= seq![(6i32, AddVar::IO)] + add_var_entries(vars.skip(6)));
    assert(add_var_entries(vars.skip(5)) =~= es.skip(5));
    assert(vars.skip(4)[0] == vars[4]);
    assert(vars.skip(4).skip(1) =~= vars.skip(5));
    assert(add_var_of_name(vars[4].name) == Some(AddVar::II2));
    assert(add_var_entries(vars.skip(4)) =~= seq![(5i32, AddVar::II2)] + add_var_entries(vars.skip(5)));
    assert(add_var_entries(vars.skip(4)) =~= es.skip(4));
    assert(vars.skip(3)[0] == vars[3]);
    assert(vars.skip(3).skip(1) =~= vars.skip(4));
    assert(add_var_of_name(vars[3].name) == Some(AddVar::II1));
    assert(add_var_entries(vars.skip(3)) =~= seq![(4i32, AddVar::II1)] + add_var_entries(vars.skip(4)));
    assert(add_var_entries(vars.skip(3)) =~= es.skip(3));
    assert(vars.skip(2)[0] == vars[2]);
    assert(vars.skip(2).skip(1) =~= vars.skip(3));
    assert(add_var_of_name(vars[2].name) == Some(AddVar::RO));
    assert(add_var_entries(vars.skip(2)) =~= seq![(3i32, AddVar::RO)] + add_var_entries(vars.skip(3)));
    assert(add_var_entries(vars.skip(2)) =~= es.skip(2));
    assert(vars.skip(1)[0] == vars[1]);
    assert(vars.skip(1).skip(1) =~= vars.skip(2));
    assert(add_var_of_name(vars[1].name) == Some(AddVar::RI2));
    assert(add_var_entries(vars.skip(1)) =~= seq![(2i32, AddVar::RI2)] + add_var_entries(vars.skip(2)));
    assert(add_var_entries(vars.skip(1)) =~= es.skip(1));
    assert(vars.skip(0)[0] == vars[0]);
    assert(vars.skip(0).skip(1) =~= vars.skip(1));
    assert(add_var_of_name(vars[0].name) == Some(AddVar::RI1));
    assert(add_var_entries(vars.skip(0)) =~= seq![(1i32, AddVar::RI1)] + add_var_entries(vars.skip(1)));
    assert(add_var_entries(vars.skip(0)) =~= es.skip(0));
    assert(vars.skip(0) =~= vars);
    assert(es.skip(0) =~= es);
    assert(add_var_entries(vars) =~= es);
    crate::idmap::lemma_fold_insert_distinct(es);
    let m = crate::idmap::fold_insert(add_var_entries(vars));
    assert forall|k: int| 0 <= k < es.len() implies get_of(m, es[k].0) == Some(es[k].1) by {
        crate::idmap::lemma_get_of_index(es, k);
    }
    assert(get_of(m, 1) == Some(AddVar::RI1)) by {
        assert(es[0] == (1i32, AddVar::RI1));
    }
    assert(get_of(m, 2) == Some(AddVar::RI2)) by {
        assert(es[1] == (2i32, AddVar::RI2));
    }
    assert(get_of(m, 3) == Some(AddVar::RO)) by {
        assert(es[2] == (3i32, AddVar::RO));
    }
    assert(get_of(m, 4) == Some(AddVar::II1)) by {
        assert(es[3] == (4i32, AddVar::II1));
    }
    assert(get_of(m, 5) == Some(AddVar::II2)) by {
        assert(es[4] == (5i32, AddVar::II2));
    }
    assert(get_of(m, 6) == Some(AddVar::IO)) by {
        assert(es[5] == (6i32, AddVar::IO));
    }
    assert(get_of(m, 7) == Some(AddVar::BI1)) by {
        assert(es[6] == (7i32, AddVar::BI1));
    }
    assert(get_of(m, 8) == Some(AddVar::BI2)) by {
        assert(es[7] == (8i32, AddVar::BI2));
    }
    assert(get_of(m, 9) == Some(AddVar::BO)) by {
        assert(es[8] == (9i32, AddVar::BO));
    }
    assert(get_of(m, 10) == Some(AddVar::SI1)) by {
        assert(es[9] == (10i32, AddVar::SI1));
    }
    assert(get_of(m, 11) == Some(AddVar::SI2)) by {
        assert(es[10] == (11i32, AddVar::SI2));
    }
    assert(get_of(m, 12) == Some(AddVar::SO)) by {
        assert(es[11] == (12i32, AddVar::SO));
    }
}

} // verus!

verus! {

impl AddMod {
    /// The two integer operands of the next step; the embedder tests that
    /// their sum fits a signed 32-bit word before committing a step.
    pub fn int_inputs(&self) -> (r: (i32, i32))
        requires
            self.state is Some,
        ensures
            r.0 == self.state.unwrap()@.ii1 && r.1 == self.state.unwrap()@.ii2,
    {
        match &self.state {
            Some(st) => (st.ii1, st.ii2),
            None => (0, 0),
        }
    }
}

/// The adder's time-step call: decode the request, commit the step with
/// the embedder's floating-point results (the real sum and the advanced
/// time, as double bits), and answer with the updated time; an undecodable
/// request answers `Error` at time zero and changes nothing.
pub fn handle_do_step(
    m: &mut AddMod,
    in_bytes: &[u8],
    out_max_len: usize,
    real_out: u64,
    updated_time: u64,
) -> (r: (usize, Option<Vec<u8>>))
    requires
        old(m).state is Some,
        i32::MIN <= old(m).state.unwrap()@.ii1 + old(m).state.unwrap()@.ii2 <= i32::MAX,
    ensures
        final(m).state is Some,
        match crate::codec::dec_do_step_req(in_bytes@) {
            None => final(m).state == old(m).state && delivered(
                r,
                crate::codec::enc_do_step_res(Status::Error, 0),
                out_max_len as int,
            ),
            Some(_) => ({
                let st0 = old(m).state.unwrap()@;
                (final(m).state.unwrap()@ == (AddStateView {
                    t: updated_time,
                    ro: real_out,
                    io: (st0.ii1 + st0.ii2) as i32,
                    bo: st0.bi1 && st0.bi2,
                    so: st0.si1 + st0.si2,
                    ..st0
                })) && delivered(
                    r,
                    crate::codec::enc_do_step_res(Status::OK, updated_time),
                    out_max_len as int,
                )
            }),
        },
{
    proof {
        assert(in_bytes@.skip(0) =~= in_bytes@);
    }
    let mut buf: Vec<u8> = Vec::new();
    match crate::codec::read_do_step_req(in_bytes, 0) {
        None => {
            crate::codec::write_do_step_res(&mut buf, Status::Error, 0);
            assert(buf@ =~= crate::codec::enc_do_step_res(Status::Error, 0));
            deliver(buf, out_max_len)
        },
        Some(_) => {
            let resp = match m.apply_step(real_out, updated_time) {
                Ok(resp) => resp,
                Err(_) => {
                    return (0, None);
                },
            };
            crate::codec::write_do_step_res(&mut buf, resp.status, resp.updated_time);
            assert(buf@ =~= crate::codec::enc_do_step_res(Status::OK, updated_time));
            deliver(buf, out_max_len)
        },
    }
}

} // verus!
