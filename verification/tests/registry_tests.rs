//! The registry and the request checks, exercised on the adder's
//! self-description.

use dtasmtime::adder::adder_model_description;
use dtasmtime::errors::DtasmError;
use dtasmtime::mdcodec::{read_model_description, write_model_description};
use dtasmtime::model_conversion::collect_var_types;
use dtasmtime::model_description::{CausalityType, VariableType};
use dtasmtime::types::DtasmVarValues;
use dtasmtime::validate::{
    check_get_ids, check_init_values, check_response_values, check_set_values,
};

#[test]
fn registry_records_every_declared_variable() {
    let md = adder_model_description();
    let reg = collect_var_types(&md);
    assert_eq!(reg.len(), 12);
    for mv in md.variables.iter() {
        let rec = reg.get(mv.id).expect("declared id missing from registry");
        assert_eq!(rec.name, mv.name);
        assert_eq!(rec.value_type, mv.value_type);
        assert_eq!(rec.causality, mv.causality);
    }
}

#[test]
fn registry_survives_the_wire() {
    let md = adder_model_description();
    let mut buf = Vec::new();
    write_model_description(&mut buf, &md);
    let (md2, used) = read_model_description(&buf, 0).expect("self-description must decode");
    assert_eq!(used, buf.len());
    assert_eq!(md2.model.id, "add");
    assert_eq!(md2.variables.len(), 12);
    let reg = collect_var_types(&md2);
    assert_eq!(reg.get(1).unwrap().value_type, VariableType::DtasmReal);
    assert_eq!(reg.get(1).unwrap().causality, CausalityType::Input);
    assert_eq!(reg.get(12).unwrap().value_type, VariableType::DtasmString);
    assert_eq!(reg.get(12).unwrap().causality, CausalityType::Output);
}

#[test]
fn set_values_unknown_id() {
    let reg = collect_var_types(&adder_model_description());
    let mut vv = DtasmVarValues::new();
    vv.real_values.insert(999, 0.0f64.to_bits());
    match check_set_values(&reg, &vv) {
        Err(DtasmError::UnknownVariableId(id)) => assert_eq!(id, 999),
        other => panic!("expected UnknownVariableId, got {:?}", other),
    }
}

#[test]
fn set_values_type_guard() {
    // an int-typed id placed into the real map fails with the registry's type
    let reg = collect_var_types(&adder_model_description());
    let mut vv = DtasmVarValues::new();
    vv.real_values.insert(4, 0.0f64.to_bits());
    match check_set_values(&reg, &vv) {
        Err(DtasmError::VariableTypeMismatch(vt, id)) => {
            assert_eq!(vt, VariableType::DtasmInt);
            assert_eq!(id, 4);
        },
        other => panic!("expected VariableTypeMismatch, got {:?}", other),
    }
}

#[test]
fn get_values_causality_guard() {
    let reg = collect_var_types(&adder_model_description());
    match check_get_ids(&reg, &vec![1]) {
        Err(DtasmError::VariableCausalityMismatch(c, id)) => {
            assert_eq!(c, CausalityType::Input);
            assert_eq!(id, 1);
        },
        other => panic!("expected VariableCausalityMismatch, got {:?}", other),
    }
    assert!(check_get_ids(&reg, &vec![3, 6, 9, 12]).is_ok());
}

#[test]
fn set_values_causality_guard() {
    let reg = collect_var_types(&adder_model_description());
    let mut vv = DtasmVarValues::new();
    vv.real_values.insert(3, 0.0f64.to_bits());
    match check_set_values(&reg, &vv) {
        Err(DtasmError::VariableCausalityInvalidForSet(c, id)) => {
            assert_eq!(c, CausalityType::Output);
            assert_eq!(id, 3);
        },
        other => panic!("expected VariableCausalityInvalidForSet, got {:?}", other),
    }
}

#[test]
fn initialize_may_set_any_causality() {
    let reg = collect_var_types(&adder_model_description());
    let mut vv = DtasmVarValues::new();
    vv.real_values.insert(1, 1.0f64.to_bits());
    vv.real_values.insert(3, 2.0f64.to_bits());
    assert!(check_init_values(&reg, &vv).is_ok());
    let mut bad = DtasmVarValues::new();
    bad.int_values.insert(1, 5);
    match check_init_values(&reg, &bad) {
        Err(DtasmError::VariableTypeMismatch(vt, id)) => {
            assert_eq!(vt, VariableType::DtasmReal);
            assert_eq!(id, 1);
        },
        other => panic!("expected VariableTypeMismatch, got {:?}", other),
    }
}

#[test]
fn response_values_validated_against_registry() {
    let reg = collect_var_types(&adder_model_description());
    let mut ok = DtasmVarValues::new();
    ok.real_values.insert(3, 3.39f64.to_bits());
    assert!(check_response_values(&reg, &ok).is_ok());
    let mut bad = DtasmVarValues::new();
    bad.int_values.insert(3, 7);
    match check_response_values(&reg, &bad) {
        // the response check reports the slot's type
        Err(DtasmError::VariableTypeMismatch(vt, id)) => {
            assert_eq!(vt, VariableType::DtasmInt);
            assert_eq!(id, 3);
        },
        other => panic!("expected VariableTypeMismatch, got {:?}", other),
    }
}

#[test]
fn error_descriptions() {
    let e = DtasmError::UnknownVariableId(7);
    assert!(e.describe().contains("unknown variable id"));
    let e2 = DtasmError::MissingDtasmExport(String::from("memory"));
    assert!(e2.describe().contains("memory"));
    let e3 = DtasmError::InvalidCallingOrder;
    assert!(e3.describe().contains("invalid invocation order"));
}

#[test]
fn bundle_insert_replaces_binding() {
    let mut vv = DtasmVarValues::new();
    vv.int_values.insert(1, 10);
    vv.int_values.insert(2, 20);
    vv.int_values.insert(1, 30);
    assert_eq!(vv.int_values.len(), 2);
    assert_eq!(vv.int_values.get(1), Some(&30));
    assert_eq!(vv.int_values.get(2), Some(&20));
    assert!(!vv.int_values.contains(3));
}
