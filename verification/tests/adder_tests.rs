//! End-to-end scenarios on the adder module, both through its typed
//! interface and through the byte-level protocol handlers.
//!
//! The floating-point kernel (the real sum and the time advance) is the
//! embedder's job, so these tests compute it and hand the bits back, as the
//! host loop would.

use dtasmtime::adder::{
    adder_model_description, handle_do_step, handle_get_model_description, handle_get_values,
    handle_init, handle_set_values, AddMod,
};
use dtasmtime::codec::{
    read_do_step_res, read_get_values_res, read_status_res, write_do_step_req,
    write_get_values_req, write_init_req, write_var_values, InitReq,
};
use dtasmtime::types::{DtasmVarValues, LogLevel, Status};

/// Equality of doubles within two units in the last place.
fn ulps_eq(a: f64, b: f64) -> bool {
    let (ba, bb) = (a.to_bits() as i64, b.to_bits() as i64);
    (ba - bb).abs() <= 2
}

/// One full step of the adder: set the inputs, run the external kernel,
/// commit the step.
fn step(m: &mut AddMod, inputs: &DtasmVarValues, dt: f64) {
    assert!(matches!(m.set_values(inputs), Ok(Status::OK)));
    let (a, b) = m.real_inputs();
    let sum = f64::from_bits(a) + f64::from_bits(b);
    let t = f64::from_bits(m.current_time()) + dt;
    let resp = m.apply_step(sum.to_bits(), t.to_bits()).unwrap();
    assert!(matches!(resp.status, Status::OK));
    assert_eq!(resp.updated_time, t.to_bits());
}

fn initialized_adder() -> AddMod {
    let mut m = AddMod::new();
    let md = adder_model_description();
    assert!(matches!(m.initialize(&md, 0.0f64.to_bits()), Ok(Status::OK)));
    m
}

#[test]
fn it_adds_two_reals() {
    let mut m = initialized_adder();
    let mut inputs = DtasmVarValues::new();
    inputs.real_values.insert(1, (-7.34f64).to_bits());
    inputs.real_values.insert(2, 10.73f64.to_bits());
    step(&mut m, &inputs, 0.02);
    let got = m.get_values(&vec![3]).unwrap();
    assert!(matches!(got.status, Status::OK));
    assert!(ulps_eq(f64::from_bits(got.current_time), 0.02));
    let out = *got.values.real_values.get(3).unwrap();
    assert!(ulps_eq(f64::from_bits(out), 3.39));
}

#[test]
fn it_adds_two_ints() {
    let mut m = initialized_adder();
    let mut inputs = DtasmVarValues::new();
    inputs.int_values.insert(4, -23456);
    inputs.int_values.insert(5, 634533);
    step(&mut m, &inputs, 0.02);
    let got = m.get_values(&vec![6]).unwrap();
    assert_eq!(got.values.int_values.get(6), Some(&611077));
}

#[test]
fn it_ands_two_bools() {
    let mut m = initialized_adder();
    let mut inputs = DtasmVarValues::new();
    inputs.bool_values.insert(7, true);
    inputs.bool_values.insert(8, true);
    step(&mut m, &inputs, 0.02);
    assert_eq!(m.get_values(&vec![9]).unwrap().values.bool_values.get(9), Some(&true));

    let mut inputs2 = DtasmVarValues::new();
    inputs2.bool_values.insert(7, true);
    inputs2.bool_values.insert(8, false);
    step(&mut m, &inputs2, 0.02);
    assert_eq!(m.get_values(&vec![9]).unwrap().values.bool_values.get(9), Some(&false));
}

#[test]
fn it_concats_two_strings() {
    let mut m = initialized_adder();
    let mut inputs = DtasmVarValues::new();
    inputs.string_values.insert(10, String::from("hello"));
    inputs.string_values.insert(11, String::from(" world"));
    step(&mut m, &inputs, 0.02);
    let got = m.get_values(&vec![12]).unwrap();
    assert_eq!(got.values.string_values.get(12), Some(&String::from("hello world")));
}

#[test]
fn guest_rejects_unknown_ids() {
    let mut m = initialized_adder();
    let mut inputs = DtasmVarValues::new();
    inputs.real_values.insert(999, 0.0f64.to_bits());
    assert!(m.set_values(&inputs).is_err());
    assert!(m.get_values(&vec![999]).is_err());
    // requesting an input is not allowed either: inputs are write-only
    assert!(m.get_values(&vec![1]).is_err());
}

#[test]
fn scaffold_size_negotiation() {
    // an undersized buffer yields the needed length and no bytes; retrying
    // with that length succeeds with the same reported length
    let (needed, none) = handle_get_model_description(1);
    assert!(none.is_none());
    assert!(needed > 1);
    let (needed2, some) = handle_get_model_description(needed);
    assert_eq!(needed2, needed);
    let bytes = some.expect("fitting buffer must be filled");
    assert_eq!(bytes.len(), needed);
    let (md, _) = dtasmtime::mdcodec::read_model_description(&bytes, 0).unwrap();
    assert_eq!(md.variables.len(), 12);
}

#[test]
fn full_protocol_round_trip() {
    // drive the adder exactly as a host would: encoded requests in, encoded
    // responses out
    let mut m = AddMod::new();

    let init = InitReq {
        model_id: String::from("add"),
        starttime: 0.0f64.to_bits(),
        endtime: 0,
        endtime_set: false,
        tolerance: 0,
        tolerance_set: false,
        loglevel_limit: LogLevel::Warn,
        check_consistency: true,
        init_values: DtasmVarValues::new(),
    };
    let mut req = Vec::new();
    write_init_req(&mut req, &init);
    let (n, resp) = handle_init(&mut m, &req, 64);
    let resp = resp.unwrap();
    assert_eq!(resp.len(), n);
    assert!(matches!(read_status_res(&resp, 0).unwrap().0, Status::OK));

    let mut inputs = DtasmVarValues::new();
    inputs.int_values.insert(4, 40);
    inputs.int_values.insert(5, 2);
    let mut req2 = Vec::new();
    write_var_values(&mut req2, &inputs);
    let (_, resp2) = handle_set_values(&mut m, &req2, 64);
    assert!(matches!(read_status_res(&resp2.unwrap(), 0).unwrap().0, Status::OK));

    // the time-step call travels as bytes too; the test supplies the
    // floating-point kernel, as the embedder would
    let (i1, i2) = m.int_inputs();
    assert!((i1 as i64 + i2 as i64) <= i32::MAX as i64);
    let (a, b) = m.real_inputs();
    let sum = f64::from_bits(a) + f64::from_bits(b);
    let t = f64::from_bits(m.current_time()) + 0.02;
    let mut step_req = Vec::new();
    write_do_step_req(&mut step_req, m.current_time(), 0.02f64.to_bits());
    let (_, step_resp) = handle_do_step(&mut m, &step_req, 64, sum.to_bits(), t.to_bits());
    let ((step_status, updated), _) = read_do_step_res(&step_resp.unwrap(), 0).unwrap();
    assert!(matches!(step_status, Status::OK));
    assert_eq!(updated, t.to_bits());

    let mut req3 = Vec::new();
    write_get_values_req(&mut req3, &vec![6]);
    let (n3, resp3) = handle_get_values(&m, &req3, 2048);
    let resp3 = resp3.unwrap();
    assert_eq!(resp3.len(), n3);
    let ((st, _, vals), _) = read_get_values_res(&resp3, 0).unwrap();
    assert!(matches!(st, Status::OK));
    assert_eq!(vals.int_values.get(6), Some(&42));
}

#[test]
fn scaffold_reports_error_status_on_garbage() {
    let mut m = initialized_adder();
    let (_, resp) = handle_set_values(&mut m, &[1, 2, 3], 64);
    assert!(matches!(read_status_res(&resp.unwrap(), 0).unwrap().0, Status::Error));
}
