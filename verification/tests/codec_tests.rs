//! Byte-level round trips through the message codec.

use dtasmtime::codec::{
    read_bool, read_do_step_req, read_do_step_res, read_get_values_req, read_get_values_res,
    read_i32, read_init_req, read_status_res, read_str, read_u64, read_u8, read_var_values,
    write_bool, write_do_step_req, write_do_step_res, write_get_values_req, write_get_values_res,
    write_i32, write_init_req, write_status_res, write_str, write_u64, write_u8, InitReq,
};
use dtasmtime::types::{DtasmVarValues, LogLevel, Status};

fn sample_values() -> DtasmVarValues {
    let mut vv = DtasmVarValues::new();
    vv.real_values.insert(1, (-7.34f64).to_bits());
    vv.real_values.insert(2, 10.73f64.to_bits());
    vv.int_values.insert(4, -23456);
    vv.int_values.insert(5, 634533);
    vv.bool_values.insert(7, true);
    vv.bool_values.insert(8, false);
    vv.string_values.insert(10, String::from("hello"));
    vv.string_values.insert(11, String::from(" wörld"));
    vv
}

#[test]
fn u8_round_trip() {
    let mut buf = Vec::new();
    write_u8(&mut buf, 0);
    write_u8(&mut buf, 255);
    let (a, p) = read_u8(&buf, 0).unwrap();
    let (b, q) = read_u8(&buf, p).unwrap();
    assert_eq!((a, b, q), (0, 255, 2));
}

#[test]
fn u64_round_trip() {
    let mut buf = Vec::new();
    write_u64(&mut buf, 0x0123_4567_89ab_cdef);
    assert_eq!(buf, vec![0xef, 0xcd, 0xab, 0x89, 0x67, 0x45, 0x23, 0x01]);
    let (v, p) = read_u64(&buf, 0).unwrap();
    assert_eq!((v, p), (0x0123_4567_89ab_cdef, 8));
}

#[test]
fn u64_too_short() {
    let buf = vec![1u8, 2, 3];
    assert!(read_u64(&buf, 0).is_none());
}

#[test]
fn i32_round_trip_negative() {
    let mut buf = Vec::new();
    write_i32(&mut buf, -23456);
    let (v, p) = read_i32(&buf, 0).unwrap();
    assert_eq!((v, p), (-23456, 4));
}

#[test]
fn bool_round_trip_and_strictness() {
    let mut buf = Vec::new();
    write_bool(&mut buf, true);
    write_bool(&mut buf, false);
    assert_eq!(buf, vec![1, 0]);
    assert_eq!(read_bool(&buf, 0).unwrap().0, true);
    assert_eq!(read_bool(&buf, 1).unwrap().0, false);
    assert!(read_bool(&[7u8], 0).is_none());
}

#[test]
fn string_round_trip_unicode() {
    let mut buf = Vec::new();
    write_str(&mut buf, "grüße 🌍");
    let (s, p) = read_str(&buf, 0).unwrap();
    assert_eq!(s, "grüße 🌍");
    assert_eq!(p, buf.len());
}

#[test]
fn string_rejects_invalid_utf8() {
    let mut buf = Vec::new();
    write_u64(&mut buf, 2);
    buf.push(0xff);
    buf.push(0xfe);
    assert!(read_str(&buf, 0).is_none());
}

#[test]
fn var_values_round_trip() {
    let vv = sample_values();
    let mut buf = Vec::new();
    dtasmtime::codec::write_var_values(&mut buf, &vv);
    let (vv2, p) = read_var_values(&buf, 0).unwrap();
    assert_eq!(p, buf.len());
    assert_eq!(vv2.real_values.get(1), Some(&(-7.34f64).to_bits()));
    assert_eq!(vv2.real_values.get(2), Some(&10.73f64.to_bits()));
    assert_eq!(vv2.int_values.get(4), Some(&-23456));
    assert_eq!(vv2.int_values.get(5), Some(&634533));
    assert_eq!(vv2.bool_values.get(7), Some(&true));
    assert_eq!(vv2.bool_values.get(8), Some(&false));
    assert_eq!(vv2.string_values.get(10), Some(&String::from("hello")));
    assert_eq!(vv2.string_values.get(11), Some(&String::from(" wörld")));
    assert_eq!(vv2.real_values.get(3), None);
}

#[test]
fn init_req_round_trip() {
    let req = InitReq {
        model_id: String::from("add"),
        starttime: 0.0f64.to_bits(),
        endtime: 10.0f64.to_bits(),
        endtime_set: true,
        tolerance: 0,
        tolerance_set: false,
        loglevel_limit: LogLevel::Warn,
        check_consistency: true,
        init_values: sample_values(),
    };
    let mut buf = Vec::new();
    write_init_req(&mut buf, &req);
    let (req2, p) = read_init_req(&buf, 0).unwrap();
    assert_eq!(p, buf.len());
    assert_eq!(req2.model_id, "add");
    assert_eq!(req2.starttime, 0.0f64.to_bits());
    assert_eq!(req2.endtime, 10.0f64.to_bits());
    assert!(req2.endtime_set);
    assert!(!req2.tolerance_set);
    assert!(matches!(req2.loglevel_limit, LogLevel::Warn));
    assert!(req2.check_consistency);
    assert_eq!(req2.init_values.int_values.get(5), Some(&634533));
}

#[test]
fn get_values_req_round_trip() {
    let ids = vec![3, 6, 9, 12];
    let mut buf = Vec::new();
    write_get_values_req(&mut buf, &ids);
    let (ids2, p) = read_get_values_req(&buf, 0).unwrap();
    assert_eq!(p, buf.len());
    assert_eq!(ids2, ids);
}

#[test]
fn do_step_messages_round_trip() {
    let mut buf = Vec::new();
    write_do_step_req(&mut buf, 0.0f64.to_bits(), 0.02f64.to_bits());
    let ((ct, ts), p) = read_do_step_req(&buf, 0).unwrap();
    assert_eq!(p, 16);
    assert_eq!(f64::from_bits(ct), 0.0);
    assert_eq!(f64::from_bits(ts), 0.02);

    let mut buf2 = Vec::new();
    write_do_step_res(&mut buf2, Status::OK, 0.02f64.to_bits());
    let ((st, ut), q) = read_do_step_res(&buf2, 0).unwrap();
    assert_eq!(q, 9);
    assert!(matches!(st, Status::OK));
    assert_eq!(f64::from_bits(ut), 0.02);
}

#[test]
fn status_res_round_trip_and_lenient_tag() {
    for st in [Status::OK, Status::Warning, Status::Discard, Status::Error] {
        let mut buf = Vec::new();
        write_status_res(&mut buf, st);
        let (st2, _) = read_status_res(&buf, 0).unwrap();
        assert_eq!(format!("{:?}", st), format!("{:?}", st2));
    }
    // an unknown tag is read as Error, as the conversion fallback demands
    let (st, _) = read_status_res(&[9u8], 0).unwrap();
    assert!(matches!(st, Status::Error));
}

#[test]
fn get_values_res_round_trip() {
    let vv = sample_values();
    let mut buf = Vec::new();
    write_get_values_res(&mut buf, Status::Warning, 1.5f64.to_bits(), &vv);
    let ((st, t, vv2), p) = read_get_values_res(&buf, 0).unwrap();
    assert_eq!(p, buf.len());
    assert!(matches!(st, Status::Warning));
    assert_eq!(f64::from_bits(t), 1.5);
    assert_eq!(vv2.string_values.get(10), Some(&String::from("hello")));
}

#[test]
fn truncated_messages_are_rejected() {
    let vv = sample_values();
    let mut buf = Vec::new();
    dtasmtime::codec::write_var_values(&mut buf, &vv);
    for cut in [0, 1, 7, 8, buf.len() - 1] {
        assert!(read_var_values(&buf[..cut], 0).is_none(), "cut at {}", cut);
    }
}
