//! Codec for the serialised model description.
//!
//! The bytes a module returns from its self-description export conform to
//! the same wire conventions as the call messages: little-endian scalars,
//! length-prefixed UTF-8 strings, a count-prefixed variable list, and a
//! presence byte before each optional block.

use vstd::prelude::*;
use vstd::bytes::{lemma_auto_spec_u32_to_from_le_bytes, lemma_auto_spec_u64_to_from_le_bytes};
use crate::codec::{
    dec_bool, dec_i32, dec_list, dec_str, dec_u64, dec_u8, enc_bool, enc_i32, enc_list, enc_str,
    enc_u64, lemma_concat_skip, lemma_rt_bool, lemma_rt_i32, lemma_rt_list, lemma_rt_str,
    lemma_rt_u64, lemma_rt_u8, lemma_skip_skip, read_bool, read_i32, read_list, read_str,
    read_u64, read_u8, seq_view, str_fits, wf_list, write_bool, write_i32, write_list, write_str,
    write_u64, write_u8, Wire,
};
use crate::model_description::{
    Capabilities, CausalityType, ExperimentInfo, ExperimentInfoView, ModelDescription,
    ModelDescriptionView, ModelInfo, ModelInfoView, ModelVariable, ModelVariableView,
    VariableType, VariableValue, VariableValueView,
};

verus! {

// ---------------------------------------------------------------------------
// Enumeration tags
// ---------------------------------------------------------------------------

/// Wire tag of a value type.
pub open spec fn variable_type_tag(t: VariableType) -> u8 {
    match t {
        VariableType::DtasmReal => 0u8,
        VariableType::DtasmInt => 1u8,
        VariableType::DtasmBool => 2u8,
        VariableType::DtasmString => 3u8,
    }
}

/// Value type denoted by a wire tag; an unknown tag is read as `DtasmString`.
pub open spec fn variable_type_of_tag(t: u8) -> VariableType {
    if t == 0 {
        VariableType::DtasmReal
    } else if t == 1 {
        VariableType::DtasmInt
    } else if t == 2 {
        VariableType::DtasmBool
    } else {
        VariableType::DtasmString
    }
}

/// Encoding of a value type: one tag byte.
pub open spec fn enc_variable_type(t: VariableType) -> Seq<u8> {
    seq![variable_type_tag(t)]
}

/// Decoder for a value type.
pub open spec fn dec_variable_type(b: Seq<u8>) -> Option<(VariableType, int)> {
    match dec_u8(b) {
        None => None,
        Some((t, c)) => Some((variable_type_of_tag(t), c)),
    }
}

/// Decoding an encoded value type yields it back.
pub proof fn lemma_rt_variable_type(t: VariableType, rest: Seq<u8>)
    ensures
        dec_variable_type(enc_variable_type(t) + rest) == Some((t, 1int)),
{
    lemma_rt_u8(variable_type_tag(t), rest);
}

/// Append a value-type tag.
pub fn write_variable_type(out: &mut Vec<u8>, t: VariableType)
    ensures
        final(out)@ == old(out)@ + enc_variable_type(t),
{
    let b: u8 = match t {
        VariableType::DtasmReal => 0,
        VariableType::DtasmInt => 1,
        VariableType::DtasmBool => 2,
        VariableType::DtasmString => 3,
    };
    write_u8(out, b);
}

/// Read a value type at `pos`.
pub fn read_variable_type(buf: &[u8], pos: usize) -> (r: Option<(VariableType, usize)>)
    requires
        pos <= buf@.len(),
    ensures
        match r {
            Some((v, q)) => pos <= q <= buf@.len() && dec_variable_type(buf@.skip(pos as int))
                == Some((v, (q - pos) as int)),
            None => dec_variable_type(buf@.skip(pos as int)) is None,
        },
{
    match read_u8(buf, pos) {
        None => None,
        Some((t, q)) => {
            let v = if t == 0 {
                VariableType::DtasmReal
            } else if t == 1 {
                VariableType::DtasmInt
            } else if t == 2 {
                VariableType::DtasmBool
            } else {
                VariableType::DtasmString
            };
            Some((v, q))
        },
    }
}

/// Wire tag of a causality.
pub open spec fn causality_tag(c: CausalityType) -> u8 {
    match c {
        CausalityType::Local => 0u8,
        CausalityType::Parameter => 1u8,
        CausalityType::Input => 2u8,
        CausalityType::Output => 3u8,
    }
}

/// Causality denoted by a wire tag; an unknown tag is read as `Parameter`.
pub open spec fn causality_of_tag(t: u8) -> CausalityType {
    if t == 0 {
        CausalityType::Local
    } else if t == 2 {
        CausalityType::Input
    } else if t == 3 {
        CausalityType::Output
    } else {
        CausalityType::Parameter
    }
}

/// Encoding of a causality: one tag byte.
pub open spec fn enc_causality(c: CausalityType) -> Seq<u8> {
    seq![causality_tag(c)]
}

/// Decoder for a causality.
pub open spec fn dec_causality(b: Seq<u8>) -> Option<(CausalityType, int)> {
    match dec_u8(b) {
        None => None,
        Some((t, c)) => Some((causality_of_tag(t), c)),
    }
}

/// Decoding an encoded causality yields it back.
pub proof fn lemma_rt_causality(c: CausalityType, rest: Seq<u8>)
    ensures
        dec_causality(enc_causality(c) + rest) == Some((c, 1int)),
{
    lemma_rt_u8(causality_tag(c), rest);
}

/// Append a causality tag.
pub fn write_causality(out: &mut Vec<u8>, c: CausalityType)
    ensures
        final(out)@ == old(out)@ + enc_causality(c),
{
    let b: u8 = match c {
        CausalityType::Local => 0,
        CausalityType::Parameter => 1,
        CausalityType::Input => 2,
        CausalityType::Output => 3,
    };
    write_u8(out, b);
}

/// Read a causality at `pos`.
pub fn read_causality(buf: &[u8], pos: usize) -> (r: Option<(CausalityType, usize)>)
    requires
        pos <= buf@.len(),
    ensures
        match r {
            Some((v, q)) => pos <= q <= buf@.len() && dec_causality(buf@.skip(pos as int))
                == Some((v, (q - pos) as int)),
            None => dec_causality(buf@.skip(pos as int)) is None,
        },
{
    match read_u8(buf, pos) {
        None => None,
        Some((t, q)) => {
            let v = if t == 0 {
                CausalityType::Local
            } else if t == 2 {
                CausalityType::Input
            } else if t == 3 {
                CausalityType::Output
            } else {
                CausalityType::Parameter
            };
            Some((v, q))
        },
    }
}

// ---------------------------------------------------------------------------
// Default values
// ---------------------------------------------------------------------------

/// Encoding of a default value: the four typed slots.
pub open spec fn enc_variable_value(v: VariableValueView) -> Seq<u8> {
    enc_u64(v.real_val) + enc_i32(v.int_val) + enc_bool(v.bool_val) + enc_str(v.string_val)
}

/// Decoder for a default value.
pub open spec fn dec_variable_value(b: Seq<u8>) -> Option<(VariableValueView, int)> {
    match dec_u64(b) {
        None => None,
        Some((real_val, _)) => match dec_i32(b.skip(8)) {
            None => None,
            Some((int_val, _)) => match dec_bool(b.skip(12)) {
                None => None,
                Some((bool_val, _)) => match dec_str(b.skip(13)) {
                    None => None,
                    Some((string_val, c4)) => Some(
                        (VariableValueView { real_val, int_val, bool_val, string_val }, 13 + c4),
                    ),
                },
            },
        },
    }
}

/// What a default value must satisfy to be encodable.
pub open spec fn wf_variable_value(v: VariableValueView) -> bool {
    str_fits(v.string_val)
}

/// Decoding an encoded default value yields it back.
pub proof fn lemma_rt_variable_value(v: VariableValueView, rest: Seq<u8>)
    requires
        wf_variable_value(v),
    ensures
        dec_variable_value(enc_variable_value(v) + rest) == Some(
            (v, enc_variable_value(v).len() as int),
        ),
{
    lemma_auto_spec_u64_to_from_le_bytes();
    lemma_auto_spec_u32_to_from_le_bytes();
    let s4 = enc_str(v.string_val) + rest;
    let s3 = enc_bool(v.bool_val) + s4;
    let s2 = enc_i32(v.int_val) + s3;
    let b = enc_variable_value(v) + rest;
    assert(b =~= enc_u64(v.real_val) + s2);
    lemma_rt_u64(v.real_val, s2);
    lemma_concat_skip(enc_u64(v.real_val), s2);
    assert(b.skip(8) == s2);
    lemma_rt_i32(v.int_val, s3);
    lemma_concat_skip(enc_i32(v.int_val), s3);
    lemma_skip_skip(b, 8, 4);
    assert(b.skip(12) == s3);
    lemma_rt_bool(v.bool_val, s4);
    lemma_concat_skip(enc_bool(v.bool_val), s4);
    lemma_skip_skip(b, 12, 1);
    assert(b.skip(13) == s4);
    lemma_rt_str(v.string_val, rest);
}

/// Append the encoding of a default value.
pub fn write_variable_value(out: &mut Vec<u8>, v: &VariableValue)
    ensures
        final(out)@ == old(out)@ + enc_variable_value(v@),
        wf_variable_value(v@),
{
    write_u64(out, v.real_val);
    write_i32(out, v.int_val);
    write_bool(out, v.bool_val);
    write_str(out, v.string_val.as_str());
    assert(final(out)@ =~= old(out)@ + enc_variable_value(v@));
}

/// Read a default value at `pos`.
pub fn read_variable_value(buf: &[u8], pos: usize) -> (r: Option<(VariableValue, usize)>)
    requires
        pos <= buf@.len(),
    ensures
        match r {
            Some((v, q)) => pos <= q <= buf@.len() && dec_variable_value(buf@.skip(pos as int))
                == Some((v@, (q - pos) as int)) && wf_variable_value(v@),
            None => dec_variable_value(buf@.skip(pos as int)) is None,
        },
{
    let ghost b = buf@.skip(pos as int);
    match read_u64(buf, pos) {
        None => None,
        Some((real_val, p1)) => {
            proof {
                assert(b.skip(8) =~= buf@.skip(p1 as int));
            }
            match read_i32(buf, p1) {
                None => None,
                Some((int_val, p2)) => {
                    proof {
                        assert(b.skip(12) =~= buf@.skip(p2 as int));
                    }
                    match read_bool(buf, p2) {
                        None => None,
                        Some((bool_val, p3)) => {
                            proof {
                                assert(b.skip(13) =~= buf@.skip(p3 as int));
                            }
                            match read_str(buf, p3) {
                                None => None,
                                Some((string_val, p4)) => Some(
                                    (
                                        VariableValue { real_val, int_val, bool_val, string_val },
                                        p4,
                                    ),
                                ),
                            }
                        },
                    }
                },
            }
        },
    }
}

/// Encoding of an optional default value: a presence byte, then the value.
pub open spec fn enc_opt_variable_value(o: Option<VariableValueView>) -> Seq<u8> {
    match o {
        None => enc_bool(false),
        Some(v) => enc_bool(true) + enc_variable_value(v),
    }
}

/// Decoder for an optional default value.
pub open spec fn dec_opt_variable_value(b: Seq<u8>) -> Option<(Option<VariableValueView>, int)> {
    match dec_bool(b) {
        None => None,
        Some((present, _)) => {
            if present {
                match dec_variable_value(b.skip(1)) {
                    None => None,
                    Some((v, c)) => Some((Some(v), 1 + c)),
                }
            } else {
                Some((None, 1int))
            }
        },
    }
}

/// What an optional default value must satisfy to be encodable.
pub open spec fn wf_opt_variable_value(o: Option<VariableValueView>) -> bool {
    match o {
        None => true,
        Some(v) => wf_variable_value(v),
    }
}

/// Decoding an encoded optional default value yields it back.
pub proof fn lemma_rt_opt_variable_value(o: Option<VariableValueView>, rest: Seq<u8>)
    requires
        wf_opt_variable_value(o),
    ensures
        dec_opt_variable_value(enc_opt_variable_value(o) + rest) == Some(
            (o, enc_opt_variable_value(o).len() as int),
        ),
{
    match o {
        None => {
            lemma_rt_bool(false, rest);
        },
        Some(v) => {
            let b = enc_opt_variable_value(o) + rest;
            lemma_rt_bool(true, enc_variable_value(v) + rest);
            assert(b =~= enc_bool(true) + (enc_variable_value(v) + rest));
            lemma_concat_skip(enc_bool(true), enc_variable_value(v) + rest);
            assert(b.skip(1) == enc_variable_value(v) + rest);
            lemma_rt_variable_value(v, rest);
        },
    }
}

/// Append the encoding of an optional default value.
pub fn write_opt_variable_value(out: &mut Vec<u8>, o: &Option<VariableValue>)
    ensures
        final(out)@ == old(out)@ + enc_opt_variable_value(match o {
            Some(v) => Some(v@),
            None => None,
        }),
        wf_opt_variable_value(match o {
            Some(v) => Some(v@),
            None => None,
        }),
{
    match o {
        None => {
            write_bool(out, false);
        },
        Some(v) => {
            write_bool(out, true);
            write_variable_value(out, v);
            assert(final(out)@ =~= old(out)@ + enc_opt_variable_value(Some(v@)));
        },
    }
}

/// Read an optional default value at `pos`.
pub fn read_opt_variable_value(buf: &[u8], pos: usize) -> (r: Option<
    (Option<VariableValue>, usize),
>)
    requires
        pos <= buf@.len(),
    ensures
        match r {
            Some((v, q)) => pos <= q <= buf@.len() && dec_opt_variable_value(
                buf@.skip(pos as int),
            ) == Some(
                (
                    match v {
                        Some(vv) => Some(vv@),
                        None => None,
                    },
                    (q - pos) as int,
                ),
            ) && wf_opt_variable_value(match v {
                Some(vv) => Some(vv@),
                None => None,
            }),
            None => dec_opt_variable_value(buf@.skip(pos as int)) is None,
        },
{
    match read_bool(buf, pos) {
        None => None,
        Some((present, p1)) => {
            if present {
                proof {
                    assert(buf@.skip(pos as int).skip(1) =~= buf@.skip(p1 as int));
                }
                match read_variable_value(buf, p1) {
                    None => None,
                    Some((v, p2)) => Some((Some(v), p2)),
                }
            } else {
                Some((None, p1))
            }
        },
    }
}

} // verus!

verus! {

// ---------------------------------------------------------------------------
// Capabilities and model info
// ---------------------------------------------------------------------------

/// Encoding of the capability flags: three booleans.
pub open spec fn enc_capabilities(c: Capabilities) -> Seq<u8> {
    enc_bool(c.can_handle_variable_step_size) + enc_bool(c.can_reset_step) + enc_bool(
        c.can_interpolate_inputs,
    )
}

/// Decoder for the capability flags.
pub open spec fn dec_capabilities(b: Seq<u8>) -> Option<(Capabilities, int)> {
    match dec_bool(b) {
        None => None,
        Some((v1, _)) => match dec_bool(b.skip(1)) {
            None => None,
            Some((v2, _)) => match dec_bool(b.skip(2)) {
                None => None,
                Some((v3, _)) => Some(
                    (
                        Capabilities {
                            can_handle_variable_step_size: v1,
                            can_reset_step: v2,
                            can_interpolate_inputs: v3,
                        },
                        3int,
                    ),
                ),
            },
        },
    }
}

/// Decoding encoded capability flags yields them back.
pub proof fn lemma_rt_capabilities(c: Capabilities, rest: Seq<u8>)
    ensures
        dec_capabilities(enc_capabilities(c) + rest) == Some((c, 3int)),
{
    let s3 = enc_bool(c.can_interpolate_inputs) + rest;
    let s2 = enc_bool(c.can_reset_step) + s3;
    let b = enc_capabilities(c) + rest;
    assert(b =~= enc_bool(c.can_handle_variable_step_size) + s2);
    lemma_rt_bool(c.can_handle_variable_step_size, s2);
    lemma_concat_skip(enc_bool(c.can_handle_variable_step_size), s2);
    lemma_rt_bool(c.can_reset_step, s3);
    lemma_concat_skip(enc_bool(c.can_reset_step), s3);
    lemma_skip_skip(b, 1, 1);
    lemma_rt_bool(c.can_interpolate_inputs, rest);
    lemma_concat_skip(enc_bool(c.can_interpolate_inputs), rest);
    lemma_skip_skip(b, 2, 1);
}

/// Append the encoding of the capability flags.
pub fn write_capabilities(out: &mut Vec<u8>, c: &Capabilities)
    ensures
        final(out)@ == old(out)@ + enc_capabilities(*c),
{
    write_bool(out, c.can_handle_variable_step_size);
    write_bool(out, c.can_reset_step);
    write_bool(out, c.can_interpolate_inputs);
    assert(final(out)@ =~= old(out)@ + enc_capabilities(*c));
}

/// Read the capability flags at `pos`.
pub fn read_capabilities(buf: &[u8], pos: usize) -> (r: Option<(Capabilities, usize)>)
    requires
        pos <= buf@.len(),
    ensures
        match r {
            Some((v, q)) => pos <= q <= buf@.len() && dec_capabilities(buf@.skip(pos as int))
                == Some((v, (q - pos) as int)),
            None => dec_capabilities(buf@.skip(pos as int)) is None,
        },
{
    let ghost b = buf@.skip(pos as int);
    match read_bool(buf, pos) {
        None => None,
        Some((v1, p1)) => {
            proof {
                assert(b.skip(1) =~= buf@.skip(p1 as int));
            }
            match read_bool(buf, p1) {
                None => None,
                Some((v2, p2)) => {
                    proof {
                        assert(b.skip(2) =~= buf@.skip(p2 as int));
                    }
                    match read_bool(buf, p2) {
                        None => None,
                        Some((v3, p3)) => Some(
                            (
                                Capabilities {
                                    can_handle_variable_step_size: v1,
                                    can_reset_step: v2,
                                    can_interpolate_inputs: v3,
                                },
                                p3,
                            ),
                        ),
                    }
                },
            }
        },
    }
}

/// Encoding of the model identity block: six strings, then the flags.
pub open spec fn enc_model_info(v: ModelInfoView) -> Seq<u8> {
    enc_str(v.name) + enc_str(v.id) + enc_str(v.description) + enc_str(v.generation_tool)
        + enc_str(v.generation_date_time) + enc_str(v.name_delimiter) + enc_capabilities(
        v.capabilities,
    )
}

/// Decoder for the model identity block.
pub open spec fn dec_model_info(b: Seq<u8>) -> Option<(ModelInfoView, int)> {
    match dec_str(b) {
        None => None,
        Some((name, c1)) => match dec_str(b.skip(c1)) {
            None => None,
            Some((id, c2)) => match dec_str(b.skip(c1 + c2)) {
                None => None,
                Some((description, c3)) => match dec_str(b.skip(c1 + c2 + c3)) {
                    None => None,
                    Some((generation_tool, c4)) => match dec_str(b.skip(c1 + c2 + c3 + c4)) {
                        None => None,
                        Some((generation_date_time, c5)) => match dec_str(
                            b.skip(c1 + c2 + c3 + c4 + c5),
                        ) {
                            None => None,
                            Some((name_delimiter, c6)) => match dec_capabilities(
                                b.skip(c1 + c2 + c3 + c4 + c5 + c6),
                            ) {
                                None => None,
                                Some((capabilities, _)) => Some(
                                    (
                                        ModelInfoView {
                                            name,
                                            id,
                                            description,
                                            generation_tool,
                                            generation_date_time,
                                            name_delimiter,
                                            capabilities,
                                        },
                                        c1 + c2 + c3 + c4 + c5 + c6 + 3,
                                    ),
                                ),
                            },
                        },
                    },
                },
            },
        },
    }
}

/// What the model identity block must satisfy to be encodable.
pub open spec fn wf_model_info(v: ModelInfoView) -> bool {
    &&& str_fits(v.name)
    &&& str_fits(v.id)
    &&& str_fits(v.description)
    &&& str_fits(v.generation_tool)
    &&& str_fits(v.generation_date_time)
    &&& str_fits(v.name_delimiter)
}

/// Decoding an encoded model identity block yields it back.
#[verifier::rlimit(100)]
pub proof fn lemma_rt_model_info(v: ModelInfoView, rest: Seq<u8>)
    requires
        wf_model_info(v),
    ensures
        dec_model_info(enc_model_info(v) + rest) == Some((v, enc_model_info(v).len() as int)),
{
    let e1 = enc_str(v.name);
    let e2 = enc_str(v.id);
    let e3 = enc_str(v.description);
    let e4 = enc_str(v.generation_tool);
    let e5 = enc_str(v.generation_date_time);
    let e6 = enc_str(v.name_delimiter);
    let s7 = enc_capabilities(v.capabilities) + rest;
    let s6 = e6 + s7;
    let s5 = e5 + s6;
    let s4 = e4 + s5;
    let s3 = e3 + s4;
    let s2 = e2 + s3;
    let b = enc_model_info(v) + rest;
    let c1 = e1.len() as int;
    let c2 = e2.len() as int;
    let c3 = e3.len() as int;
    let c4 = e4.len() as int;
    let c5 = e5.len() as int;
    let c6 = e6.len() as int;
    assert(b =~= e1 + s2);
    lemma_rt_str(v.name, s2);
    lemma_concat_skip(e1, s2);
    assert(b.skip(c1) == s2);
    lemma_rt_str(v.id, s3);
    lemma_concat_skip(e2, s3);
    lemma_skip_skip(b, c1, c2);
    assert(b.skip(c1 + c2) == s3);
    lemma_rt_str(v.description, s4);
    lemma_concat_skip(e3, s4);
    lemma_skip_skip(b, c1 + c2, c3);
    assert(b.skip(c1 + c2 + c3) == s4);
    lemma_rt_str(v.generation_tool, s5);
    lemma_concat_skip(e4, s5);
    lemma_skip_skip(b, c1 + c2 + c3, c4);
    assert(b.skip(c1 + c2 + c3 + c4) == s5);
    lemma_rt_str(v.generation_date_time, s6);
    lemma_concat_skip(e5, s6);
    lemma_skip_skip(b, c1 + c2 + c3 + c4, c5);
    assert(b.skip(c1 + c2 + c3 + c4 + c5) == s6);
    lemma_rt_str(v.name_delimiter, s7);
    lemma_concat_skip(e6, s7);
    lemma_skip_skip(b, c1 + c2 + c3 + c4 + c5, c6);
    assert(b.skip(c1 + c2 + c3 + c4 + c5 + c6) == s7);
    lemma_rt_capabilities(v.capabilities, rest);
}

/// Append the encoding of the model identity block.
pub fn write_model_info(out: &mut Vec<u8>, mi: &ModelInfo)
    ensures
        final(out)@ == old(out)@ + enc_model_info(mi@),
        wf_model_info(mi@),
{
    write_str(out, mi.name.as_str());
    write_str(out, mi.id.as_str());
    write_str(out, mi.description.as_str());
    write_str(out, mi.generation_tool.as_str());
    write_str(out, mi.generation_date_time.as_str());
    write_str(out, mi.name_delimiter.as_str());
    write_capabilities(out, &mi.capabilities);
    assert(final(out)@ =~= old(out)@ + enc_model_info(mi@));
}

/// Read the model identity block at `pos`.
#[verifier::rlimit(60)]
pub fn read_model_info(buf: &[u8], pos: usize) -> (r: Option<(ModelInfo, usize)>)
    requires
        pos <= buf@.len(),
    ensures
        match r {
            Some((v, q)) => pos <= q <= buf@.len() && dec_model_info(buf@.skip(pos as int))
                == Some((v@, (q - pos) as int)) && wf_model_info(v@),
            None => dec_model_info(buf@.skip(pos as int)) is None,
        },
{
    let ghost b = buf@.skip(pos as int);
    let r1 = read_str(buf, pos);
    if r1.is_none() {
        return None;
    }
    let (name, p1) = r1.unwrap();
    proof {
        lemma_skip_skip(buf@, pos as int, (p1 - pos) as int);
    }
    let r2 = read_str(buf, p1);
    if r2.is_none() {
        return None;
    }
    let (id, p2) = r2.unwrap();
    proof {
        lemma_skip_skip(buf@, pos as int, (p2 - pos) as int);
    }
    let r3 = read_str(buf, p2);
    if r3.is_none() {
        return None;
    }
    let (description, p3) = r3.unwrap();
    proof {
        lemma_skip_skip(buf@, pos as int, (p3 - pos) as int);
    }
    let r4 = read_str(buf, p3);
    if r4.is_none() {
        return None;
    }
    let (generation_tool, p4) = r4.unwrap();
    proof {
        lemma_skip_skip(buf@, pos as int, (p4 - pos) as int);
    }
    let r5 = read_str(buf, p4);
    if r5.is_none() {
        return None;
    }
    let (generation_date_time, p5) = r5.unwrap();
    proof {
        lemma_skip_skip(buf@, pos as int, (p5 - pos) as int);
    }
    let r6 = read_str(buf, p5);
    if r6.is_none() {
        return None;
    }
    let (name_delimiter, p6) = r6.unwrap();
    proof {
        lemma_skip_skip(buf@, pos as int, (p6 - pos) as int);
    }
    let r7 = read_capabilities(buf, p6);
    if r7.is_none() {
        return None;
    }
    let (capabilities, p7) = r7.unwrap();
    Some(
        (
            ModelInfo {
                name,
                id,
                description,
                generation_tool,
                generation_date_time,
                name_delimiter,
                capabilities,
            },
            p7,
        ),
    )
}

} // verus!

verus! {

// ---------------------------------------------------------------------------
// Experiment block
// ---------------------------------------------------------------------------

/// Encoding of the experiment block: five times (double bits), then the
/// time unit.
pub open spec fn enc_experiment(v: ExperimentInfoView) -> Seq<u8> {
    enc_u64(v.time_step_min) + enc_u64(v.time_step_max) + enc_u64(v.time_step_default) + enc_u64(
        v.start_time_default,
    ) + enc_u64(v.end_time_default) + enc_str(v.time_unit)
}

/// Decoder for the experiment block.
pub open spec fn dec_experiment(b: Seq<u8>) -> Option<(ExperimentInfoView, int)> {
    match dec_u64(b) {
        None => None,
        Some((v1, _)) => match dec_u64(b.skip(8)) {
            None => None,
            Some((v2, _)) => match dec_u64(b.skip(16)) {
                None => None,
                Some((v3, _)) => match dec_u64(b.skip(24)) {
                    None => None,
                    Some((v4, _)) => match dec_u64(b.skip(32)) {
                        None => None,
                        Some((v5, _)) => match dec_str(b.skip(40)) {
                            None => None,
                            Some((time_unit, c6)) => Some(
                                (
                                    ExperimentInfoView {
                                        time_step_min: v1,
                                        time_step_max: v2,
                                        time_step_default: v3,
                                        start_time_default: v4,
                                        end_time_default: v5,
                                        time_unit,
                                    },
                                    40 + c6,
                                ),
                            ),
                        },
                    },
                },
            },
        },
    }
}

/// What the experiment block must satisfy to be encodable.
pub open spec fn wf_experiment(v: ExperimentInfoView) -> bool {
    str_fits(v.time_unit)
}

/// Decoding an encoded experiment block yields it back.
#[verifier::rlimit(60)]
pub proof fn lemma_rt_experiment(v: ExperimentInfoView, rest: Seq<u8>)
    requires
        wf_experiment(v),
    ensures
        dec_experiment(enc_experiment(v) + rest) == Some((v, enc_experiment(v).len() as int)),
{
    lemma_auto_spec_u64_to_from_le_bytes();
    let s6 = enc_str(v.time_unit) + rest;
    let s5 = enc_u64(v.end_time_default) + s6;
    let s4 = enc_u64(v.start_time_default) + s5;
    let s3 = enc_u64(v.time_step_default) + s4;
    let s2 = enc_u64(v.time_step_max) + s3;
    let b = enc_experiment(v) + rest;
    assert(b =~= enc_u64(v.time_step_min) + s2);
    lemma_rt_u64(v.time_step_min, s2);
    lemma_concat_skip(enc_u64(v.time_step_min), s2);
    lemma_rt_u64(v.time_step_max, s3);
    lemma_concat_skip(enc_u64(v.time_step_max), s3);
    lemma_skip_skip(b, 8, 8);
    lemma_rt_u64(v.time_step_default, s4);
    lemma_concat_skip(enc_u64(v.time_step_default), s4);
    lemma_skip_skip(b, 16, 8);
    lemma_rt_u64(v.start_time_default, s5);
    lemma_concat_skip(enc_u64(v.start_time_default), s5);
    lemma_skip_skip(b, 24, 8);
    lemma_rt_u64(v.end_time_default, s6);
    lemma_concat_skip(enc_u64(v.end_time_default), s6);
    lemma_skip_skip(b, 32, 8);
    lemma_rt_str(v.time_unit, rest);
    lemma_concat_skip(enc_str(v.time_unit), rest);
    lemma_skip_skip(b, 32, 8);
    assert(b.skip(40) == s6);
}

/// Append the encoding of the experiment block.
pub fn write_experiment(out: &mut Vec<u8>, e: &ExperimentInfo)
    ensures
        final(out)@ == old(out)@ + enc_experiment(e@),
        wf_experiment(e@),
{
    write_u64(out, e.time_step_min);
    write_u64(out, e.time_step_max);
    write_u64(out, e.time_step_default);
    write_u64(out, e.start_time_default);
    write_u64(out, e.end_time_default);
    write_str(out, e.time_unit.as_str());
    assert(final(out)@ =~= old(out)@ + enc_experiment(e@));
}

/// Read the experiment block at `pos`.
#[verifier::rlimit(60)]
pub fn read_experiment(buf: &[u8], pos: usize) -> (r: Option<(ExperimentInfo, usize)>)
    requires
        pos <= buf@.len(),
    ensures
        match r {
            Some((v, q)) => pos <= q <= buf@.len() && dec_experiment(buf@.skip(pos as int))
                == Some((v@, (q - pos) as int)) && wf_experiment(v@),
            None => dec_experiment(buf@.skip(pos as int)) is None,
        },
{
    let r1 = read_u64(buf, pos);
    if r1.is_none() {
        return None;
    }
    let (v1, p1) = r1.unwrap();
    proof {
        lemma_skip_skip(buf@, pos as int, (p1 - pos) as int);
    }
    let r2 = read_u64(buf, p1);
    if r2.is_none() {
        return None;
    }
    let (v2, p2) = r2.unwrap();
    proof {
        lemma_skip_skip(buf@, pos as int, (p2 - pos) as int);
    }
    let r3 = read_u64(buf, p2);
    if r3.is_none() {
        return None;
    }
    let (v3, p3) = r3.unwrap();
    proof {
        lemma_skip_skip(buf@, pos as int, (p3 - pos) as int);
    }
    let r4 = read_u64(buf, p3);
    if r4.is_none() {
        return None;
    }
    let (v4, p4) = r4.unwrap();
    proof {
        lemma_skip_skip(buf@, pos as int, (p4 - pos) as int);
    }
    let r5 = read_u64(buf, p4);
    if r5.is_none() {
        return None;
    }
    let (v5, p5) = r5.unwrap();
    proof {
        lemma_skip_skip(buf@, pos as int, (p5 - pos) as int);
    }
    let r6 = read_str(buf, p5);
    if r6.is_none() {
        return None;
    }
    let (time_unit, p6) = r6.unwrap();
    Some(
        (
            ExperimentInfo {
                time_step_min: v1,
                time_step_max: v2,
                time_step_default: v3,
                start_time_default: v4,
                end_time_default: v5,
                time_unit,
            },
            p6,
        ),
    )
}

/// Encoding of the optional experiment block.
pub open spec fn enc_opt_experiment(o: Option<ExperimentInfoView>) -> Seq<u8> {
    match o {
        None => enc_bool(false),
        Some(v) => enc_bool(true) + enc_experiment(v),
    }
}

/// Decoder for the optional experiment block.
pub open spec fn dec_opt_experiment(b: Seq<u8>) -> Option<(Option<ExperimentInfoView>, int)> {
    match dec_bool(b) {
        None => None,
        Some((present, _)) => {
            if present {
                match dec_experiment(b.skip(1)) {
                    None => None,
                    Some((v, c)) => Some((Some(v), 1 + c)),
                }
            } else {
                Some((None, 1int))
            }
        },
    }
}

/// What the optional experiment block must satisfy to be encodable.
pub open spec fn wf_opt_experiment(o: Option<ExperimentInfoView>) -> bool {
    match o {
        None => true,
        Some(v) => wf_experiment(v),
    }
}

/// Decoding an encoded optional experiment block yields it back.
pub proof fn lemma_rt_opt_experiment(o: Option<ExperimentInfoView>, rest: Seq<u8>)
    requires
        wf_opt_experiment(o),
    ensures
        dec_opt_experiment(enc_opt_experiment(o) + rest) == Some(
            (o, enc_opt_experiment(o).len() as int),
        ),
{
    match o {
        None => {
            lemma_rt_bool(false, rest);
        },
        Some(v) => {
            let b = enc_opt_experiment(o) + rest;
            lemma_rt_bool(true, enc_experiment(v) + rest);
            assert(b =~= enc_bool(true) + (enc_experiment(v) + rest));
            lemma_concat_skip(enc_bool(true), enc_experiment(v) + rest);
            assert(b.skip(1) == enc_experiment(v) + rest);
            lemma_rt_experiment(v, rest);
        },
    }
}

/// Append the encoding of the optional experiment block.
pub fn write_opt_experiment(out: &mut Vec<u8>, o: &Option<ExperimentInfo>)
    ensures
        final(out)@ == old(out)@ + enc_opt_experiment(match o {
            Some(v) => Some(v@),
            None => None,
        }),
        wf_opt_experiment(match o {
            Some(v) => Some(v@),
            None => None,
        }),
{
    match o {
        None => {
            write_bool(out, false);
        },
        Some(v) => {
            write_bool(out, true);
            write_experiment(out, v);
            assert(final(out)@ =~= old(out)@ + enc_opt_experiment(Some(v@)));
        },
    }
}

/// Read the optional experiment block at `pos`.
pub fn read_opt_experiment(buf: &[u8], pos: usize) -> (r: Option<(Option<ExperimentInfo>, usize)>)
    requires
        pos <= buf@.len(),
    ensures
        match r {
            Some((v, q)) => pos <= q <= buf@.len() && dec_opt_experiment(buf@.skip(pos as int))
                == Some(
                (
                    match v {
                        Some(e) => Some(e@),
                        None => None,
                    },
                    (q - pos) as int,
                ),
            ) && wf_opt_experiment(match v {
                Some(e) => Some(e@),
                None => None,
            }),
            None => dec_opt_experiment(buf@.skip(pos as int)) is None,
        },
{
    match read_bool(buf, pos) {
        None => None,
        Some((present, p1)) => {
            if present {
                proof {
                    assert(buf@.skip(pos as int).skip(1) =~= buf@.skip(p1 as int));
                }
                match read_experiment(buf, p1) {
                    None => None,
                    Some((v, p2)) => Some((Some(v), p2)),
                }
            } else {
                Some((None, p1))
            }
        },
    }
}

} // verus!

verus! {

// ---------------------------------------------------------------------------
// Declared variables and the whole description
// ---------------------------------------------------------------------------

/// Encoding of one declared variable.
pub open spec fn enc_model_variable(v: ModelVariableView) -> Seq<u8> {
    enc_i32(v.id) + enc_str(v.name) + enc_variable_type(v.value_type) + enc_str(v.description)
        + enc_str(v.unit) + enc_causality(v.causality) + enc_i32(v.derivative_of_id)
        + enc_opt_variable_value(v.default)
}

/// Decoder for one declared variable.
pub open spec fn dec_model_variable(b: Seq<u8>) -> Option<(ModelVariableView, int)> {
    match dec_i32(b) {
        None => None,
        Some((id, _)) => match dec_str(b.skip(4)) {
            None => None,
            Some((name, c2)) => match dec_variable_type(b.skip(4 + c2)) {
                None => None,
                Some((value_type, _)) => match dec_str(b.skip(5 + c2)) {
                    None => None,
                    Some((description, c4)) => match dec_str(b.skip(5 + c2 + c4)) {
                        None => None,
                        Some((unit, c5)) => match dec_causality(b.skip(5 + c2 + c4 + c5)) {
                            None => None,
                            Some((causality, _)) => match dec_i32(b.skip(6 + c2 + c4 + c5)) {
                                None => None,
                                Some((derivative_of_id, _)) => match dec_opt_variable_value(
                                    b.skip(10 + c2 + c4 + c5),
                                ) {
                                    None => None,
                                    Some((default, c8)) => Some(
                                        (
                                            ModelVariableView {
                                                id,
                                                name,
                                                value_type,
                                                description,
                                                unit,
                                                causality,
                                                derivative_of_id,
                                                default,
                                            },
                                            10 + c2 + c4 + c5 + c8,
                                        ),
                                    ),
                                },
                            },
                        },
                    },
                },
            },
        },
    }
}

/// What a declared variable must satisfy to be encodable.
pub open spec fn wf_model_variable(v: ModelVariableView) -> bool {
    &&& str_fits(v.name)
    &&& str_fits(v.description)
    &&& str_fits(v.unit)
    &&& wf_opt_variable_value(v.default)
}

/// Decoding an encoded declared variable yields it back.
#[verifier::rlimit(100)]
pub proof fn lemma_rt_model_variable(v: ModelVariableView, rest: Seq<u8>)
    requires
        wf_model_variable(v),
    ensures
        dec_model_variable(enc_model_variable(v) + rest) == Some(
            (v, enc_model_variable(v).len() as int),
        ),
{
    lemma_auto_spec_u32_to_from_le_bytes();
    let e2 = enc_str(v.name);
    let e4 = enc_str(v.description);
    let e5 = enc_str(v.unit);
    let c2 = e2.len() as int;
    let c4 = e4.len() as int;
    let c5 = e5.len() as int;
    let s8 = enc_opt_variable_value(v.default) + rest;
    let s7 = enc_i32(v.derivative_of_id) + s8;
    let s6 = enc_causality(v.causality) + s7;
    let s5 = e5 + s6;
    let s4 = e4 + s5;
    let s3 = enc_variable_type(v.value_type) + s4;
    let s2 = e2 + s3;
    let b = enc_model_variable(v) + rest;
    assert(b =~= enc_i32(v.id) + s2);
    lemma_rt_i32(v.id, s2);
    lemma_concat_skip(enc_i32(v.id), s2);
    assert(b.skip(4) == s2);
    lemma_rt_str(v.name, s3);
    lemma_concat_skip(e2, s3);
    lemma_skip_skip(b, 4, c2);
    assert(b.skip(4 + c2) == s3);
    lemma_rt_variable_type(v.value_type, s4);
    lemma_concat_skip(enc_variable_type(v.value_type), s4);
    lemma_skip_skip(b, 4 + c2, 1);
    assert(b.skip(5 + c2) == s4);
    lemma_rt_str(v.description, s5);
    lemma_concat_skip(e4, s5);
    lemma_skip_skip(b, 5 + c2, c4);
    assert(b.skip(5 + c2 + c4) == s5);
    lemma_rt_str(v.unit, s6);
    lemma_concat_skip(e5, s6);
    lemma_skip_skip(b, 5 + c2 + c4, c5);
    assert(b.skip(5 + c2 + c4 + c5) == s6);
    lemma_rt_causality(v.causality, s7);
    lemma_concat_skip(enc_causality(v.causality), s7);
    lemma_skip_skip(b, 5 + c2 + c4 + c5, 1);
    assert(b.skip(6 + c2 + c4 + c5) == s7);
    lemma_rt_i32(v.derivative_of_id, s8);
    lemma_concat_skip(enc_i32(v.derivative_of_id), s8);
    lemma_skip_skip(b, 6 + c2 + c4 + c5, 4);
    assert(b.skip(10 + c2 + c4 + c5) == s8);
    lemma_rt_opt_variable_value(v.default, rest);
}

impl Wire for ModelVariable {
    open spec fn enc1(v: ModelVariableView) -> Seq<u8> {
        enc_model_variable(v)
    }

    open spec fn dec1(b: Seq<u8>) -> Option<(ModelVariableView, int)> {
        dec_model_variable(b)
    }

    open spec fn wf1(v: ModelVariableView) -> bool {
        wf_model_variable(v)
    }

    proof fn lemma_rt1(v: ModelVariableView, rest: Seq<u8>) {
        lemma_rt_model_variable(v, rest);
    }

    fn write1(&self, out: &mut Vec<u8>) {
        write_i32(out, self.id);
        write_str(out, self.name.as_str());
        write_variable_type(out, self.value_type);
        write_str(out, self.description.as_str());
        write_str(out, self.unit.as_str());
        write_causality(out, self.causality);
        write_i32(out, self.derivative_of_id);
        write_opt_variable_value(out, &self.default);
        assert(final(out)@ =~= old(out)@ + enc_model_variable(self@));
    }

    #[verifier::rlimit(100)]
    fn read1(buf: &[u8], pos: usize) -> (r: Option<(ModelVariable, usize)>) {
        let r1 = read_i32(buf, pos);
        if r1.is_none() {
            return None;
        }
        let (id, p1) = r1.unwrap();
        proof {
            lemma_skip_skip(buf@, pos as int, (p1 - pos) as int);
        }
        let r2 = read_str(buf, p1);
        if r2.is_none() {
            return None;
        }
        let (name, p2) = r2.unwrap();
        proof {
            lemma_skip_skip(buf@, pos as int, (p2 - pos) as int);
        }
        let r3 = read_variable_type(buf, p2);
        if r3.is_none() {
            return None;
        }
        let (value_type, p3) = r3.unwrap();
        proof {
            lemma_skip_skip(buf@, pos as int, (p3 - pos) as int);
        }
        let r4 = read_str(buf, p3);
        if r4.is_none() {
            return None;
        }
        let (description, p4) = r4.unwrap();
        proof {
            lemma_skip_skip(buf@, pos as int, (p4 - pos) as int);
        }
        let r5 = read_str(buf, p4);
        if r5.is_none() {
            return None;
        }
        let (unit, p5) = r5.unwrap();
        proof {
            lemma_skip_skip(buf@, pos as int, (p5 - pos) as int);
        }
        let r6 = read_causality(buf, p5);
        if r6.is_none() {
            return None;
        }
        let (causality, p6) = r6.unwrap();
        proof {
            lemma_skip_skip(buf@, pos as int, (p6 - pos) as int);
        }
        let r7 = read_i32(buf, p6);
        if r7.is_none() {
            return None;
        }
        let (derivative_of_id, p7) = r7.unwrap();
        proof {
            lemma_skip_skip(buf@, pos as int, (p7 - pos) as int);
        }
        let r8 = read_opt_variable_value(buf, p7);
        if r8.is_none() {
            return None;
        }
        let (default, p8) = r8.unwrap();
        Some(
            (
                ModelVariable {
                    id,
                    name,
                    value_type,
                    description,
                    unit,
                    causality,
                    derivative_of_id,
                    default,
                },
                p8,
            ),
        )
    }
}

/// Encoding of a whole model description: identity block, optional
/// experiment block, then the declared variables.
pub open spec fn enc_model_description(v: ModelDescriptionView) -> Seq<u8> {
    enc_model_info(v.model) + enc_opt_experiment(v.experiment) + enc_list::<ModelVariable>(
        v.variables,
    )
}

/// Decoder for a whole model description.
pub open spec fn dec_model_description(b: Seq<u8>) -> Option<(ModelDescriptionView, int)> {
    match dec_model_info(b) {
        None => None,
        Some((model, c1)) => match dec_opt_experiment(b.skip(c1)) {
            None => None,
            Some((experiment, c2)) => match dec_list::<ModelVariable>(b.skip(c1 + c2)) {
                None => None,
                Some((variables, c3)) => Some(
                    (ModelDescriptionView { model, variables, experiment }, c1 + c2 + c3),
                ),
            },
        },
    }
}

/// What a model description must satisfy to be encodable.
pub open spec fn wf_model_description(v: ModelDescriptionView) -> bool {
    &&& wf_model_info(v.model)
    &&& wf_opt_experiment(v.experiment)
    &&& wf_list::<ModelVariable>(v.variables)
}

/// Decoding an encoded model description yields it back.
pub proof fn lemma_rt_model_description(v: ModelDescriptionView, rest: Seq<u8>)
    requires
        wf_model_description(v),
    ensures
        dec_model_description(enc_model_description(v) + rest) == Some(
            (v, enc_model_description(v).len() as int),
        ),
{
    let e1 = enc_model_info(v.model);
    let e2 = enc_opt_experiment(v.experiment);
    let e3 = enc_list::<ModelVariable>(v.variables);
    let c1 = e1.len() as int;
    let c2 = e2.len() as int;
    let s3 = e3 + rest;
    let s2 = e2 + s3;
    let b = enc_model_description(v) + rest;
    assert(b =~= e1 + s2);
    lemma_rt_model_info(v.model, s2);
    lemma_concat_skip(e1, s2);
    assert(b.skip(c1) == s2);
    lemma_rt_opt_experiment(v.experiment, s3);
    lemma_concat_skip(e2, s3);
    lemma_skip_skip(b, c1, c2);
    assert(b.skip(c1 + c2) == s3);
    lemma_rt_list::<ModelVariable>(v.variables, rest);
}

/// Append the encoding of a whole model description.
pub fn write_model_description(out: &mut Vec<u8>, md: &ModelDescription)
    ensures
        final(out)@ == old(out)@ + enc_model_description(md@),
        wf_model_description(md@),
{
    write_model_info(out, &md.model);
    write_opt_experiment(out, &md.experiment);
    proof {
        assert(seq_view(md.variables@) =~= md@.variables);
    }
    write_list::<ModelVariable>(out, &md.variables);
    assert(final(out)@ =~= old(out)@ + enc_model_description(md@));
}

/// Read a whole model description at `pos`.
pub fn read_model_description(buf: &[u8], pos: usize) -> (r: Option<(ModelDescription, usize)>)
    requires
        pos <= buf@.len(),
    ensures
        match r {
            Some((v, q)) => pos <= q <= buf@.len() && dec_model_description(buf@.skip(pos as int))
                == Some((v@, (q - pos) as int)) && wf_model_description(v@),
            None => dec_model_description(buf@.skip(pos as int)) is None,
        },
{
    match read_model_info(buf, pos) {
        None => None,
        Some((model, p1)) => {
            proof {
                lemma_skip_skip(buf@, pos as int, (p1 - pos) as int);
            }
            match read_opt_experiment(buf, p1) {
                None => None,
                Some((experiment, p2)) => {
                    proof {
                        lemma_skip_skip(buf@, pos as int, (p2 - pos) as int);
                    }
                    match read_list::<ModelVariable>(buf, p2) {
                        None => None,
                        Some((variables, p3)) => {
                            proof {
                                assert(seq_view(variables@) =~= variables@.map_values(
                                    |mv: ModelVariable| mv@,
                                ));
                            }
                            Some((ModelDescription { model, variables, experiment }, p3))
                        },
                    }
                },
            }
        },
    }
}

} // verus!
