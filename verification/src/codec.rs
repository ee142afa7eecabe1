//! The message codec of the call protocol.
//!
//! Messages travel as length-prefixed, offset-addressed, little-endian
//! bytes; strings are UTF-8 with a length prefix. For every wire type there
//! are a specification-level encoder (`enc_*`) and decoder (`dec_*`), an
//! executable writer proved to emit exactly the specified encoding, an
//! executable reader proved to behave exactly as the specified decoder, and
//! a round-trip lemma showing that decoding an encoding yields the original
//! value. The codec performs no validation beyond well-formedness of the
//! bytes; validation against the registry is the dispatcher's concern.
//!
//! Real values and times are carried as IEEE-754 double bit patterns
//! (`u64`), exactly eight little-endian bytes on the wire.

use vstd::prelude::*;
use vstd::bytes::{
    lemma_auto_spec_u32_to_from_le_bytes, lemma_auto_spec_u64_to_from_le_bytes,
    spec_u32_from_le_bytes, spec_u32_to_le_bytes, spec_u64_from_le_bytes, spec_u64_to_le_bytes,
    u32_from_le_bytes, u32_to_le_bytes, u64_from_le_bytes, u64_to_le_bytes,
};
use vstd::slice::slice_subrange;
use vstd::string::StrSliceExecFns;
use vstd::utf8::{decode_utf8, decode_utf8_encode_utf8, encode_utf8, encode_utf8_decode_utf8,
    encode_utf8_valid_utf8, valid_utf8};

verus! {

// ---------------------------------------------------------------------------
// Primitive encodings
// ---------------------------------------------------------------------------

/// Encoding of one byte.
pub open spec fn enc_u8(x: u8) -> Seq<u8> {
    seq![x]
}

/// Decoder for one byte: the value and the bytes consumed.
pub open spec fn dec_u8(b: Seq<u8>) -> Option<(u8, int)> {
    if b.len() >= 1 {
        Some((b[0], 1int))
    } else {
        None
    }
}

/// Encoding of a boolean: one byte, `1` or `0`.
pub open spec fn enc_bool(x: bool) -> Seq<u8> {
    seq![if x { 1u8 } else { 0u8 }]
}

/// Decoder for a boolean; any byte other than `0` and `1` is rejected.
pub open spec fn dec_bool(b: Seq<u8>) -> Option<(bool, int)> {
    if b.len() >= 1 {
        if b[0] == 1u8 {
            Some((true, 1int))
        } else if b[0] == 0u8 {
            Some((false, 1int))
        } else {
            None
        }
    } else {
        None
    }
}

/// Encoding of a 64-bit word, little endian.
pub open spec fn enc_u64(x: u64) -> Seq<u8> {
    spec_u64_to_le_bytes(x)
}

/// Decoder for a 64-bit word.
pub open spec fn dec_u64(b: Seq<u8>) -> Option<(u64, int)> {
    if b.len() >= 8 {
        Some((spec_u64_from_le_bytes(b.take(8)), 8int))
    } else {
        None
    }
}

/// Encoding of a signed 32-bit integer: its two's-complement bits,
/// little endian.
pub open spec fn enc_i32(x: i32) -> Seq<u8> {
    spec_u32_to_le_bytes(x as u32)
}

/// Decoder for a signed 32-bit integer.
pub open spec fn dec_i32(b: Seq<u8>) -> Option<(i32, int)> {
    if b.len() >= 4 {
        Some((spec_u32_from_le_bytes(b.take(4)) as i32, 4int))
    } else {
        None
    }
}

/// Encoding of a string: the byte length of its UTF-8 form, then that form.
pub open spec fn enc_str(s: Seq<char>) -> Seq<u8> {
    enc_u64(encode_utf8(s).len() as u64) + encode_utf8(s)
}

/// Decoder for a string; rejects bytes that are not valid UTF-8.
pub open spec fn dec_str(b: Seq<u8>) -> Option<(Seq<char>, int)> {
    match dec_u64(b) {
        None => None,
        Some((n, _)) => {
            let n = n as int;
            if b.len() >= 8 + n && valid_utf8(b.subrange(8, 8 + n)) {
                Some((decode_utf8(b.subrange(8, 8 + n)), 8 + n))
            } else {
                None
            }
        },
    }
}

/// A string whose UTF-8 form is addressable by a 64-bit length.
pub open spec fn str_fits(s: Seq<char>) -> bool {
    encode_utf8(s).len() <= u64::MAX
}

// ---------------------------------------------------------------------------
// Primitive round-trip lemmas
// ---------------------------------------------------------------------------

/// Decoding an encoded byte yields it back.
pub proof fn lemma_rt_u8(x: u8, rest: Seq<u8>)
    ensures
        dec_u8(enc_u8(x) + rest) == Some((x, 1int)),
{
    assert((enc_u8(x) + rest)[0] == x);
}

/// Decoding an encoded boolean yields it back.
pub proof fn lemma_rt_bool(x: bool, rest: Seq<u8>)
    ensures
        dec_bool(enc_bool(x) + rest) == Some((x, 1int)),
{
    assert((enc_bool(x) + rest)[0] == (if x { 1u8 } else { 0u8 }));
}

/// Decoding an encoded 64-bit word yields it back.
pub proof fn lemma_rt_u64(x: u64, rest: Seq<u8>)
    ensures
        dec_u64(enc_u64(x) + rest) == Some((x, 8int)),
{
    lemma_auto_spec_u64_to_from_le_bytes();
    assert((enc_u64(x) + rest).take(8) =~= enc_u64(x));
}

/// Decoding an encoded 32-bit integer yields it back.
pub proof fn lemma_rt_i32(x: i32, rest: Seq<u8>)
    ensures
        dec_i32(enc_i32(x) + rest) == Some((x, 4int)),
{
    lemma_auto_spec_u32_to_from_le_bytes();
    assert((enc_i32(x) + rest).take(4) =~= enc_i32(x));
    assert((x as u32) as i32 == x) by (bit_vector);
}

/// Decoding an encoded string yields it back.
pub proof fn lemma_rt_str(s: Seq<char>, rest: Seq<u8>)
    requires
        str_fits(s),
    ensures
        dec_str(enc_str(s) + rest) == Some((s, enc_str(s).len() as int)),
{
    let u = encode_utf8(s);
    let b = enc_str(s) + rest;
    lemma_auto_spec_u64_to_from_le_bytes();
    lemma_rt_u64(u.len() as u64, u + rest);
    assert(enc_str(s) + rest =~= enc_u64(u.len() as u64) + (u + rest));
    assert(b.subrange(8, 8 + u.len() as int) =~= u);
    encode_utf8_valid_utf8(s);
    encode_utf8_decode_utf8(s);
}

// ---------------------------------------------------------------------------
// Primitive writers
// ---------------------------------------------------------------------------

/// Append one byte.
pub fn write_u8(out: &mut Vec<u8>, x: u8)
    ensures
        final(out)@ == old(out)@ + enc_u8(x),
{
    out.push(x);
    assert(final(out)@ =~= old(out)@ + enc_u8(x));
}

/// Append a boolean byte.
pub fn write_bool(out: &mut Vec<u8>, x: bool)
    ensures
        final(out)@ == old(out)@ + enc_bool(x),
{
    out.push(if x { 1u8 } else { 0u8 });
    assert(final(out)@ =~= old(out)@ + enc_bool(x));
}

/// Append a 64-bit word, little endian.
pub fn write_u64(out: &mut Vec<u8>, x: u64)
    ensures
        final(out)@ == old(out)@ + enc_u64(x),
{
    let mut bs = u64_to_le_bytes(x);
    out.append(&mut bs);
}

/// Append a signed 32-bit integer, little endian.
pub fn write_i32(out: &mut Vec<u8>, x: i32)
    ensures
        final(out)@ == old(out)@ + enc_i32(x),
{
    let mut bs = u32_to_le_bytes(x as u32);
    out.append(&mut bs);
}

/// Append a length-prefixed UTF-8 string.
pub fn write_str(out: &mut Vec<u8>, s: &str)
    ensures
        final(out)@ == old(out)@ + enc_str(s@),
        str_fits(s@),
{
    let mut bs = s.as_bytes_vec();
    write_u64(out, bs.len() as u64);
    out.append(&mut bs);
    assert(final(out)@ =~= old(out)@ + enc_str(s@));
}

// ---------------------------------------------------------------------------
// Primitive readers
// ---------------------------------------------------------------------------

/// Read one byte at `pos`; behaves exactly as [`dec_u8`].
pub fn read_u8(buf: &[u8], pos: usize) -> (r: Option<(u8, usize)>)
    requires
        pos <= buf@.len(),
    ensures
        match r {
            Some((v, q)) => pos <= q <= buf@.len() && dec_u8(buf@.skip(pos as int)) == Some(
                (v, q - pos),
            ),
            None => dec_u8(buf@.skip(pos as int)) is None,
        },
{
    if pos < buf.len() {
        let v = buf[pos];
        assert(buf@.skip(pos as int)[0] == buf@[pos as int]);
        Some((v, pos + 1))
    } else {
        None
    }
}

/// Read a boolean at `pos`; behaves exactly as [`dec_bool`].
pub fn read_bool(buf: &[u8], pos: usize) -> (r: Option<(bool, usize)>)
    requires
        pos <= buf@.len(),
    ensures
        match r {
            Some((v, q)) => pos <= q <= buf@.len() && dec_bool(buf@.skip(pos as int)) == Some(
                (v, q - pos),
            ),
            None => dec_bool(buf@.skip(pos as int)) is None,
        },
{
    if pos < buf.len() {
        let v = buf[pos];
        assert(buf@.skip(pos as int)[0] == buf@[pos as int]);
        if v == 1 {
            Some((true, pos + 1))
        } else if v == 0 {
            Some((false, pos + 1))
        } else {
            None
        }
    } else {
        None
    }
}

/// Read a 64-bit word at `pos`; behaves exactly as [`dec_u64`].
pub fn read_u64(buf: &[u8], pos: usize) -> (r: Option<(u64, usize)>)
    requires
        pos <= buf@.len(),
    ensures
        match r {
            Some((v, q)) => pos <= q <= buf@.len() && dec_u64(buf@.skip(pos as int)) == Some(
                (v, q - pos),
            ),
            None => dec_u64(buf@.skip(pos as int)) is None,
        },
{
    if buf.len() - pos >= 8 {
        let sl = slice_subrange(buf, pos, pos + 8);
        let v = u64_from_le_bytes(sl);
        assert(buf@.skip(pos as int).take(8) =~= buf@.subrange(pos as int, pos as int + 8));
        Some((v, pos + 8))
    } else {
        None
    }
}

/// Read a signed 32-bit integer at `pos`; behaves exactly as [`dec_i32`].
pub fn read_i32(buf: &[u8], pos: usize) -> (r: Option<(i32, usize)>)
    requires
        pos <= buf@.len(),
    ensures
        match r {
            Some((v, q)) => pos <= q <= buf@.len() && dec_i32(buf@.skip(pos as int)) == Some(
                (v, q - pos),
            ),
            None => dec_i32(buf@.skip(pos as int)) is None,
        },
{
    if buf.len() - pos >= 4 {
        let sl = slice_subrange(buf, pos, pos + 4);
        let v = u32_from_le_bytes(sl);
        assert(buf@.skip(pos as int).take(4) =~= buf@.subrange(pos as int, pos as int + 4));
        Some((v as i32, pos + 4))
    } else {
        None
    }
}

/// Relies on str::from_utf8: it succeeds exactly on valid UTF-8 input and
/// yields the string whose UTF-8 form is that input, which vstd's
/// `decode_utf8` describes.
#[verifier::external_body]
fn bytes_to_string(b: &[u8]) -> (r: Option<String>)
    ensures
        match r {
            Some(s) => valid_utf8(b@) && s@ == decode_utf8(b@),
            None => !valid_utf8(b@),
        },
{
    match std::str::from_utf8(b) {
        Ok(s) => Some(s.to_owned()),
        Err(_) => None,
    }
}

/// Read a length-prefixed UTF-8 string at `pos`; behaves exactly as
/// [`dec_str`].
pub fn read_str(buf: &[u8], pos: usize) -> (r: Option<(String, usize)>)
    requires
        pos <= buf@.len(),
    ensures
        match r {
            Some((v, q)) => pos <= q <= buf@.len() && dec_str(buf@.skip(pos as int)) == Some(
                (v@, q - pos),
            ) && str_fits(v@),
            None => dec_str(buf@.skip(pos as int)) is None,
        },
{
    let ghost b = buf@.skip(pos as int);
    match read_u64(buf, pos) {
        None => None,
        Some((n64, p8)) => {
            let rem = buf.len() - p8;
            if n64 <= rem as u64 {
                let n = n64 as usize;
                let sl = slice_subrange(buf, p8, p8 + n);
                assert(sl@ =~= b.subrange(8, 8 + n as int));
                match bytes_to_string(sl) {
                    None => None,
                    Some(s) => {
                        proof {
                            decode_utf8_encode_utf8(sl@);
                        }
                        Some((s, p8 + n))
                    },
                }
            } else {
                None
            }
        },
    }
}

} // verus!

use vstd::prelude::*;

verus! {

// ---------------------------------------------------------------------------
// Wire elements
// ---------------------------------------------------------------------------

/// View of a sequence of viewable values, element by element.
pub open spec fn seq_view<E: View>(s: Seq<E>) -> Seq<E::V> {
    s.map_values(|e: E| e@)
}

/// A value that can travel through the protocol as one wire element.
///
/// Implementations tie a specification-level encoder and decoder to an
/// executable writer and reader, proved against them, together with the
/// round-trip law.
pub trait Wire: View + Sized {
    /// Specification-level encoding of one element.
    spec fn enc1(v: Self::V) -> Seq<u8>;

    /// Specification-level decoder for one element.
    spec fn dec1(b: Seq<u8>) -> Option<(Self::V, int)>;

    /// What an element must satisfy to be encodable; every element that
    /// exists in memory satisfies it.
    spec fn wf1(v: Self::V) -> bool;

    /// Round trip: decoding an encoding yields the element back.
    proof fn lemma_rt1(v: Self::V, rest: Seq<u8>)
        requires
            Self::wf1(v),
        ensures
            Self::dec1(Self::enc1(v) + rest) == Some((v, Self::enc1(v).len() as int)),
    ;

    /// Append the encoding of `self`.
    fn write1(&self, out: &mut Vec<u8>)
        ensures
            final(out)@ == old(out)@ + Self::enc1(self@),
            Self::wf1(self@),
    ;

    /// Read one element at `pos`; behaves exactly as [`Wire::dec1`].
    fn read1(buf: &[u8], pos: usize) -> (r: Option<(Self, usize)>)
        requires
            pos <= buf@.len(),
        ensures
            match r {
                Some((v, q)) => pos <= q <= buf@.len() && Self::dec1(buf@.skip(pos as int))
                    == Some((v@, (q - pos) as int)) && Self::wf1(v@),
                None => Self::dec1(buf@.skip(pos as int)) is None,
            },
    ;
}

impl Wire for u64 {
    open spec fn enc1(v: u64) -> Seq<u8> {
        enc_u64(v)
    }

    open spec fn dec1(b: Seq<u8>) -> Option<(u64, int)> {
        dec_u64(b)
    }

    open spec fn wf1(v: u64) -> bool {
        true
    }

    proof fn lemma_rt1(v: u64, rest: Seq<u8>) {
        lemma_auto_spec_u64_to_from_le_bytes();
        lemma_rt_u64(v, rest);
    }

    fn write1(&self, out: &mut Vec<u8>) {
        write_u64(out, *self);
    }

    fn read1(buf: &[u8], pos: usize) -> (r: Option<(u64, usize)>) {
        read_u64(buf, pos)
    }
}

impl Wire for i32 {
    open spec fn enc1(v: i32) -> Seq<u8> {
        enc_i32(v)
    }

    open spec fn dec1(b: Seq<u8>) -> Option<(i32, int)> {
        dec_i32(b)
    }

    open spec fn wf1(v: i32) -> bool {
        true
    }

    proof fn lemma_rt1(v: i32, rest: Seq<u8>) {
        lemma_auto_spec_u32_to_from_le_bytes();
        lemma_rt_i32(v, rest);
    }

    fn write1(&self, out: &mut Vec<u8>) {
        write_i32(out, *self);
    }

    fn read1(buf: &[u8], pos: usize) -> (r: Option<(i32, usize)>) {
        read_i32(buf, pos)
    }
}

impl Wire for bool {
    open spec fn enc1(v: bool) -> Seq<u8> {
        enc_bool(v)
    }

    open spec fn dec1(b: Seq<u8>) -> Option<(bool, int)> {
        dec_bool(b)
    }

    open spec fn wf1(v: bool) -> bool {
        true
    }

    proof fn lemma_rt1(v: bool, rest: Seq<u8>) {
        lemma_rt_bool(v, rest);
    }

    fn write1(&self, out: &mut Vec<u8>) {
        write_bool(out, *self);
    }

    fn read1(buf: &[u8], pos: usize) -> (r: Option<(bool, usize)>) {
        read_bool(buf, pos)
    }
}

impl Wire for String {
    open spec fn enc1(v: Seq<char>) -> Seq<u8> {
        enc_str(v)
    }

    open spec fn dec1(b: Seq<u8>) -> Option<(Seq<char>, int)> {
        dec_str(b)
    }

    open spec fn wf1(v: Seq<char>) -> bool {
        str_fits(v)
    }

    proof fn lemma_rt1(v: Seq<char>, rest: Seq<u8>) {
        lemma_rt_str(v, rest);
    }

    fn write1(&self, out: &mut Vec<u8>) {
        write_str(out, self.as_str());
    }

    fn read1(buf: &[u8], pos: usize) -> (r: Option<(String, usize)>) {
        read_str(buf, pos)
    }
}

impl<V: Wire> Wire for (i32, V) {
    open spec fn enc1(p: (i32, V::V)) -> Seq<u8> {
        enc_i32(p.0) + V::enc1(p.1)
    }

    open spec fn dec1(b: Seq<u8>) -> Option<((i32, V::V), int)> {
        match dec_i32(b) {
            None => None,
            Some((id, c1)) => match V::dec1(b.skip(c1)) {
                None => None,
                Some((v, c2)) => Some(((id, v), c1 + c2)),
            },
        }
    }

    open spec fn wf1(p: (i32, V::V)) -> bool {
        V::wf1(p.1)
    }

    proof fn lemma_rt1(p: (i32, V::V), rest: Seq<u8>) {
        lemma_auto_spec_u32_to_from_le_bytes();
        let e0 = enc_i32(p.0);
        let e1 = V::enc1(p.1);
        lemma_rt_i32(p.0, e1 + rest);
        assert(Self::enc1(p) + rest =~= e0 + (e1 + rest));
        V::lemma_rt1(p.1, rest);
        assert((e0 + (e1 + rest)).skip(4) =~= e1 + rest);
    }

    fn write1(&self, out: &mut Vec<u8>) {
        write_i32(out, self.0);
        self.1.write1(out);
        assert(final(out)@ =~= old(out)@ + Self::enc1(self@));
    }

    fn read1(buf: &[u8], pos: usize) -> (r: Option<((i32, V), usize)>) {
        match read_i32(buf, pos) {
            None => None,
            Some((id, p1)) => {
                match V::read1(buf, p1) {
                    None => {
                        proof {
                            assert(buf@.skip(pos as int).skip(4) =~= buf@.skip(p1 as int));
                        }
                        None
                    },
                    Some((v, p2)) => {
                        proof {
                            assert(buf@.skip(pos as int).skip(4) =~= buf@.skip(p1 as int));
                        }
                        Some(((id, v), p2))
                    },
                }
            },
        }
    }
}

} // verus!

verus! {

// ---------------------------------------------------------------------------
// Length-prefixed lists
// ---------------------------------------------------------------------------

/// Encoding of the elements of a list, in order, without the count.
pub open spec fn enc_list_elems<E: Wire>(s: Seq<E::V>) -> Seq<u8>
    decreases s.len(),
{
    if s.len() == 0 {
        Seq::empty()
    } else {
        E::enc1(s[0]) + enc_list_elems::<E>(s.skip(1))
    }
}

/// Encoding of a list: the element count, then the elements.
pub open spec fn enc_list<E: Wire>(s: Seq<E::V>) -> Seq<u8> {
    enc_u64(s.len() as u64) + enc_list_elems::<E>(s)
}

/// Decoder for exactly `n` list elements.
pub open spec fn dec_list_elems<E: Wire>(b: Seq<u8>, n: nat) -> Option<(Seq<E::V>, int)>
    decreases n,
{
    if n == 0 {
        Some((Seq::empty(), 0int))
    } else {
        match E::dec1(b) {
            None => None,
            Some((v, c1)) => match dec_list_elems::<E>(b.skip(c1), (n - 1) as nat) {
                None => None,
                Some((s, c2)) => Some((seq![v] + s, c1 + c2)),
            },
        }
    }
}

/// Decoder for a list.
pub open spec fn dec_list<E: Wire>(b: Seq<u8>) -> Option<(Seq<E::V>, int)> {
    match dec_u64(b) {
        None => None,
        Some((n, _)) => match dec_list_elems::<E>(b.skip(8), n as nat) {
            None => None,
            Some((s, c)) => Some((s, 8 + c)),
        },
    }
}

/// What a list must satisfy to be encodable.
pub open spec fn wf_list<E: Wire>(s: Seq<E::V>) -> bool {
    s.len() <= u64::MAX && (forall|i: int| 0 <= i < s.len() ==> E::wf1(#[trigger] s[i]))
}

/// Appending one element extends the element encoding at the end.
pub proof fn lemma_enc_list_elems_snoc<E: Wire>(s: Seq<E::V>, v: E::V)
    ensures
        enc_list_elems::<E>(s.push(v)) == enc_list_elems::<E>(s) + E::enc1(v),
    decreases s.len(),
{
    if s.len() == 0 {
        assert(s.push(v)[0] == v);
        assert(s.push(v).skip(1) =~= Seq::<E::V>::empty());
        assert(enc_list_elems::<E>(s.push(v)) == E::enc1(v) + enc_list_elems::<E>(
            s.push(v).skip(1),
        ));
        assert(enc_list_elems::<E>(s.push(v).skip(1)) == Seq::<u8>::empty());
        assert(enc_list_elems::<E>(s) == Seq::<u8>::empty());
        assert(E::enc1(v) + Seq::<u8>::empty() =~= Seq::<u8>::empty() + E::enc1(v));
    } else {
        lemma_enc_list_elems_snoc::<E>(s.skip(1), v);
        assert(s.push(v)[0] == s[0]);
        assert(s.push(v).skip(1) =~= s.skip(1).push(v));
        assert(enc_list_elems::<E>(s.push(v)) == E::enc1(s[0]) + enc_list_elems::<E>(
            s.skip(1).push(v),
        ));
        assert(enc_list_elems::<E>(s.skip(1).push(v)) == enc_list_elems::<E>(s.skip(1))
            + E::enc1(v));
        assert(E::enc1(s[0]) + (enc_list_elems::<E>(s.skip(1)) + E::enc1(v)) =~= (E::enc1(s[0])
            + enc_list_elems::<E>(s.skip(1))) + E::enc1(v));
    }
}

/// Round trip for the elements of a list.
pub proof fn lemma_rt_list_elems<E: Wire>(s: Seq<E::V>, rest: Seq<u8>)
    requires
        forall|i: int| 0 <= i < s.len() ==> E::wf1(#[trigger] s[i]),
    ensures
        dec_list_elems::<E>(enc_list_elems::<E>(s) + rest, s.len() as nat) == Some(
            (s, enc_list_elems::<E>(s).len() as int),
        ),
    decreases s.len(),
{
    if s.len() == 0 {
        assert(s =~= Seq::<E::V>::empty());
    } else {
        let e0 = E::enc1(s[0]);
        let tail = enc_list_elems::<E>(s.skip(1));
        E::lemma_rt1(s[0], tail + rest);
        assert(enc_list_elems::<E>(s) + rest =~= e0 + (tail + rest));
        assert((e0 + (tail + rest)).skip(e0.len() as int) =~= tail + rest);
        lemma_rt_list_elems::<E>(s.skip(1), rest);
        assert(seq![s[0]] + s.skip(1) =~= s);
    }
}

/// Round trip for a whole list.
pub proof fn lemma_rt_list<E: Wire>(s: Seq<E::V>, rest: Seq<u8>)
    requires
        wf_list::<E>(s),
    ensures
        dec_list::<E>(enc_list::<E>(s) + rest) == Some((s, enc_list::<E>(s).len() as int)),
{
    let elems = enc_list_elems::<E>(s);
    lemma_auto_spec_u64_to_from_le_bytes();
    lemma_rt_u64(s.len() as u64, elems + rest);
    assert(enc_list::<E>(s) + rest =~= enc_u64(s.len() as u64) + (elems + rest));
    assert((enc_list::<E>(s) + rest).skip(8) =~= elems + rest);
    lemma_rt_list_elems::<E>(s, rest);
}

/// Append the encoding of a whole list.
#[verifier::loop_isolation(false)]
pub fn write_list<E: Wire>(out: &mut Vec<u8>, items: &Vec<E>)
    ensures
        final(out)@ == old(out)@ + enc_list::<E>(seq_view(items@)),
        wf_list::<E>(seq_view(items@)),
{
    let ghost v = seq_view(items@);
    write_u64(out, items.len() as u64);
    let n = items.len();
    let mut i: usize = 0;
    while i < n
        invariant
            0 <= i <= n,
            out@ == old(out)@ + enc_u64(n as u64) + enc_list_elems::<E>(v.take(i as int)),
            forall|j: int| 0 <= j < i ==> E::wf1(#[trigger] v[j]),
        decreases n - i,
    {
        assert(v.take(i as int).push(v[i as int]) =~= v.take(i as int + 1));
        proof {
            lemma_enc_list_elems_snoc::<E>(v.take(i as int), v[i as int]);
        }
        (&items[i]).write1(out);
        assert(out@ =~= old(out)@ + enc_u64(n as u64) + enc_list_elems::<E>(
            v.take(i as int + 1),
        ));
        i = i + 1;
    }
    assert(v.take(n as int) =~= v);
    assert(final(out)@ =~= old(out)@ + enc_list::<E>(v));
}

/// One unfolding step of [`dec_list_elems`], for the reader's loop proof.
proof fn lemma_dec_list_elems_step<E: Wire>(b: Seq<u8>, n: nat)
    requires
        n > 0,
    ensures
        dec_list_elems::<E>(b, n) == (match E::dec1(b) {
            None => None,
            Some((v, c1)) => match dec_list_elems::<E>(b.skip(c1), (n - 1) as nat) {
                None => None::<(Seq<E::V>, int)>,
                Some((s, c2)) => Some((seq![v] + s, c1 + c2)),
            },
        }),
{
}

/// Read a whole list at `pos`; behaves exactly as [`dec_list`].
#[verifier::loop_isolation(false)]
pub fn read_list<E: Wire>(buf: &[u8], pos: usize) -> (r: Option<(Vec<E>, usize)>)
    requires
        pos <= buf@.len(),
    ensures
        match r {
            Some((v, q)) => pos <= q <= buf@.len() && dec_list::<E>(buf@.skip(pos as int))
                == Some((seq_view(v@), (q - pos) as int)) && wf_list::<E>(seq_view(v@)),
            None => dec_list::<E>(buf@.skip(pos as int)) is None,
        },
{
    match read_u64(buf, pos) {
        None => None,
        Some((n64, start)) => {
            let mut acc: Vec<E> = Vec::new();
            let mut cur: usize = start;
            let mut i: u64 = 0;
            loop
                invariant
                    i <= n64,
                    start <= cur <= buf@.len(),
                    i <= acc@.len() && acc@.len() == i,
                    forall|j: int| 0 <= j < acc@.len() ==> E::wf1(#[trigger] seq_view(acc@)[j]),
                    match dec_list_elems::<E>(buf@.skip(cur as int), (n64 - i) as nat) {
                        None => dec_list_elems::<E>(
                            buf@.skip(start as int),
                            n64 as nat,
                        ) is None,
                        Some((s2, c2)) => dec_list_elems::<E>(buf@.skip(start as int), n64 as nat)
                            == Some((seq_view(acc@) + s2, (cur - start) + c2)),
                    },
                decreases n64 - i,
            {
                if i == n64 {
                    break ;
                }
                proof {
                    lemma_dec_list_elems_step::<E>(buf@.skip(cur as int), (n64 - i) as nat);
                }
                match E::read1(buf, cur) {
                    None => {
                        proof {
                            assert(buf@.skip(pos as int).skip(8) =~= buf@.skip(start as int));
                        }
                        return None;
                    },
                    Some((v, q)) => {
                        proof {
                            assert(buf@.skip(cur as int).skip((q - cur) as int) =~= buf@.skip(
                                q as int,
                            ));
                        }
                        let ghost acc0 = acc@;
                        acc.push(v);
                        proof {
                            assert(seq_view(acc@) =~= seq_view(acc0).push(v@));
                            let d = dec_list_elems::<E>(buf@.skip(q as int), (n64 - i - 1) as nat);
                            if d is Some {
                                let s3 = d.unwrap().0;
                                assert(seq_view(acc0) + (seq![v@] + s3) =~= seq_view(acc@) + s3);
                            }
                        }
                        cur = q;
                        i = i + 1;
                    },
                }
            }
            assert(seq_view(acc@) + Seq::<E::V>::empty() =~= seq_view(acc@));
            assert(buf@.skip(pos as int).skip(8) =~= buf@.skip(start as int));
            Some((acc, cur))
        },
    }
}

} // verus!

use crate::idmap::{
    distinct_keys, fold_insert, lemma_fold_insert_distinct, lemma_fold_insert_wf, pairs_view,
    IdMap,
};
use crate::types::{DtasmVarValues, LogLevel, Status, VarValuesView};

verus! {

// ---------------------------------------------------------------------------
// Enumerations on the wire
// ---------------------------------------------------------------------------

/// Wire tag of a status.
pub open spec fn status_tag(s: Status) -> u8 {
    match s {
        Status::OK => 0u8,
        Status::Warning => 1u8,
        Status::Discard => 2u8,
        Status::Error => 3u8,
    }
}

/// Status denoted by a wire tag; an unknown tag is read as `Error`.
pub open spec fn status_of_tag(t: u8) -> Status {
    if t == 0 {
        Status::OK
    } else if t == 1 {
        Status::Warning
    } else if t == 2 {
        Status::Discard
    } else {
        Status::Error
    }
}

/// Encoding of a status: one tag byte.
pub open spec fn enc_status(s: Status) -> Seq<u8> {
    seq![status_tag(s)]
}

/// Decoder for a status.
pub open spec fn dec_status(b: Seq<u8>) -> Option<(Status, int)> {
    match dec_u8(b) {
        None => None,
        Some((t, c)) => Some((status_of_tag(t), c)),
    }
}

/// Decoding an encoded status yields it back.
pub proof fn lemma_rt_status(s: Status, rest: Seq<u8>)
    ensures
        dec_status(enc_status(s) + rest) == Some((s, 1int)),
{
    lemma_rt_u8(status_tag(s), rest);
}

/// Append a status tag.
pub fn write_status(out: &mut Vec<u8>, s: Status)
    ensures
        final(out)@ == old(out)@ + enc_status(s),
{
    let t: u8 = match s {
        Status::OK => 0,
        Status::Warning => 1,
        Status::Discard => 2,
        Status::Error => 3,
    };
    write_u8(out, t);
}

/// Read a status at `pos`; behaves exactly as [`dec_status`].
pub fn read_status(buf: &[u8], pos: usize) -> (r: Option<(Status, usize)>)
    requires
        pos <= buf@.len(),
    ensures
        match r {
            Some((v, q)) => pos <= q <= buf@.len() && dec_status(buf@.skip(pos as int)) == Some(
                (v, (q - pos) as int),
            ),
            None => dec_status(buf@.skip(pos as int)) is None,
        },
{
    match read_u8(buf, pos) {
        None => None,
        Some((t, q)) => {
            let s = if t == 0 {
                Status::OK
            } else if t == 1 {
                Status::Warning
            } else if t == 2 {
                Status::Discard
            } else {
                Status::Error
            };
            Some((s, q))
        },
    }
}

/// Wire tag of a log level.
pub open spec fn log_level_tag(l: LogLevel) -> u8 {
    match l {
        LogLevel::Info => 0u8,
        LogLevel::Warn => 1u8,
        LogLevel::Error => 2u8,
    }
}

/// Log level denoted by a wire tag; an unknown tag is read as `Error`.
pub open spec fn log_level_of_tag(t: u8) -> LogLevel {
    if t == 0 {
        LogLevel::Info
    } else if t == 1 {
        LogLevel::Warn
    } else {
        LogLevel::Error
    }
}

/// Encoding of a log level: one tag byte.
pub open spec fn enc_log_level(l: LogLevel) -> Seq<u8> {
    seq![log_level_tag(l)]
}

/// Decoder for a log level.
pub open spec fn dec_log_level(b: Seq<u8>) -> Option<(LogLevel, int)> {
    match dec_u8(b) {
        None => None,
        Some((t, c)) => Some((log_level_of_tag(t), c)),
    }
}

/// Decoding an encoded log level yields it back.
pub proof fn lemma_rt_log_level(l: LogLevel, rest: Seq<u8>)
    ensures
        dec_log_level(enc_log_level(l) + rest) == Some((l, 1int)),
{
    lemma_rt_u8(log_level_tag(l), rest);
}

/// Append a log-level tag.
pub fn write_log_level(out: &mut Vec<u8>, l: LogLevel)
    ensures
        final(out)@ == old(out)@ + enc_log_level(l),
{
    let t: u8 = match l {
        LogLevel::Info => 0,
        LogLevel::Warn => 1,
        LogLevel::Error => 2,
    };
    write_u8(out, t);
}

/// Read a log level at `pos`; behaves exactly as [`dec_log_level`].
pub fn read_log_level(buf: &[u8], pos: usize) -> (r: Option<(LogLevel, usize)>)
    requires
        pos <= buf@.len(),
    ensures
        match r {
            Some((v, q)) => pos <= q <= buf@.len() && dec_log_level(buf@.skip(pos as int))
                == Some((v, (q - pos) as int)),
            None => dec_log_level(buf@.skip(pos as int)) is None,
        },
{
    match read_u8(buf, pos) {
        None => None,
        Some((t, q)) => {
            let l = if t == 0 {
                LogLevel::Info
            } else if t == 1 {
                LogLevel::Warn
            } else {
                LogLevel::Error
            };
            Some((l, q))
        },
    }
}

// ---------------------------------------------------------------------------
// Value bundles
// ---------------------------------------------------------------------------

/// Encoding of a value bundle: the four typed pair lists, in a fixed order.
pub open spec fn enc_var_values(v: VarValuesView) -> Seq<u8> {
    enc_list::<(i32, u64)>(v.reals) + enc_list::<(i32, i32)>(v.ints) + enc_list::<(i32, bool)>(
        v.bools,
    ) + enc_list::<(i32, String)>(v.strings)
}

/// Decoder for a value bundle; yields the raw pair sequences as decoded,
/// duplicates included.
pub open spec fn dec_var_values(b: Seq<u8>) -> Option<(VarValuesView, int)> {
    match dec_list::<(i32, u64)>(b) {
        None => None,
        Some((reals, c1)) => match dec_list::<(i32, i32)>(b.skip(c1)) {
            None => None,
            Some((ints, c2)) => match dec_list::<(i32, bool)>(b.skip(c1 + c2)) {
                None => None,
                Some((bools, c3)) => match dec_list::<(i32, String)>(b.skip(c1 + c2 + c3)) {
                    None => None,
                    Some((strings, c4)) => Some(
                        (VarValuesView { reals, ints, bools, strings }, c1 + c2 + c3 + c4),
                    ),
                },
            },
        },
    }
}

/// What a value bundle must satisfy to be encodable.
pub open spec fn wf_vv_enc(v: VarValuesView) -> bool {
    &&& wf_list::<(i32, u64)>(v.reals)
    &&& wf_list::<(i32, i32)>(v.ints)
    &&& wf_list::<(i32, bool)>(v.bools)
    &&& wf_list::<(i32, String)>(v.strings)
}

/// Key uniqueness in all four raw sequences.
pub open spec fn vv_distinct(v: VarValuesView) -> bool {
    &&& distinct_keys(v.reals)
    &&& distinct_keys(v.ints)
    &&& distinct_keys(v.bools)
    &&& distinct_keys(v.strings)
}

/// Last-wins folding of the raw sequences, as a bundle is rebuilt from them.
pub open spec fn folded(v: VarValuesView) -> VarValuesView {
    VarValuesView {
        reals: fold_insert(v.reals),
        ints: fold_insert(v.ints),
        bools: fold_insert(v.bools),
        strings: fold_insert(v.strings),
    }
}

/// Folding a duplicate-free bundle reproduces it unchanged.
pub proof fn lemma_folded_distinct(v: VarValuesView)
    requires
        vv_distinct(v),
    ensures
        folded(v) == v,
{
    lemma_fold_insert_distinct(v.reals);
    lemma_fold_insert_distinct(v.ints);
    lemma_fold_insert_distinct(v.bools);
    lemma_fold_insert_distinct(v.strings);
}

/// Element and pair views of the same pair sequence agree.
pub proof fn lemma_views_agree<V: View>(s: Seq<(i32, V)>)
    ensures
        seq_view(s) == pairs_view(s),
{
    assert(seq_view(s) =~= pairs_view(s));
}

/// Decoding an encoded value bundle yields it back, raw.
pub proof fn lemma_rt_var_values(v: VarValuesView, rest: Seq<u8>)
    requires
        wf_vv_enc(v),
    ensures
        dec_var_values(enc_var_values(v) + rest) == Some((v, enc_var_values(v).len() as int)),
{
    let e1 = enc_list::<(i32, u64)>(v.reals);
    let e2 = enc_list::<(i32, i32)>(v.ints);
    let e3 = enc_list::<(i32, bool)>(v.bools);
    let e4 = enc_list::<(i32, String)>(v.strings);
    let s4 = e4 + rest;
    let s3 = e3 + s4;
    let s2 = e2 + s3;
    let b = enc_var_values(v) + rest;
    assert(b =~= e1 + s2);
    lemma_rt_list::<(i32, u64)>(v.reals, s2);
    assert(b.skip(e1.len() as int) =~= s2);
    lemma_rt_list::<(i32, i32)>(v.ints, s3);
    assert(s2.skip(e2.len() as int) =~= s3);
    lemma_rt_list::<(i32, bool)>(v.bools, s4);
    assert(s3.skip(e3.len() as int) =~= s4);
    lemma_rt_list::<(i32, String)>(v.strings, rest);
    assert(b.skip(e1.len() + e2.len() as int) =~= s3);
    assert(b.skip(e1.len() + e2.len() + e3.len() as int) =~= s4);
}

/// Append the encoding of a value bundle.
pub fn write_var_values(out: &mut Vec<u8>, vv: &DtasmVarValues)
    ensures
        final(out)@ == old(out)@ + enc_var_values(vv@),
        wf_vv_enc(vv@),
{
    let reals = vv.real_values.entries();
    let ints = vv.int_values.entries();
    let bools = vv.bool_values.entries();
    let strings = vv.string_values.entries();
    proof {
        lemma_views_agree::<u64>(reals@);
        lemma_views_agree::<i32>(ints@);
        lemma_views_agree::<bool>(bools@);
        lemma_views_agree::<String>(strings@);
    }
    write_list::<(i32, u64)>(out, reals);
    write_list::<(i32, i32)>(out, ints);
    write_list::<(i32, bool)>(out, bools);
    write_list::<(i32, String)>(out, strings);
    assert(final(out)@ =~= old(out)@ + enc_var_values(vv@));
}

/// Read a value bundle at `pos`; behaves exactly as [`dec_var_values`],
/// rebuilding the maps with later bindings replacing earlier ones.
pub fn read_var_values(buf: &[u8], pos: usize) -> (r: Option<(DtasmVarValues, usize)>)
    requires
        pos <= buf@.len(),
    ensures
        match r {
            Some((vv, q)) => pos <= q <= buf@.len() && vv.wf() && match dec_var_values(
                buf@.skip(pos as int),
            ) {
                Some((raw, c)) => c == q - pos && vv@ == folded(raw),
                None => false,
            },
            None => dec_var_values(buf@.skip(pos as int)) is None,
        },
{
    let ghost b = buf@.skip(pos as int);
    match read_list::<(i32, u64)>(buf, pos) {
        None => None,
        Some((reals, p1)) => {
            proof {
                assert(b.skip((p1 - pos) as int) =~= buf@.skip(p1 as int));
            }
            match read_list::<(i32, i32)>(buf, p1) {
                None => None,
                Some((ints, p2)) => {
                    proof {
                        assert(b.skip((p2 - pos) as int) =~= buf@.skip(p2 as int));
                    }
                    match read_list::<(i32, bool)>(buf, p2) {
                        None => None,
                        Some((bools, p3)) => {
                            proof {
                                assert(b.skip((p3 - pos) as int) =~= buf@.skip(p3 as int));
                            }
                            match read_list::<(i32, String)>(buf, p3) {
                                None => None,
                                Some((strings, p4)) => {
                                    proof {
                                        lemma_views_agree::<u64>(reals@);
                                        lemma_views_agree::<i32>(ints@);
                                        lemma_views_agree::<bool>(bools@);
                                        lemma_views_agree::<String>(strings@);
                                        lemma_fold_insert_wf(pairs_view(reals@));
                                        lemma_fold_insert_wf(pairs_view(ints@));
                                        lemma_fold_insert_wf(pairs_view(bools@));
                                        lemma_fold_insert_wf(pairs_view(strings@));
                                    }
                                    let vv = DtasmVarValues {
                                        real_values: IdMap::from_entries(reals),
                                        int_values: IdMap::from_entries(ints),
                                        bool_values: IdMap::from_entries(bools),
                                        string_values: IdMap::from_entries(strings),
                                    };
                                    Some((vv, p4))
                                },
                            }
                        },
                    }
                },
            }
        },
    }
}

} // verus!

verus! {

// ---------------------------------------------------------------------------
// Request messages
// ---------------------------------------------------------------------------

/// The decoded initialization request.
pub struct InitReq {
    pub model_id: String,
    pub starttime: u64,
    pub endtime: u64,
    pub endtime_set: bool,
    pub tolerance: u64,
    pub tolerance_set: bool,
    pub loglevel_limit: LogLevel,
    pub check_consistency: bool,
    pub init_values: DtasmVarValues,
}

/// Ghost form of an initialization request.
pub struct InitReqView {
    pub model_id: Seq<char>,
    pub starttime: u64,
    pub endtime: u64,
    pub endtime_set: bool,
    pub tolerance: u64,
    pub tolerance_set: bool,
    pub loglevel_limit: LogLevel,
    pub check_consistency: bool,
    pub init_values: VarValuesView,
}

impl View for InitReq {
    type V = InitReqView;

    open spec fn view(&self) -> InitReqView {
        InitReqView {
            model_id: self.model_id@,
            starttime: self.starttime,
            endtime: self.endtime,
            endtime_set: self.endtime_set,
            tolerance: self.tolerance,
            tolerance_set: self.tolerance_set,
            loglevel_limit: self.loglevel_limit,
            check_consistency: self.check_consistency,
            init_values: self.init_values@,
        }
    }
}

/// Encoding of an initialization request.
pub open spec fn enc_init_req(v: InitReqView) -> Seq<u8> {
    enc_str(v.model_id) + enc_u64(v.starttime) + enc_u64(v.endtime) + enc_bool(v.endtime_set)
        + enc_u64(v.tolerance) + enc_bool(v.tolerance_set) + enc_log_level(v.loglevel_limit)
        + enc_bool(v.check_consistency) + enc_var_values(v.init_values)
}

/// Decoder for an initialization request; the bundle is raw.
pub open spec fn dec_init_req(b: Seq<u8>) -> Option<(InitReqView, int)> {
    match dec_str(b) {
        None => None,
        Some((model_id, c1)) => match dec_u64(b.skip(c1)) {
            None => None,
            Some((starttime, _)) => match dec_u64(b.skip(c1 + 8)) {
                None => None,
                Some((endtime, _)) => match dec_bool(b.skip(c1 + 16)) {
                    None => None,
                    Some((endtime_set, _)) => match dec_u64(b.skip(c1 + 17)) {
                        None => None,
                        Some((tolerance, _)) => match dec_bool(b.skip(c1 + 25)) {
                            None => None,
                            Some((tolerance_set, _)) => match dec_log_level(b.skip(c1 + 26)) {
                                None => None,
                                Some((loglevel_limit, _)) => match dec_bool(b.skip(c1 + 27)) {
                                    None => None,
                                    Some((check_consistency, _)) => match dec_var_values(
                                        b.skip(c1 + 28),
                                    ) {
                                        None => None,
                                        Some((init_values, c9)) => Some(
                                            (
                                                InitReqView {
                                                    model_id,
                                                    starttime,
                                                    endtime,
                                                    endtime_set,
                                                    tolerance,
                                                    tolerance_set,
                                                    loglevel_limit,
                                                    check_consistency,
                                                    init_values,
                                                },
                                                c1 + 28 + c9,
                                            ),
                                        ),
                                    },
                                },
                            },
                        },
                    },
                },
            },
        },
    }
}

/// What an initialization request must satisfy to be encodable.
pub open spec fn wf_init_req(v: InitReqView) -> bool {
    str_fits(v.model_id) && wf_vv_enc(v.init_values)
}

/// Skipping in two steps is skipping once.
pub proof fn lemma_skip_skip<T>(b: Seq<T>, i: int, j: int)
    requires
        0 <= i,
        0 <= j,
        i + j <= b.len(),
    ensures
        b.skip(i + j) == b.skip(i).skip(j),
{
    assert(b.skip(i + j) =~= b.skip(i).skip(j));
}

/// Skipping a whole leading chunk leaves the rest.
pub proof fn lemma_concat_skip<T>(x: Seq<T>, y: Seq<T>)
    ensures
        (x + y).skip(x.len() as int) == y,
{
    assert((x + y).skip(x.len() as int) =~= y);
}

/// Decoding an encoded initialization request yields it back, raw.
#[verifier::rlimit(100)]
pub proof fn lemma_rt_init_req(v: InitReqView, rest: Seq<u8>)
    requires
        wf_init_req(v),
    ensures
        dec_init_req(enc_init_req(v) + rest) == Some((v, enc_init_req(v).len() as int)),
{
    lemma_auto_spec_u64_to_from_le_bytes();
    let e1 = enc_str(v.model_id);
    let e9 = enc_var_values(v.init_values);
    let s9 = e9 + rest;
    let s8 = enc_bool(v.check_consistency) + s9;
    let s7 = enc_log_level(v.loglevel_limit) + s8;
    let s6 = enc_bool(v.tolerance_set) + s7;
    let s5 = enc_u64(v.tolerance) + s6;
    let s4 = enc_bool(v.endtime_set) + s5;
    let s3 = enc_u64(v.endtime) + s4;
    let s2 = enc_u64(v.starttime) + s3;
    let b = enc_init_req(v) + rest;
    let c1 = e1.len() as int;
    assert(b =~= e1 + s2);
    lemma_rt_str(v.model_id, s2);
    lemma_concat_skip(e1, s2);
    assert(b.skip(c1) == s2);
    lemma_rt_u64(v.starttime, s3);
    lemma_concat_skip(enc_u64(v.starttime), s3);
    lemma_skip_skip(b, c1, 8);
    assert(b.skip(c1 + 8) == s3);
    lemma_rt_u64(v.endtime, s4);
    lemma_concat_skip(enc_u64(v.endtime), s4);
    lemma_skip_skip(b, c1 + 8, 8);
    assert(b.skip(c1 + 16) == s4);
    lemma_rt_bool(v.endtime_set, s5);
    lemma_concat_skip(enc_bool(v.endtime_set), s5);
    lemma_skip_skip(b, c1 + 16, 1);
    assert(b.skip(c1 + 17) == s5);
    lemma_rt_u64(v.tolerance, s6);
    lemma_concat_skip(enc_u64(v.tolerance), s6);
    lemma_skip_skip(b, c1 + 17, 8);
    assert(b.skip(c1 + 25) == s6);
    lemma_rt_bool(v.tolerance_set, s7);
    lemma_concat_skip(enc_bool(v.tolerance_set), s7);
    lemma_skip_skip(b, c1 + 25, 1);
    assert(b.skip(c1 + 26) == s7);
    lemma_rt_log_level(v.loglevel_limit, s8);
    lemma_concat_skip(enc_log_level(v.loglevel_limit), s8);
    lemma_skip_skip(b, c1 + 26, 1);
    assert(b.skip(c1 + 27) == s8);
    lemma_rt_bool(v.check_consistency, s9);
    lemma_concat_skip(enc_bool(v.check_consistency), s9);
    lemma_skip_skip(b, c1 + 27, 1);
    assert(b.skip(c1 + 28) == s9);
    lemma_rt_var_values(v.init_values, rest);
}

/// Append the encoding of an initialization request.
pub fn write_init_req(out: &mut Vec<u8>, req: &InitReq)
    ensures
        final(out)@ == old(out)@ + enc_init_req(req@),
        wf_init_req(req@),
{
    write_str(out, req.model_id.as_str());
    write_u64(out, req.starttime);
    write_u64(out, req.endtime);
    write_bool(out, req.endtime_set);
    write_u64(out, req.tolerance);
    write_bool(out, req.tolerance_set);
    write_log_level(out, req.loglevel_limit);
    write_bool(out, req.check_consistency);
    write_var_values(out, &req.init_values);
    assert(final(out)@ =~= old(out)@ + enc_init_req(req@));
}

/// Read an initialization request at `pos`; behaves exactly as
/// [`dec_init_req`], with the bundle folded last-wins.
pub fn read_init_req(buf: &[u8], pos: usize) -> (r: Option<(InitReq, usize)>)
    requires
        pos <= buf@.len(),
    ensures
        match r {
            Some((v, q)) => pos <= q <= buf@.len() && v.init_values.wf() && match dec_init_req(
                buf@.skip(pos as int),
            ) {
                Some((raw, c)) => c == q - pos && v@ == (InitReqView {
                    init_values: folded(raw.init_values),
                    ..raw
                }),
                None => false,
            },
            None => dec_init_req(buf@.skip(pos as int)) is None,
        },
{
    let ghost b = buf@.skip(pos as int);
    let r1 = read_str(buf, pos);
    if r1.is_none() {
        return None;
    }
    let (model_id, p1) = r1.unwrap();
    proof {
        assert(b.skip((p1 - pos) as int) =~= buf@.skip(p1 as int));
    }
    let r2 = read_u64(buf, p1);
    if r2.is_none() {
        return None;
    }
    let (starttime, p2) = r2.unwrap();
    proof {
        assert(b.skip((p2 - pos) as int) =~= buf@.skip(p2 as int));
    }
    let r3 = read_u64(buf, p2);
    if r3.is_none() {
        return None;
    }
    let (endtime, p3) = r3.unwrap();
    proof {
        assert(b.skip((p3 - pos) as int) =~= buf@.skip(p3 as int));
    }
    let r4 = read_bool(buf, p3);
    if r4.is_none() {
        return None;
    }
    let (endtime_set, p4) = r4.unwrap();
    proof {
        assert(b.skip((p4 - pos) as int) =~= buf@.skip(p4 as int));
    }
    let r5 = read_u64(buf, p4);
    if r5.is_none() {
        return None;
    }
    let (tolerance, p5) = r5.unwrap();
    proof {
        assert(b.skip((p5 - pos) as int) =~= buf@.skip(p5 as int));
    }
    let r6 = read_bool(buf, p5);
    if r6.is_none() {
        return None;
    }
    let (tolerance_set, p6) = r6.unwrap();
    proof {
        assert(b.skip((p6 - pos) as int) =~= buf@.skip(p6 as int));
    }
    let r7 = read_log_level(buf, p6);
    if r7.is_none() {
        return None;
    }
    let (loglevel_limit, p7) = r7.unwrap();
    proof {
        assert(b.skip((p7 - pos) as int) =~= buf@.skip(p7 as int));
    }
    let r8 = read_bool(buf, p7);
    if r8.is_none() {
        return None;
    }
    let (check_consistency, p8) = r8.unwrap();
    proof {
        assert(b.skip((p8 - pos) as int) =~= buf@.skip(p8 as int));
    }
    let r9 = read_var_values(buf, p8);
    if r9.is_none() {
        return None;
    }
    let (init_values, p9) = r9.unwrap();
    Some(
        (
            InitReq {
                model_id,
                starttime,
                endtime,
                endtime_set,
                tolerance,
                tolerance_set,
                loglevel_limit,
                check_consistency,
                init_values,
            },
            p9,
        ),
    )
}

/// Encoding of a request for current values: the ordered id list.
pub open spec fn enc_get_values_req(ids: Seq<i32>) -> Seq<u8> {
    enc_list::<i32>(ids)
}

/// Decoder for a request for current values.
pub open spec fn dec_get_values_req(b: Seq<u8>) -> Option<(Seq<i32>, int)> {
    dec_list::<i32>(b)
}

/// Decoding an encoded id list yields it back.
pub proof fn lemma_rt_get_values_req(ids: Seq<i32>, rest: Seq<u8>)
    requires
        ids.len() <= u64::MAX,
    ensures
        dec_get_values_req(enc_get_values_req(ids) + rest) == Some(
            (ids, enc_get_values_req(ids).len() as int),
        ),
{
    lemma_rt_list::<i32>(ids, rest);
}

/// The id list is its own element view.
pub proof fn lemma_i32_seq_view(s: Seq<i32>)
    ensures
        seq_view(s) == s,
{
    assert(seq_view(s) =~= s);
}

/// Append the encoding of a request for current values.
pub fn write_get_values_req(out: &mut Vec<u8>, ids: &Vec<i32>)
    ensures
        final(out)@ == old(out)@ + enc_get_values_req(ids@),
{
    proof {
        lemma_i32_seq_view(ids@);
    }
    write_list::<i32>(out, ids);
}

/// Read a request for current values at `pos`.
pub fn read_get_values_req(buf: &[u8], pos: usize) -> (r: Option<(Vec<i32>, usize)>)
    requires
        pos <= buf@.len(),
    ensures
        match r {
            Some((v, q)) => pos <= q <= buf@.len() && dec_get_values_req(buf@.skip(pos as int))
                == Some((v@, (q - pos) as int)),
            None => dec_get_values_req(buf@.skip(pos as int)) is None,
        },
{
    match read_list::<i32>(buf, pos) {
        None => None,
        Some((v, q)) => {
            proof {
                lemma_i32_seq_view(v@);
            }
            Some((v, q))
        },
    }
}

/// Encoding of a request to set input values: one value bundle.
pub open spec fn enc_set_values_req(v: VarValuesView) -> Seq<u8> {
    enc_var_values(v)
}

/// Decoder for a request to set input values.
pub open spec fn dec_set_values_req(b: Seq<u8>) -> Option<(VarValuesView, int)> {
    dec_var_values(b)
}

/// Decoding an encoded set-values request yields it back, raw.
pub proof fn lemma_rt_set_values_req(v: VarValuesView, rest: Seq<u8>)
    requires
        wf_vv_enc(v),
    ensures
        dec_set_values_req(enc_set_values_req(v) + rest) == Some(
            (v, enc_set_values_req(v).len() as int),
        ),
{
    lemma_rt_var_values(v, rest);
}

/// Encoding of a time-step request: current time, then the step, as
/// double bits.
pub open spec fn enc_do_step_req(current_time: u64, timestep: u64) -> Seq<u8> {
    enc_u64(current_time) + enc_u64(timestep)
}

/// Decoder for a time-step request.
pub open spec fn dec_do_step_req(b: Seq<u8>) -> Option<((u64, u64), int)> {
    match dec_u64(b) {
        None => None,
        Some((ct, _)) => match dec_u64(b.skip(8)) {
            None => None,
            Some((ts, _)) => Some(((ct, ts), 16int)),
        },
    }
}

/// Decoding an encoded time-step request yields it back.
pub proof fn lemma_rt_do_step_req(current_time: u64, timestep: u64, rest: Seq<u8>)
    ensures
        dec_do_step_req(enc_do_step_req(current_time, timestep) + rest) == Some(
            ((current_time, timestep), 16int),
        ),
{
    let b = enc_do_step_req(current_time, timestep) + rest;
    lemma_auto_spec_u64_to_from_le_bytes();
    lemma_rt_u64(current_time, enc_u64(timestep) + rest);
    assert(b =~= enc_u64(current_time) + (enc_u64(timestep) + rest));
    lemma_rt_u64(timestep, rest);
    assert(b.skip(8) =~= enc_u64(timestep) + rest);
}

/// Append the encoding of a time-step request.
pub fn write_do_step_req(out: &mut Vec<u8>, current_time: u64, timestep: u64)
    ensures
        final(out)@ == old(out)@ + enc_do_step_req(current_time, timestep),
{
    write_u64(out, current_time);
    write_u64(out, timestep);
    assert(final(out)@ =~= old(out)@ + enc_do_step_req(current_time, timestep));
}

/// Read a time-step request at `pos`.
pub fn read_do_step_req(buf: &[u8], pos: usize) -> (r: Option<((u64, u64), usize)>)
    requires
        pos <= buf@.len(),
    ensures
        match r {
            Some((v, q)) => pos <= q <= buf@.len() && dec_do_step_req(buf@.skip(pos as int))
                == Some((v, (q - pos) as int)),
            None => dec_do_step_req(buf@.skip(pos as int)) is None,
        },
{
    match read_u64(buf, pos) {
        None => None,
        Some((ct, p1)) => {
            proof {
                assert(buf@.skip(pos as int).skip(8) =~= buf@.skip(p1 as int));
            }
            match read_u64(buf, p1) {
                None => None,
                Some((ts, p2)) => Some(((ct, ts), p2)),
            }
        },
    }
}

// ---------------------------------------------------------------------------
// Response messages
// ---------------------------------------------------------------------------

/// Encoding of a status-only response.
pub open spec fn enc_status_res(s: Status) -> Seq<u8> {
    enc_status(s)
}

/// Decoder for a status-only response.
pub open spec fn dec_status_res(b: Seq<u8>) -> Option<(Status, int)> {
    dec_status(b)
}

/// Decoding an encoded status response yields it back.
pub proof fn lemma_rt_status_res(s: Status, rest: Seq<u8>)
    ensures
        dec_status_res(enc_status_res(s) + rest) == Some((s, 1int)),
{
    lemma_rt_status(s, rest);
}

/// Append the encoding of a status-only response.
pub fn write_status_res(out: &mut Vec<u8>, s: Status)
    ensures
        final(out)@ == old(out)@ + enc_status_res(s),
{
    write_status(out, s);
}

/// Read a status-only response at `pos`.
pub fn read_status_res(buf: &[u8], pos: usize) -> (r: Option<(Status, usize)>)
    requires
        pos <= buf@.len(),
    ensures
        match r {
            Some((v, q)) => pos <= q <= buf@.len() && dec_status_res(buf@.skip(pos as int))
                == Some((v, (q - pos) as int)),
            None => dec_status_res(buf@.skip(pos as int)) is None,
        },
{
    read_status(buf, pos)
}

/// Encoding of a time-step response: status, then the updated time.
pub open spec fn enc_do_step_res(s: Status, updated_time: u64) -> Seq<u8> {
    enc_status(s) + enc_u64(updated_time)
}

/// Decoder for a time-step response.
pub open spec fn dec_do_step_res(b: Seq<u8>) -> Option<((Status, u64), int)> {
    match dec_status(b) {
        None => None,
        Some((s, _)) => match dec_u64(b.skip(1)) {
            None => None,
            Some((t, _)) => Some(((s, t), 9int)),
        },
    }
}

/// Decoding an encoded time-step response yields it back.
pub proof fn lemma_rt_do_step_res(s: Status, updated_time: u64, rest: Seq<u8>)
    ensures
        dec_do_step_res(enc_do_step_res(s, updated_time) + rest) == Some(
            ((s, updated_time), 9int),
        ),
{
    let b = enc_do_step_res(s, updated_time) + rest;
    lemma_rt_status(s, enc_u64(updated_time) + rest);
    assert(b =~= enc_status(s) + (enc_u64(updated_time) + rest));
    lemma_rt_u64(updated_time, rest);
    assert(b.skip(1) =~= enc_u64(updated_time) + rest);
}

/// Append the encoding of a time-step response.
pub fn write_do_step_res(out: &mut Vec<u8>, s: Status, updated_time: u64)
    ensures
        final(out)@ == old(out)@ + enc_do_step_res(s, updated_time),
{
    write_status(out, s);
    write_u64(out, updated_time);
    assert(final(out)@ =~= old(out)@ + enc_do_step_res(s, updated_time));
}

/// Read a time-step response at `pos`.
pub fn read_do_step_res(buf: &[u8], pos: usize) -> (r: Option<((Status, u64), usize)>)
    requires
        pos <= buf@.len(),
    ensures
        match r {
            Some((v, q)) => pos <= q <= buf@.len() && dec_do_step_res(buf@.skip(pos as int))
                == Some((v, (q - pos) as int)),
            None => dec_do_step_res(buf@.skip(pos as int)) is None,
        },
{
    match read_status(buf, pos) {
        None => None,
        Some((s, p1)) => {
            proof {
                assert(buf@.skip(pos as int).skip(1) =~= buf@.skip(p1 as int));
            }
            match read_u64(buf, p1) {
                None => None,
                Some((t, p2)) => Some(((s, t), p2)),
            }
        },
    }
}

/// Encoding of a get-values response: status, current time, then the
/// value bundle.
pub open spec fn enc_get_values_res(s: Status, current_time: u64, v: VarValuesView) -> Seq<u8> {
    enc_status(s) + enc_u64(current_time) + enc_var_values(v)
}

/// Decoder for a get-values response; the bundle is raw.
pub open spec fn dec_get_values_res(b: Seq<u8>) -> Option<((Status, u64, VarValuesView), int)> {
    match dec_status(b) {
        None => None,
        Some((s, _)) => match dec_u64(b.skip(1)) {
            None => None,
            Some((t, _)) => match dec_var_values(b.skip(9)) {
                None => None,
                Some((v, c)) => Some(((s, t, v), 9 + c)),
            },
        },
    }
}

/// Decoding an encoded get-values response yields it back, raw.
pub proof fn lemma_rt_get_values_res(s: Status, current_time: u64, v: VarValuesView, rest: Seq<u8>)
    requires
        wf_vv_enc(v),
    ensures
        dec_get_values_res(enc_get_values_res(s, current_time, v) + rest) == Some(
            ((s, current_time, v), enc_get_values_res(s, current_time, v).len() as int),
        ),
{
    let e3 = enc_var_values(v);
    let s3 = e3 + rest;
    let s2 = enc_u64(current_time) + s3;
    let b = enc_get_values_res(s, current_time, v) + rest;
    lemma_auto_spec_u64_to_from_le_bytes();
    lemma_rt_status(s, s2);
    assert(b =~= enc_status(s) + s2);
    lemma_rt_u64(current_time, s3);
    assert(b.skip(1) =~= s2);
    lemma_rt_var_values(v, rest);
    assert(b.skip(9) =~= s3);
}

/// Append the encoding of a get-values response.
pub fn write_get_values_res(out: &mut Vec<u8>, s: Status, current_time: u64, vv: &DtasmVarValues)
    ensures
        final(out)@ == old(out)@ + enc_get_values_res(s, current_time, vv@),
        wf_vv_enc(vv@),
{
    write_status(out, s);
    write_u64(out, current_time);
    write_var_values(out, vv);
    assert(final(out)@ =~= old(out)@ + enc_get_values_res(s, current_time, vv@));
}

/// Read a get-values response at `pos`; the bundle is folded last-wins.
pub fn read_get_values_res(buf: &[u8], pos: usize) -> (r: Option<
    ((Status, u64, DtasmVarValues), usize),
>)
    requires
        pos <= buf@.len(),
    ensures
        match r {
            Some(((s, t, vv), q)) => pos <= q <= buf@.len() && vv.wf() && match dec_get_values_res(
                buf@.skip(pos as int),
            ) {
                Some(((s2, t2, raw), c)) => s == s2 && t == t2 && c == q - pos && vv@ == folded(
                    raw,
                ),
                None => false,
            },
            None => dec_get_values_res(buf@.skip(pos as int)) is None,
        },
{
    match read_status(buf, pos) {
        None => None,
        Some((s, p1)) => {
            proof {
                assert(buf@.skip(pos as int).skip(1) =~= buf@.skip(p1 as int));
            }
            match read_u64(buf, p1) {
                None => None,
                Some((t, p2)) => {
                    proof {
                        assert(buf@.skip(pos as int).skip(9) =~= buf@.skip(p2 as int));
                    }
                    match read_var_values(buf, p2) {
                        None => None,
                        Some((vv, p3)) => Some(((s, t, vv), p3)),
                    }
                },
            }
        },
    }
}

} // verus!

verus! {

/// Round trip of a value bundle through the wire: encoding a bundle with
/// unique keys and decoding the bytes, rebuilding last-wins, yields the
/// bundle unchanged.
pub proof fn lemma_bundle_transport(v: VarValuesView, rest: Seq<u8>)
    requires
        wf_vv_enc(v),
        vv_distinct(v),
    ensures
        ({
            match dec_var_values(enc_var_values(v) + rest) {
                Some((raw, c)) => folded(raw) == v && c == enc_var_values(v).len(),
                None => false,
            }
        }),
{
    lemma_rt_var_values(v, rest);
    lemma_folded_distinct(v);
}

} // verus!
