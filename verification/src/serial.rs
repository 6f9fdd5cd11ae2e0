use crate::chunk::ChunkModel;
use crate::opcode::{
    lemma_decode_encoded_op, op_encodable, spec_decode_op_at, spec_encode_op, Opcode,
};
use crate::value::{ObjectValue, Value, ValueModel};
use vstd::bytes::{
    lemma_auto_spec_u64_to_from_le_bytes, spec_u64_from_le_bytes, spec_u64_to_le_bytes,
    u64_from_le_bytes, u64_to_le_bytes,
};
use vstd::prelude::*;
use vstd::slice::{slice_subrange, slice_to_vec};
use vstd::utf8::{
    decode_utf8, encode_utf8, encode_utf8_decode_utf8, encode_utf8_valid_utf8, valid_utf8,
};

verus! {

// ------------------------------------------------------------------
// The serialised form of a chunk:
//   one byte holding the number of constants,
//   each constant as a tag byte and its payload,
//   then the instructions, byte-encoded, to the end of the input.
// ------------------------------------------------------------------

/// The byte encoding of one constant: a tag, then the payload.
/// A boolean is one byte (0 or 1), a number is its eight little-endian
/// bit-pattern bytes, a string is a little-endian length followed by its
/// UTF-8 bytes.  A function constant has no serialised form.
pub open spec fn spec_encode_value(v: ValueModel) -> Seq<u8> {
    match v {
        ValueModel::Bool(bv) => seq![1u8, if bv { 1u8 } else { 0u8 }],
        ValueModel::Nil => seq![2u8],
        ValueModel::Num(bits) => seq![3u8] + spec_u64_to_le_bytes(bits),
        ValueModel::Str(s) => seq![4u8] + spec_u64_to_le_bytes(encode_utf8(s).len() as u64)
            + encode_utf8(s),
        ValueModel::Func(_, _) => Seq::empty(),
    }
}

/// Whether a constant has a serialised form: everything except a function
/// constant, whose encoding is deliberately left undefined, and a string
/// too long for its length field.
pub open spec fn value_serialisable(v: ValueModel) -> bool {
    match v {
        ValueModel::Func(_, _) => false,
        ValueModel::Str(s) => encode_utf8(s).len() <= u64::MAX,
        _ => true,
    }
}

/// The constants of a pool, encoded one after the other.
pub open spec fn ser_values(vs: Seq<ValueModel>) -> Seq<u8>
    decreases vs.len(),
{
    if vs.len() == 0 {
        Seq::empty()
    } else {
        spec_encode_value(vs[0]) + ser_values(vs.drop_first())
    }
}

/// The instructions of a chunk, encoded one after the other.
pub open spec fn ser_ops(ops: Seq<Opcode>) -> Seq<u8>
    decreases ops.len(),
{
    if ops.len() == 0 {
        Seq::empty()
    } else {
        spec_encode_op(ops[0]) + ser_ops(ops.drop_first())
    }
}

/// Whether a chunk has a serialised form: at most 255 constants (the count
/// is one byte), every constant serialisable, every operand in range.
pub open spec fn chunk_serialisable(c: ChunkModel) -> bool {
    &&& c.constants.len() <= 255
    &&& forall|i: int| 0 <= i < c.constants.len() ==> value_serialisable(#[trigger] c.constants[i])
    &&& forall|i: int| 0 <= i < c.op_codes.len() ==> op_encodable(#[trigger] c.op_codes[i])
}

/// The full serialised form of a chunk.
pub open spec fn ser_chunk(c: ChunkModel) -> Seq<u8> {
    seq![c.constants.len() as u8] + ser_values(c.constants) + ser_ops(c.op_codes)
}

// ------------------------------------------------------------------
// Parsing the serialised form back.
// ------------------------------------------------------------------

/// Decodes the constant starting at `pos`, returning it with the position
/// just past it.  Fails on an unknown tag, on input that ends inside a
/// payload, and on string bytes that are not UTF-8.
pub open spec fn spec_decode_value_at(b: Seq<u8>, pos: int) -> Option<(ValueModel, int)> {
    if pos < 0 || pos >= b.len() {
        None
    } else {
        let t = b[pos];
        if t == 1 {
            if pos + 2 <= b.len() {
                Some((ValueModel::Bool(b[pos + 1] == 1), pos + 2))
            } else {
                None
            }
        } else if t == 2 {
            Some((ValueModel::Nil, pos + 1))
        } else if t == 3 {
            if pos + 9 <= b.len() {
                Some((ValueModel::Num(spec_u64_from_le_bytes(b.subrange(pos + 1, pos + 9))), pos + 9))
            } else {
                None
            }
        } else if t == 4 {
            if pos + 9 <= b.len() {
                let n = spec_u64_from_le_bytes(b.subrange(pos + 1, pos + 9)) as int;
                if pos + 9 + n <= b.len() {
                    let content = b.subrange(pos + 9, pos + 9 + n);
                    if valid_utf8(content) {
                        Some((ValueModel::Str(decode_utf8(content)), pos + 9 + n))
                    } else {
                        None
                    }
                } else {
                    None
                }
            } else {
                None
            }
        } else {
            None
        }
    }
}

/// Decodes `n` constants in a row, returning them with the position just
/// past the last one.
pub open spec fn spec_parse_consts(b: Seq<u8>, pos: int, n: nat) -> Option<
    (Seq<ValueModel>, int),
>
    decreases n,
{
    if n == 0 {
        Some((Seq::empty(), pos))
    } else {
        match spec_decode_value_at(b, pos) {
            None => None,
            Some((v, next)) => match spec_parse_consts(b, next, (n - 1) as nat) {
                None => None,
                Some((vs, end)) => Some((seq![v] + vs, end)),
            },
        }
    }
}

/// Decodes instructions from `pos` to the end of the input.
pub open spec fn spec_parse_ops(b: Seq<u8>, pos: int) -> Option<Seq<Opcode>>
    decreases b.len() - pos,
{
    if pos == b.len() {
        Some(Seq::empty())
    } else if pos < 0 || pos > b.len() {
        None
    } else {
        match spec_decode_op_at(b, pos) {
            None => None,
            Some((op, next)) => if next <= pos || next > b.len() {
                None
            } else {
                match spec_parse_ops(b, next) {
                    None => None,
                    Some(rest) => Some(seq![op] + rest),
                }
            },
        }
    }
}

/// Parses a whole serialised chunk: the constant count, that many
/// constants, then instructions to the end of the input.
pub open spec fn spec_parse_chunk(b: Seq<u8>) -> Option<ChunkModel> {
    if b.len() == 0 {
        None
    } else {
        match spec_parse_consts(b, 1, b[0] as nat) {
            None => None,
            Some((vs, pos)) => match spec_parse_ops(b, pos) {
                None => None,
                Some(ops) => Some(ChunkModel { op_codes: ops, constants: vs }),
            },
        }
    }
}

// ------------------------------------------------------------------
// Round trip: parsing reads back exactly what was serialised.
// ------------------------------------------------------------------

/// When a window of `b` holds the concatenation `s1 + s2`, its two halves
/// hold `s1` and `s2`.
pub(crate) proof fn lemma_subrange_split(b: Seq<u8>, pos: int, s1: Seq<u8>, s2: Seq<u8>)
    requires
        0 <= pos,
        pos + s1.len() + s2.len() <= b.len(),
        b.subrange(pos, pos + s1.len() + s2.len()) == s1 + s2,
    ensures
        b.subrange(pos, pos + s1.len() as int) == s1,
        b.subrange(pos + s1.len() as int, pos + s1.len() + s2.len()) == s2,
{
    let all = pos + s1.len() + s2.len();
    assert forall|i: int| 0 <= i < s1.len() implies b.subrange(pos, pos + s1.len() as int)[i]
        == s1[i] by {
        assert(b.subrange(pos, all)[i] == b[pos + i]);
        assert(b.subrange(pos, pos + s1.len() as int)[i] == b[pos + i]);
        assert((s1 + s2)[i] == s1[i]);
    }
    assert(b.subrange(pos, pos + s1.len() as int) =~= s1);
    assert forall|i: int| 0 <= i < s2.len() implies b.subrange(
        pos + s1.len() as int,
        all,
    )[i] == s2[i] by {
        assert(b.subrange(pos, all)[s1.len() + i] == b[pos + s1.len() + i]);
        assert(b.subrange(pos + s1.len() as int, all)[i] == b[pos + s1.len() + i]);
        assert((s1 + s2)[s1.len() + i] == s2[i]);
    }
    assert(b.subrange(pos + s1.len() as int, all) =~= s2);
}

/// Decoding reads back exactly the constant that was encoded.
pub proof fn lemma_decode_encoded_value(b: Seq<u8>, pos: int, v: ValueModel)
    requires
        value_serialisable(v),
        0 <= pos,
        pos + spec_encode_value(v).len() <= b.len(),
        b.subrange(pos, pos + spec_encode_value(v).len() as int) == spec_encode_value(v),
    ensures
        spec_decode_value_at(b, pos) == Some((v, pos + spec_encode_value(v).len() as int)),
{
    let e = spec_encode_value(v);
    lemma_auto_spec_u64_to_from_le_bytes();
    match v {
        ValueModel::Bool(bv) => {
            assert(b.subrange(pos, pos + 2)[0] == b[pos]);
            assert(b.subrange(pos, pos + 2)[1] == b[pos + 1]);
        },
        ValueModel::Nil => {
            assert(b.subrange(pos, pos + 1)[0] == b[pos]);
        },
        ValueModel::Num(bits) => {
            let tail = spec_u64_to_le_bytes(bits);
            lemma_subrange_split(b, pos, seq![3u8], tail);
            assert(b.subrange(pos, pos + 1)[0] == b[pos]);
            assert(b.subrange(pos + 1, pos + 9) == tail);
        },
        ValueModel::Str(s) => {
            let content = encode_utf8(s);
            let lenb = spec_u64_to_le_bytes(content.len() as u64);
            assert(e == seq![4u8] + (lenb + content)) by {
                assert(seq![4u8] + lenb + content =~= seq![4u8] + (lenb + content));
            }
            lemma_subrange_split(b, pos, seq![4u8], lenb + content);
            assert(b.subrange(pos, pos + 1)[0] == b[pos]);
            lemma_subrange_split(b, pos + 1, lenb, content);
            assert(b.subrange(pos + 1, pos + 9) == lenb);
            assert(spec_u64_from_le_bytes(lenb) == content.len() as u64);
            assert(b.subrange(pos + 9, pos + 9 + content.len() as int) == content);
            encode_utf8_valid_utf8(s);
            encode_utf8_decode_utf8(s);
        },
        ValueModel::Func(_, _) => {},
    }
}

/// Parsing `vs.len()` constants from the bytes of `ser_values(vs)` reads
/// back exactly `vs`.
proof fn lemma_parse_encoded_values(b: Seq<u8>, pos: int, vs: Seq<ValueModel>)
    requires
        forall|i: int| 0 <= i < vs.len() ==> value_serialisable(#[trigger] vs[i]),
        0 <= pos,
        pos + ser_values(vs).len() <= b.len(),
        b.subrange(pos, pos + ser_values(vs).len() as int) == ser_values(vs),
    ensures
        spec_parse_consts(b, pos, vs.len()) == Some((vs, pos + ser_values(vs).len() as int)),
    decreases vs.len(),
{
    if vs.len() == 0 {
        assert(vs =~= Seq::<ValueModel>::empty());
    } else {
        let v = vs[0];
        let e0 = spec_encode_value(v);
        let rest = vs.drop_first();
        lemma_subrange_split(b, pos, e0, ser_values(rest));
        lemma_decode_encoded_value(b, pos, v);
        assert(forall|i: int| 0 <= i < rest.len() ==> value_serialisable(#[trigger] rest[i]));
        lemma_parse_encoded_values(b, pos + e0.len() as int, rest);
        assert(seq![v] + rest =~= vs);
    }
}

/// Parsing instructions from the bytes of `ser_ops(ops)`, lying exactly at
/// the tail of the input, reads back exactly `ops`.
proof fn lemma_parse_encoded_ops(b: Seq<u8>, pos: int, ops: Seq<Opcode>)
    requires
        forall|i: int| 0 <= i < ops.len() ==> op_encodable(#[trigger] ops[i]),
        0 <= pos,
        pos + ser_ops(ops).len() == b.len(),
        b.subrange(pos, b.len() as int) == ser_ops(ops),
    ensures
        spec_parse_ops(b, pos) == Some(ops),
    decreases ops.len(),
{
    if ops.len() == 0 {
        assert(ops =~= Seq::<Opcode>::empty());
    } else {
        let op = ops[0];
        let e0 = spec_encode_op(op);
        let rest = ops.drop_first();
        lemma_subrange_split(b, pos, e0, ser_ops(rest));
        lemma_decode_encoded_op(b, pos, op);
        assert(forall|i: int| 0 <= i < rest.len() ==> op_encodable(#[trigger] rest[i]));
        lemma_parse_encoded_ops(b, pos + e0.len() as int, rest);
        assert(seq![op] + rest =~= ops);
    }
}

/// Law: serialising a chunk and parsing the bytes back yields the same
/// chunk, for every chunk that has a serialised form.
pub proof fn lemma_serialise_parse_round_trip(c: ChunkModel)
    requires
        chunk_serialisable(c),
    ensures
        spec_parse_chunk(ser_chunk(c)) == Some(c),
{
    let b = ser_chunk(c);
    let head = seq![c.constants.len() as u8];
    let sv = ser_values(c.constants);
    let so = ser_ops(c.op_codes);
    assert(b == head + (sv + so)) by {
        assert(head + sv + so =~= head + (sv + so));
    }
    assert(b.subrange(0, b.len() as int) =~= b);
    lemma_subrange_split(b, 0, head, sv + so);
    assert(b.subrange(0, 1)[0] == b[0]);
    assert(b[0] == c.constants.len() as u8);
    assert((c.constants.len() as u8) as nat == c.constants.len());
    lemma_subrange_split(b, 1, sv, so);
    lemma_parse_encoded_values(b, 1, c.constants);
    lemma_parse_encoded_ops(b, 1 + sv.len() as int, c.op_codes);
    assert(spec_parse_chunk(b) == Some(ChunkModel { op_codes: c.op_codes, constants: c.constants }));
}

/// Serialising one more constant appends its encoding.
pub(crate) proof fn lemma_ser_values_take_succ(vs: Seq<ValueModel>, i: int)
    requires
        0 <= i < vs.len(),
    ensures
        ser_values(vs.take(i + 1)) == ser_values(vs.take(i)) + spec_encode_value(vs[i]),
    decreases i,
{
    if i == 0 {
        assert(vs.take(1) =~= seq![vs[0]]);
        assert(seq![vs[0]].drop_first() =~= Seq::<ValueModel>::empty());
        assert(vs.take(0) =~= Seq::<ValueModel>::empty());
        assert(ser_values(vs.take(1)) =~= ser_values(vs.take(0)) + spec_encode_value(vs[0]));
    } else {
        let rest = vs.drop_first();
        lemma_ser_values_take_succ(rest, i - 1);
        assert(vs.take(i + 1).drop_first() =~= rest.take(i));
        assert(vs.take(i).drop_first() =~= rest.take(i - 1));
        assert(vs.take(i + 1)[0] == vs[0]);
        assert(vs.take(i)[0] == vs[0]);
        assert(rest[i - 1] == vs[i]);
        assert(ser_values(vs.take(i + 1)) == spec_encode_value(vs[0]) + ser_values(rest.take(i)));
        assert(ser_values(vs.take(i)) == spec_encode_value(vs[0]) + ser_values(rest.take(i - 1)));
        assert(spec_encode_value(vs[0]) + (ser_values(rest.take(i - 1)) + spec_encode_value(vs[i]))
            =~= (spec_encode_value(vs[0]) + ser_values(rest.take(i - 1))) + spec_encode_value(
            vs[i],
        ));
    }
}

/// Serialising one more instruction appends its encoding.
pub(crate) proof fn lemma_ser_ops_take_succ(ops: Seq<Opcode>, i: int)
    requires
        0 <= i < ops.len(),
    ensures
        ser_ops(ops.take(i + 1)) == ser_ops(ops.take(i)) + spec_encode_op(ops[i]),
    decreases i,
{
    if i == 0 {
        assert(ops.take(1) =~= seq![ops[0]]);
        assert(seq![ops[0]].drop_first() =~= Seq::<Opcode>::empty());
        assert(ops.take(0) =~= Seq::<Opcode>::empty());
        assert(ser_ops(ops.take(1)) =~= ser_ops(ops.take(0)) + spec_encode_op(ops[0]));
    } else {
        let rest = ops.drop_first();
        lemma_ser_ops_take_succ(rest, i - 1);
        assert(ops.take(i + 1).drop_first() =~= rest.take(i));
        assert(ops.take(i).drop_first() =~= rest.take(i - 1));
        assert(ops.take(i + 1)[0] == ops[0]);
        assert(ops.take(i)[0] == ops[0]);
        assert(rest[i - 1] == ops[i]);
        assert(ser_ops(ops.take(i + 1)) == spec_encode_op(ops[0]) + ser_ops(rest.take(i)));
        assert(ser_ops(ops.take(i)) == spec_encode_op(ops[0]) + ser_ops(rest.take(i - 1)));
        assert(spec_encode_op(ops[0]) + (ser_ops(rest.take(i - 1)) + spec_encode_op(ops[i]))
            =~= (spec_encode_op(ops[0]) + ser_ops(rest.take(i - 1))) + spec_encode_op(ops[i]));
    }
}

// ------------------------------------------------------------------
// Executable encoding and decoding of single constants.
// ------------------------------------------------------------------

/// Relies on `String::from_utf8`: it succeeds exactly on valid UTF-8 input
/// and returns the string those bytes spell; decoding is unique, so the
/// string's characters are `decode_utf8` of the bytes.
#[verifier::external_body]
fn string_from_utf8(bytes: Vec<u8>) -> (r: Option<String>)
    ensures
        match r {
            Some(s) => valid_utf8(bytes@) && s@ == decode_utf8(bytes@),
            None => !valid_utf8(bytes@),
        },
{
    String::from_utf8(bytes).ok()
}

/// Appends the byte encoding of one constant to `out`; leaves `out`
/// unchanged and reports failure when the constant has no serialised form.
pub fn encode_value_into(v: &Value, out: &mut Vec<u8>) -> (r: bool)
    ensures
        r == value_serialisable(v@),
        r ==> final(out)@ == old(out)@ + spec_encode_value(v@),
        !r ==> final(out)@ == old(out)@,
{
    let ghost pre = out@;
    match v {
        Value::Boolean(bv) => {
            out.push(1u8);
            out.push(if *bv { 1u8 } else { 0u8 });
            proof {
                assert(out@ =~= pre + spec_encode_value(v@));
            }
            true
        },
        Value::Nil => {
            out.push(2u8);
            proof {
                assert(out@ =~= pre + spec_encode_value(v@));
            }
            true
        },
        Value::Number(bits) => {
            out.push(3u8);
            let mut tail = u64_to_le_bytes(*bits);
            out.append(&mut tail);
            proof {
                assert(out@ =~= pre + spec_encode_value(v@));
            }
            true
        },
        Value::Object(ObjectValue::String(s)) => {
            out.push(4u8);
            let bytes = s.as_str().as_bytes_vec();
            let n = bytes.len();
            proof {
                assert(encode_utf8(s@).len() == n);
                assert(n as u64 == encode_utf8(s@).len() as u64);
            }
            let mut lenb = u64_to_le_bytes(n as u64);
            out.append(&mut lenb);
            let mut content = bytes;
            out.append(&mut content);
            proof {
                assert(out@ =~= pre + spec_encode_value(v@));
            }
            true
        },
        Value::Object(ObjectValue::Function(_)) => false,
    }
}

/// Decodes the constant starting at `pos` of `bytes`.
pub fn decode_value_at(bytes: &[u8], pos: usize) -> (r: Option<(Value, usize)>)
    ensures
        match r {
            Some((v, next)) => {
                &&& spec_decode_value_at(bytes@, pos as int) == Some((v@, next as int))
                &&& pos < next <= bytes@.len()
            },
            None => spec_decode_value_at(bytes@, pos as int) is None,
        },
{
    let n = bytes.len();
    if pos >= n {
        return None;
    }
    let t = bytes[pos];
    if t == 1 {
        if n - pos >= 2 {
            let x = bytes[pos + 1];
            Some((Value::Boolean(x == 1), pos + 2))
        } else {
            None
        }
    } else if t == 2 {
        Some((Value::Nil, pos + 1))
    } else if t == 3 {
        if n - pos >= 9 {
            let bits = u64_from_le_bytes(slice_subrange(bytes, pos + 1, pos + 9));
            Some((Value::Number(bits), pos + 9))
        } else {
            None
        }
    } else if t == 4 {
        if n - pos >= 9 {
            let len64 = u64_from_le_bytes(slice_subrange(bytes, pos + 1, pos + 9));
            let rem = (n - (pos + 9)) as u64;
            if len64 <= rem {
                let slen = len64 as usize;
                let content = slice_to_vec(slice_subrange(bytes, pos + 9, pos + 9 + slen));
                match string_from_utf8(content) {
                    Some(s) => Some((Value::Object(ObjectValue::String(s)), pos + 9 + slen)),
                    None => None,
                }
            } else {
                None
            }
        } else {
            None
        }
    } else {
        None
    }
}

} // verus!
