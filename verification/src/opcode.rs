use vstd::bytes::{
    lemma_auto_spec_u16_to_from_le_bytes, spec_u16_from_le_bytes, spec_u16_to_le_bytes,
    u16_from_le_bytes, u16_to_le_bytes,
};
use vstd::prelude::*;
use vstd::slice::slice_subrange;

verus! {

/// One virtual-machine instruction, carrying its inline operand.
///
/// Operand meanings: a `usize` is an index into the constant pool
/// (`OpConstant` and the global ops) or a local slot relative to the frame
/// base (`OpGetLocal`, `OpSetLocal`); a `u16` is a relative jump distance;
/// the `u8` of `OpCall` is an argument count.
#[derive(Debug, Clone, Copy, PartialEq, Eq, Structural)]
pub enum Opcode {
    OpConstant(usize),
    OpNil,
    OpTrue,
    OpFalse,
    OpPop,
    OpGetLocal(usize),
    OpSetLocal(usize),
    OpGetGlobal(usize),
    OpSetGlobal(usize),
    OpDefineGlobal(usize),
    OpEqual,
    OpGreater,
    OpLess,
    OpAdd,
    OpSubtract,
    OpMultiply,
    OpDivide,
    OpNot,
    OpNegate,
    OpPrint,
    OpJump(u16),
    OpJumpIfFalse(u16),
    OpLoop(u16),
    OpCall(u8),
    OpReturn,
}

/// The byte encoding of one instruction: a one-byte tag, then the operand
/// (one byte for a pool index, slot or argument count; two little-endian
/// bytes for a jump distance).
pub open spec fn spec_encode_op(op: Opcode) -> Seq<u8> {
    match op {
        Opcode::OpConstant(i) => seq![0u8, i as u8],
        Opcode::OpNil => seq![1u8],
        Opcode::OpTrue => seq![2u8],
        Opcode::OpFalse => seq![3u8],
        Opcode::OpPop => seq![4u8],
        Opcode::OpGetLocal(i) => seq![5u8, i as u8],
        Opcode::OpSetLocal(i) => seq![6u8, i as u8],
        Opcode::OpGetGlobal(i) => seq![7u8, i as u8],
        Opcode::OpSetGlobal(i) => seq![8u8, i as u8],
        Opcode::OpDefineGlobal(i) => seq![9u8, i as u8],
        Opcode::OpEqual => seq![10u8],
        Opcode::OpGreater => seq![11u8],
        Opcode::OpLess => seq![12u8],
        Opcode::OpAdd => seq![13u8],
        Opcode::OpSubtract => seq![14u8],
        Opcode::OpMultiply => seq![15u8],
        Opcode::OpDivide => seq![16u8],
        Opcode::OpNot => seq![17u8],
        Opcode::OpNegate => seq![18u8],
        Opcode::OpPrint => seq![19u8],
        Opcode::OpJump(o) => seq![20u8] + spec_u16_to_le_bytes(o),
        Opcode::OpJumpIfFalse(o) => seq![21u8] + spec_u16_to_le_bytes(o),
        Opcode::OpLoop(o) => seq![22u8] + spec_u16_to_le_bytes(o),
        Opcode::OpCall(n) => seq![23u8, n],
        Opcode::OpReturn => seq![24u8],
    }
}

/// Whether an instruction's operand fits its one-byte encoded form.
/// Pool indices and local slots are stored as `usize` in memory but
/// encoded as a single byte.
pub open spec fn op_encodable(op: Opcode) -> bool {
    match op {
        Opcode::OpConstant(i) => i <= 255,
        Opcode::OpGetLocal(i) => i <= 255,
        Opcode::OpSetLocal(i) => i <= 255,
        Opcode::OpGetGlobal(i) => i <= 255,
        Opcode::OpSetGlobal(i) => i <= 255,
        Opcode::OpDefineGlobal(i) => i <= 255,
        _ => true,
    }
}

/// Decodes the instruction starting at `pos`, returning it with the
/// position just past it.  Fails on an unknown tag and on input that ends
/// inside an operand.
pub open spec fn spec_decode_op_at(b: Seq<u8>, pos: int) -> Option<(Opcode, int)> {
    if pos < 0 || pos >= b.len() {
        None
    } else {
        let t = b[pos];
        if t == 0 || (5 <= t && t <= 9) || t == 23 {
            if pos + 2 <= b.len() {
                let arg = b[pos + 1];
                let op = if t == 0 {
                    Opcode::OpConstant(arg as usize)
                } else if t == 5 {
                    Opcode::OpGetLocal(arg as usize)
                } else if t == 6 {
                    Opcode::OpSetLocal(arg as usize)
                } else if t == 7 {
                    Opcode::OpGetGlobal(arg as usize)
                } else if t == 8 {
                    Opcode::OpSetGlobal(arg as usize)
                } else if t == 9 {
                    Opcode::OpDefineGlobal(arg as usize)
                } else {
                    Opcode::OpCall(arg)
                };
                Some((op, pos + 2))
            } else {
                None
            }
        } else if 20 <= t && t <= 22 {
            if pos + 3 <= b.len() {
                let dist = spec_u16_from_le_bytes(b.subrange(pos + 1, pos + 3));
                let op = if t == 20 {
                    Opcode::OpJump(dist)
                } else if t == 21 {
                    Opcode::OpJumpIfFalse(dist)
                } else {
                    Opcode::OpLoop(dist)
                };
                Some((op, pos + 3))
            } else {
                None
            }
        } else if t == 1 {
            Some((Opcode::OpNil, pos + 1))
        } else if t == 2 {
            Some((Opcode::OpTrue, pos + 1))
        } else if t == 3 {
            Some((Opcode::OpFalse, pos + 1))
        } else if t == 4 {
            Some((Opcode::OpPop, pos + 1))
        } else if t == 10 {
            Some((Opcode::OpEqual, pos + 1))
        } else if t == 11 {
            Some((Opcode::OpGreater, pos + 1))
        } else if t == 12 {
            Some((Opcode::OpLess, pos + 1))
        } else if t == 13 {
            Some((Opcode::OpAdd, pos + 1))
        } else if t == 14 {
            Some((Opcode::OpSubtract, pos + 1))
        } else if t == 15 {
            Some((Opcode::OpMultiply, pos + 1))
        } else if t == 16 {
            Some((Opcode::OpDivide, pos + 1))
        } else if t == 17 {
            Some((Opcode::OpNot, pos + 1))
        } else if t == 18 {
            Some((Opcode::OpNegate, pos + 1))
        } else if t == 19 {
            Some((Opcode::OpPrint, pos + 1))
        } else if t == 24 {
            Some((Opcode::OpReturn, pos + 1))
        } else {
            None
        }
    }
}

impl Opcode {
    /// Whether this instruction's operand fits the encoded form.
    pub fn encodable(&self) -> (r: bool)
        ensures
            r == op_encodable(*self),
    {
        match self {
            Opcode::OpConstant(i) => *i <= 255,
            Opcode::OpGetLocal(i) => *i <= 255,
            Opcode::OpSetLocal(i) => *i <= 255,
            Opcode::OpGetGlobal(i) => *i <= 255,
            Opcode::OpSetGlobal(i) => *i <= 255,
            Opcode::OpDefineGlobal(i) => *i <= 255,
            _ => true,
        }
    }

    /// Appends this instruction's byte encoding to `out`.
    pub fn encode_into(&self, out: &mut Vec<u8>)
        requires
            op_encodable(*self),
        ensures
            final(out)@ == old(out)@ + spec_encode_op(*self),
    {
        let ghost pre = out@;
        match self {
            Opcode::OpConstant(i) => {
                out.push(0u8);
                out.push(*i as u8);
            },
            Opcode::OpNil => { out.push(1u8); },
            Opcode::OpTrue => { out.push(2u8); },
            Opcode::OpFalse => { out.push(3u8); },
            Opcode::OpPop => { out.push(4u8); },
            Opcode::OpGetLocal(i) => {
                out.push(5u8);
                out.push(*i as u8);
            },
            Opcode::OpSetLocal(i) => {
                out.push(6u8);
                out.push(*i as u8);
            },
            Opcode::OpGetGlobal(i) => {
                out.push(7u8);
                out.push(*i as u8);
            },
            Opcode::OpSetGlobal(i) => {
                out.push(8u8);
                out.push(*i as u8);
            },
            Opcode::OpDefineGlobal(i) => {
                out.push(9u8);
                out.push(*i as u8);
            },
            Opcode::OpEqual => { out.push(10u8); },
            Opcode::OpGreater => { out.push(11u8); },
            Opcode::OpLess => { out.push(12u8); },
            Opcode::OpAdd => { out.push(13u8); },
            Opcode::OpSubtract => { out.push(14u8); },
            Opcode::OpMultiply => { out.push(15u8); },
            Opcode::OpDivide => { out.push(16u8); },
            Opcode::OpNot => { out.push(17u8); },
            Opcode::OpNegate => { out.push(18u8); },
            Opcode::OpPrint => { out.push(19u8); },
            Opcode::OpJump(o) => {
                out.push(20u8);
                let mut tail = u16_to_le_bytes(*o);
                out.append(&mut tail);
            },
            Opcode::OpJumpIfFalse(o) => {
                out.push(21u8);
                let mut tail = u16_to_le_bytes(*o);
                out.append(&mut tail);
            },
            Opcode::OpLoop(o) => {
                out.push(22u8);
                let mut tail = u16_to_le_bytes(*o);
                out.append(&mut tail);
            },
            Opcode::OpCall(n) => {
                out.push(23u8);
                out.push(*n);
            },
            Opcode::OpReturn => { out.push(24u8); },
        }
        proof {
            assert(out@ =~= pre + spec_encode_op(*self));
        }
    }

    /// Decodes the instruction starting at `pos` of `bytes`.
    pub fn decode_at(bytes: &[u8], pos: usize) -> (r: Option<(Opcode, usize)>)
        ensures
            match r {
                Some((op, next)) => {
                    &&& spec_decode_op_at(bytes@, pos as int) == Some((op, next as int))
                    &&& pos < next <= bytes@.len()
                },
                None => spec_decode_op_at(bytes@, pos as int) is None,
            },
    {
        let n = bytes.len();
        if pos >= n {
            return None;
        }
        let t = bytes[pos];
        if t == 0 || (5 <= t && t <= 9) || t == 23 {
            if n - pos >= 2 {
                let arg = bytes[pos + 1];
                let op = if t == 0 {
                    Opcode::OpConstant(arg as usize)
                } else if t == 5 {
                    Opcode::OpGetLocal(arg as usize)
                } else if t == 6 {
                    Opcode::OpSetLocal(arg as usize)
                } else if t == 7 {
                    Opcode::OpGetGlobal(arg as usize)
                } else if t == 8 {
                    Opcode::OpSetGlobal(arg as usize)
                } else if t == 9 {
                    Opcode::OpDefineGlobal(arg as usize)
                } else {
                    Opcode::OpCall(arg)
                };
                Some((op, pos + 2))
            } else {
                None
            }
        } else if 20 <= t && t <= 22 {
            if n - pos >= 3 {
                let dist = u16_from_le_bytes(slice_subrange(bytes, pos + 1, pos + 3));
                let op = if t == 20 {
                    Opcode::OpJump(dist)
                } else if t == 21 {
                    Opcode::OpJumpIfFalse(dist)
                } else {
                    Opcode::OpLoop(dist)
                };
                Some((op, pos + 3))
            } else {
                None
            }
        } else if t == 1 {
            Some((Opcode::OpNil, pos + 1))
        } else if t == 2 {
            Some((Opcode::OpTrue, pos + 1))
        } else if t == 3 {
            Some((Opcode::OpFalse, pos + 1))
        } else if t == 4 {
            Some((Opcode::OpPop, pos + 1))
        } else if t == 10 {
            Some((Opcode::OpEqual, pos + 1))
        } else if t == 11 {
            Some((Opcode::OpGreater, pos + 1))
        } else if t == 12 {
            Some((Opcode::OpLess, pos + 1))
        } else if t == 13 {
            Some((Opcode::OpAdd, pos + 1))
        } else if t == 14 {
            Some((Opcode::OpSubtract, pos + 1))
        } else if t == 15 {
            Some((Opcode::OpMultiply, pos + 1))
        } else if t == 16 {
            Some((Opcode::OpDivide, pos + 1))
        } else if t == 17 {
            Some((Opcode::OpNot, pos + 1))
        } else if t == 18 {
            Some((Opcode::OpNegate, pos + 1))
        } else if t == 19 {
            Some((Opcode::OpPrint, pos + 1))
        } else if t == 24 {
            Some((Opcode::OpReturn, pos + 1))
        } else {
            None
        }
    }
}

/// The two operand bytes of an encoded jump stand right after its tag.
proof fn lemma_jump_operand_bytes(b: Seq<u8>, pos: int, e: Seq<u8>, tail: Seq<u8>)
    requires
        tail.len() == 2,
        e.len() == 3,
        forall|i: int| 0 <= i < 2 ==> e[1 + i] == tail[i],
        0 <= pos,
        pos + 3 <= b.len(),
        b.subrange(pos, pos + 3) == e,
    ensures
        b.subrange(pos + 1, pos + 3) == tail,
{
    assert forall|i: int| 0 <= i < 2 implies b.subrange(pos + 1, pos + 3)[i] == tail[i] by {
        assert(b.subrange(pos + 1, pos + 3)[i] == b[pos + 1 + i]);
        assert(b.subrange(pos, pos + 3)[1 + i] == b[pos + 1 + i]);
    }
    assert(b.subrange(pos + 1, pos + 3) =~= tail);
}

/// Decoding reads back exactly the instruction that was encoded.
pub proof fn lemma_decode_encoded_op(b: Seq<u8>, pos: int, op: Opcode)
    requires
        op_encodable(op),
        0 <= pos,
        pos + spec_encode_op(op).len() <= b.len(),
        b.subrange(pos, pos + spec_encode_op(op).len() as int) == spec_encode_op(op),
    ensures
        spec_decode_op_at(b, pos) == Some((op, pos + spec_encode_op(op).len() as int)),
{
    let e = spec_encode_op(op);
    assert(b.subrange(pos, pos + e.len() as int)[0] == b[pos]);
    assert(b[pos] == e[0]);
    if e.len() >= 2 {
        assert(b.subrange(pos, pos + e.len() as int)[1] == b[pos + 1]);
        assert(b[pos + 1] == e[1]);
    }
    if e.len() >= 3 {
        assert(b.subrange(pos, pos + e.len() as int)[2] == b[pos + 2]);
        assert(b[pos + 2] == e[2]);
    }
    lemma_auto_spec_u16_to_from_le_bytes();
    match op {
        Opcode::OpConstant(i) => { assert((i as u8) as usize == i); },
        Opcode::OpGetLocal(i) => { assert((i as u8) as usize == i); },
        Opcode::OpSetLocal(i) => { assert((i as u8) as usize == i); },
        Opcode::OpGetGlobal(i) => { assert((i as u8) as usize == i); },
        Opcode::OpSetGlobal(i) => { assert((i as u8) as usize == i); },
        Opcode::OpDefineGlobal(i) => { assert((i as u8) as usize == i); },
        Opcode::OpJump(o) => {
            lemma_jump_operand_bytes(b, pos, e, spec_u16_to_le_bytes(o));
        },
        Opcode::OpJumpIfFalse(o) => {
            lemma_jump_operand_bytes(b, pos, e, spec_u16_to_le_bytes(o));
        },
        Opcode::OpLoop(o) => {
            lemma_jump_operand_bytes(b, pos, e, spec_u16_to_le_bytes(o));
        },
        _ => {},
    }
}

} // verus!
