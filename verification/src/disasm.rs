use crate::chunk::Chunk;
use crate::opcode::Opcode;
use crate::value::{ObjectValue, Value, ValueModel};
use vstd::prelude::*;

verus! {

// ------------------------------------------------------------------
// Rendering of numbers and values.
// ------------------------------------------------------------------

/// The single decimal digit `d` as a character sequence.
pub open spec fn digit_str(d: nat) -> Seq<char> {
    if d == 0 {
        "0"@
    } else if d == 1 {
        "1"@
    } else if d == 2 {
        "2"@
    } else if d == 3 {
        "3"@
    } else if d == 4 {
        "4"@
    } else if d == 5 {
        "5"@
    } else if d == 6 {
        "6"@
    } else if d == 7 {
        "7"@
    } else if d == 8 {
        "8"@
    } else {
        "9"@
    }
}

/// The decimal rendering of `n`, most significant digit first.
pub open spec fn dec_digits(n: nat) -> Seq<char>
    decreases n,
{
    if n < 10 {
        digit_str(n)
    } else {
        dec_digits(n / 10) + digit_str(n % 10)
    }
}

/// The decimal rendering of an integer, with a leading minus sign when
/// it is negative.
pub open spec fn dec_int(i: int) -> Seq<char> {
    if i < 0 {
        "-"@ + dec_digits((-i) as nat)
    } else {
        dec_digits(i as nat)
    }
}

/// The single hexadecimal digit `d` as a character sequence.
pub open spec fn hex_digit_str(d: nat) -> Seq<char> {
    if d < 10 {
        digit_str(d)
    } else if d == 10 {
        "a"@
    } else if d == 11 {
        "b"@
    } else if d == 12 {
        "c"@
    } else if d == 13 {
        "d"@
    } else if d == 14 {
        "e"@
    } else {
        "f"@
    }
}

/// The low `k` nibbles of `bits` in hexadecimal, most significant first.
pub open spec fn hex_digits(bits: u64, k: nat) -> Seq<char>
    decreases k,
{
    if k == 0 {
        Seq::empty()
    } else {
        hex_digits(bits >> 4, (k - 1) as nat) + hex_digit_str((bits & 0xf) as nat)
    }
}

/// The rendering of a number constant, read off its IEEE-754 bit pattern.
///
/// Infinities and NaN are named; a double whose value is an integer of
/// magnitude below 2^53 is shown as that integer in decimal; any other
/// double is shown exactly, as its sixteen-digit bit pattern.
pub open spec fn spec_render_number(bits: u64) -> Seq<char> {
    let sign = bits >> 63;
    let exp = (bits >> 52) & 0x7ff;
    let frac = bits & 0xfffffffffffff;
    if exp == 0x7ff {
        if frac == 0 {
            if sign == 1 {
                "-inf"@
            } else {
                "inf"@
            }
        } else {
            "NaN"@
        }
    } else if exp == 0 && frac == 0 {
        if sign == 1 {
            "-0"@
        } else {
            "0"@
        }
    } else if 1023 <= exp && exp <= 1075 && frac & (((1u64 << ((1075 - exp) as u64)) - 1) as u64)
        == 0 {
        let val = (((1u64 << 52u64) | frac) >> ((1075 - exp) as u64)) as nat;
        if sign == 1 {
            "-"@ + dec_digits(val)
        } else {
            dec_digits(val)
        }
    } else {
        "0x"@ + hex_digits(bits, 16)
    }
}

/// The rendering of a constant, as the disassembler shows it.
pub open spec fn spec_render_value(v: ValueModel) -> Seq<char> {
    match v {
        ValueModel::Nil => "nil"@,
        ValueModel::Bool(bv) => if bv {
            "true"@
        } else {
            "false"@
        },
        ValueModel::Num(bits) => spec_render_number(bits),
        ValueModel::Str(s) => s,
        ValueModel::Func(name, _) => "<fn "@ + name + ">"@,
    }
}

// ------------------------------------------------------------------
// The disassembly text.
// ------------------------------------------------------------------

/// `n` blanks.
pub open spec fn spaces(n: nat) -> Seq<char>
    decreases n,
{
    if n == 0 {
        Seq::empty()
    } else {
        spaces((n - 1) as nat) + " "@
    }
}

/// An instruction name padded with blanks to twelve characters.
pub open spec fn pad12(s: Seq<char>) -> Seq<char> {
    if s.len() >= 12 {
        s
    } else {
        s + spaces((12 - s.len()) as nat)
    }
}

/// An instruction offset zero-padded to four digits.
pub open spec fn zero_pad4(n: nat) -> Seq<char> {
    let d = dec_digits(n);
    if d.len() == 1 {
        "000"@ + d
    } else if d.len() == 2 {
        "00"@ + d
    } else if d.len() == 3 {
        "0"@ + d
    } else {
        d
    }
}

/// A line for an instruction without operands.
pub open spec fn spec_simple_line(name: Seq<char>) -> Seq<char> {
    pad12(name) + "\n"@
}

/// A line for an instruction with a constant-pool operand: the pool index
/// and the constant itself, quoted.
pub open spec fn spec_constant_line(name: Seq<char>, idx: nat, v: ValueModel) -> Seq<char> {
    pad12(name) + " "@ + dec_digits(idx) + " '"@ + spec_render_value(v) + "' \n"@
}

/// A line for an instruction with a slot or argument-count operand.
pub open spec fn spec_byte_line(name: Seq<char>, slot: nat) -> Seq<char> {
    pad12(name) + " "@ + dec_digits(slot) + "  \n"@
}

/// A line for a jump: the instruction's offset and its target.
pub open spec fn spec_jump_line(name: Seq<char>, offset: nat, sign: int, dist: u16) -> Seq<char> {
    pad12(name) + " "@ + dec_digits(offset) + " -> "@ + dec_int(offset + 1 + sign * dist) + "\n"@
}

/// The full line for the instruction at `offset`.
pub open spec fn spec_instruction_line(op: Opcode, consts: Seq<ValueModel>, offset: nat) -> Seq<
    char,
> {
    zero_pad4(offset) + " "@ + match op {
        Opcode::OpConstant(i) => spec_constant_line("OP_CONSTANT"@, i as nat, consts[i as int]),
        Opcode::OpNil => spec_simple_line("OP_NIL"@),
        Opcode::OpTrue => spec_simple_line("OP_TRUE"@),
        Opcode::OpFalse => spec_simple_line("OP_FALSE"@),
        Opcode::OpPop => spec_simple_line("OP_POP"@),
        Opcode::OpGetLocal(i) => spec_byte_line("OP_GET_LOCAL"@, i as nat),
        Opcode::OpSetLocal(i) => spec_byte_line("OP_SET_LOCAL"@, i as nat),
        Opcode::OpGetGlobal(i) => spec_constant_line("OP_GET_GLOBAL"@, i as nat, consts[i as int]),
        Opcode::OpSetGlobal(i) => spec_constant_line("OP_SET_GLOBAL"@, i as nat, consts[i as int]),
        Opcode::OpDefineGlobal(i) => spec_constant_line(
            "OP_DEFINE_GLOBAL"@,
            i as nat,
            consts[i as int],
        ),
        Opcode::OpEqual => spec_simple_line("OP_EQUAL"@),
        Opcode::OpGreater => spec_simple_line("OP_GREATER"@),
        Opcode::OpLess => spec_simple_line("OP_LESS"@),
        Opcode::OpAdd => spec_simple_line("OP_ADD"@),
        Opcode::OpSubtract => spec_simple_line("OP_SUBTRACT"@),
        Opcode::OpMultiply => spec_simple_line("OP_MULTIPLY"@),
        Opcode::OpDivide => spec_simple_line("OP_DIVIDE"@),
        Opcode::OpNot => spec_simple_line("OP_NOT"@),
        Opcode::OpNegate => spec_simple_line("OP_NEGATE"@),
        Opcode::OpPrint => spec_simple_line("OP_PRINT"@),
        Opcode::OpJump(d) => spec_jump_line("OP_JUMP"@, offset, 1, d),
        Opcode::OpJumpIfFalse(d) => spec_jump_line("OP_JUMP_IF_FALSE"@, offset, 1, d),
        Opcode::OpLoop(d) => spec_jump_line("OP_LOOP"@, offset, -1, d),
        Opcode::OpCall(n) => spec_byte_line("OP_CALL"@, n as nat),
        Opcode::OpReturn => spec_simple_line("OP_RETURN"@),
    }
}

/// Whether every constant-pool index an instruction sequence refers to
/// lies within a pool of `n_consts` constants.
pub open spec fn ops_well_formed(ops: Seq<Opcode>, n_consts: nat) -> bool {
    forall|k: int|
        0 <= k < ops.len() ==> match #[trigger] ops[k] {
            Opcode::OpConstant(i) => i < n_consts,
            Opcode::OpGetGlobal(i) => i < n_consts,
            Opcode::OpSetGlobal(i) => i < n_consts,
            Opcode::OpDefineGlobal(i) => i < n_consts,
            _ => true,
        }
}

/// The disassembly of the instructions from `offset` on.
pub open spec fn spec_disasm_from(ops: Seq<Opcode>, consts: Seq<ValueModel>, offset: nat) -> Seq<
    char,
>
    decreases ops.len() - offset,
{
    if offset >= ops.len() {
        Seq::empty()
    } else {
        spec_instruction_line(ops[offset as int], consts, offset) + spec_disasm_from(
            ops,
            consts,
            offset + 1,
        )
    }
}

/// The disassembly of a whole chunk: one line per instruction.
pub open spec fn spec_disassemble(ops: Seq<Opcode>, consts: Seq<ValueModel>) -> Seq<char> {
    spec_disasm_from(ops, consts, 0)
}

// ------------------------------------------------------------------
// Executable rendering helpers.
// ------------------------------------------------------------------

/// A single digit renders as a single character.
proof fn lemma_digit_str_len(d: nat)
    requires
        d < 16,
    ensures
        d < 10 ==> digit_str(d).len() == 1,
        hex_digit_str(d).len() == 1,
{
    reveal_strlit("0");
    reveal_strlit("1");
    reveal_strlit("2");
    reveal_strlit("3");
    reveal_strlit("4");
    reveal_strlit("5");
    reveal_strlit("6");
    reveal_strlit("7");
    reveal_strlit("8");
    reveal_strlit("9");
    reveal_strlit("a");
    reveal_strlit("b");
    reveal_strlit("c");
    reveal_strlit("d");
    reveal_strlit("e");
    reveal_strlit("f");
}

proof fn lemma_dec_digits_len(n: nat)
    ensures
        n < 10 ==> dec_digits(n).len() == 1,
        10 <= n < 100 ==> dec_digits(n).len() == 2,
        100 <= n < 1000 ==> dec_digits(n).len() == 3,
        1000 <= n ==> dec_digits(n).len() >= 4,
    decreases n,
{
    if n < 10 {
        lemma_digit_str_len(n);
    } else {
        assert(1 <= n / 10) by (nonlinear_arith)
            requires
                n >= 10,
        ;
        assert(n < 100 ==> n / 10 < 10) by (nonlinear_arith);
        assert(100 <= n < 1000 ==> 10 <= n / 10 < 100) by (nonlinear_arith);
        assert(1000 <= n ==> 100 <= n / 10) by (nonlinear_arith);
        lemma_dec_digits_len(n / 10);
        lemma_digit_str_len(n % 10);
    }
}

/// Appends one decimal digit.
fn push_digit(out: &mut String, d: u128)
    requires
        d < 10,
    ensures
        final(out)@ == old(out)@ + digit_str(d as nat),
{
    if d == 0 {
        out.append("0");
    } else if d == 1 {
        out.append("1");
    } else if d == 2 {
        out.append("2");
    } else if d == 3 {
        out.append("3");
    } else if d == 4 {
        out.append("4");
    } else if d == 5 {
        out.append("5");
    } else if d == 6 {
        out.append("6");
    } else if d == 7 {
        out.append("7");
    } else if d == 8 {
        out.append("8");
    } else {
        out.append("9");
    }
}

/// Appends the decimal rendering of `n`.
fn push_udec(out: &mut String, n: u128)
    ensures
        final(out)@ == old(out)@ + dec_digits(n as nat),
    decreases n,
{
    if n < 10 {
        push_digit(out, n);
    } else {
        push_udec(out, n / 10);
        push_digit(out, n % 10);
        proof {
            assert(out@ =~= old(out)@ + dec_digits(n as nat));
        }
    }
}

/// Appends one hexadecimal digit.
fn push_hex_digit(out: &mut String, d: u64)
    requires
        d < 16,
    ensures
        final(out)@ == old(out)@ + hex_digit_str(d as nat),
{
    if d < 10 {
        push_digit(out, d as u128);
    } else if d == 10 {
        out.append("a");
    } else if d == 11 {
        out.append("b");
    } else if d == 12 {
        out.append("c");
    } else if d == 13 {
        out.append("d");
    } else if d == 14 {
        out.append("e");
    } else {
        out.append("f");
    }
}

/// Appends the low `k` nibbles of `bits` in hexadecimal.
fn push_hex(out: &mut String, bits: u64, k: usize)
    requires
        k <= 16,
    ensures
        final(out)@ == old(out)@ + hex_digits(bits, k as nat),
    decreases k,
{
    if k > 0 {
        push_hex(out, bits >> 4u64, k - 1);
        proof {
            assert(bits & 0xf < 16) by (bit_vector);
        }
        push_hex_digit(out, bits & 0xf);
        proof {
            assert(out@ =~= old(out)@ + hex_digits(bits, k as nat));
        }
    }
}

/// Appends the rendering of a number constant.
fn render_number_into(bits: u64, out: &mut String)
    ensures
        final(out)@ == old(out)@ + spec_render_number(bits),
{
    let sign = bits >> 63u64;
    let exp = (bits >> 52u64) & 0x7ff;
    let frac = bits & 0xfffffffffffff;
    if exp == 0x7ff {
        if frac == 0 {
            if sign == 1 {
                out.append("-inf");
            } else {
                out.append("inf");
            }
        } else {
            out.append("NaN");
        }
    } else if exp == 0 && frac == 0 {
        if sign == 1 {
            out.append("-0");
        } else {
            out.append("0");
        }
    } else if 1023 <= exp && exp <= 1075 {
        let sh = 1075 - exp;
        proof {
            assert(1u64 << sh >= 1) by (bit_vector)
                requires
                    sh <= 52u64,
            ;
        }
        let low = (1u64 << sh) - 1;
        if frac & low == 0 {
            let val = ((1u64 << 52u64) | frac) >> sh;
            if sign == 1 {
                out.append("-");
            }
            push_udec(out, val as u128);
            proof {
                assert(out@ =~= old(out)@ + spec_render_number(bits));
            }
        } else {
            out.append("0x");
            push_hex(out, bits, 16);
            proof {
                assert(out@ =~= old(out)@ + spec_render_number(bits));
            }
        }
    } else {
        out.append("0x");
        push_hex(out, bits, 16);
        proof {
            assert(out@ =~= old(out)@ + spec_render_number(bits));
        }
    }
}

/// Appends the rendering of a constant, as shown beside `OP_CONSTANT` and
/// the global-variable instructions.
pub fn render_value_into(v: &Value, out: &mut String)
    ensures
        final(out)@ == old(out)@ + spec_render_value(v@),
{
    match v {
        Value::Nil => {
            out.append("nil");
        },
        Value::Boolean(bv) => {
            if *bv {
                out.append("true");
            } else {
                out.append("false");
            }
        },
        Value::Number(bits) => {
            render_number_into(*bits, out);
        },
        Value::Object(ObjectValue::String(s)) => {
            out.append(s.as_str());
        },
        Value::Object(ObjectValue::Function(f)) => {
            out.append("<fn ");
            out.append(f.name.as_str());
            out.append(">");
            proof {
                assert(out@ =~= old(out)@ + spec_render_value(v@));
            }
        },
    }
}

/// Appends `name` padded with blanks to twelve characters.
fn push_padded(out: &mut String, name: &str)
    ensures
        final(out)@ == old(out)@ + pad12(name@),
{
    let l = name.unicode_len();
    out.append(name);
    if l < 12 {
        let mut k = l;
        proof {
            assert(out@ =~= old(out)@ + name@ + spaces(0));
        }
        while k < 12
            invariant
                l <= k <= 12,
                l == name@.len(),
                out@ == old(out)@ + name@ + spaces((k - l) as nat),
            decreases 12 - k,
        {
            out.append(" ");
            k += 1;
            proof {
                reveal_strlit(" ");
                assert(" "@ =~= seq![' ']);
                assert(out@ =~= old(out)@ + name@ + spaces((k - l) as nat));
            }
        }
        proof {
            assert(out@ =~= old(out)@ + pad12(name@));
        }
    }
}

/// Appends the zero-padded offset and the blank after it that start
/// every disassembly line.
fn push_offset(out: &mut String, offset: usize)
    ensures
        final(out)@ == old(out)@ + zero_pad4(offset as nat) + " "@,
{
    proof {
        lemma_dec_digits_len(offset as nat);
    }
    if offset < 10 {
        out.append("000");
    } else if offset < 100 {
        out.append("00");
    } else if offset < 1000 {
        out.append("0");
    }
    push_udec(out, offset as u128);
    out.append(" ");
    proof {
        assert(out@ =~= old(out)@ + zero_pad4(offset as nat) + " "@);
    }
}

// ------------------------------------------------------------------
// The disassembler itself.
// ------------------------------------------------------------------

impl Chunk {
    /// Appends a line for an instruction without operands and returns the
    /// offset of the next instruction.
    pub fn simple_instruction(name: &str, offset: usize, out: &mut String) -> (r: usize)
        requires
            offset < usize::MAX,
        ensures
            final(out)@ == old(out)@ + spec_simple_line(name@),
            r == offset + 1,
    {
        push_padded(out, name);
        out.append("\n");
        proof {
            assert(out@ =~= old(out)@ + spec_simple_line(name@));
        }
        offset + 1
    }

    /// Appends a line for an instruction with a constant-pool operand.
    pub fn constant_instruction(&self, name: &str, offset: usize, const_idx: usize, out: &mut String) -> (r: usize)
        requires
            offset < usize::MAX,
            const_idx < self@.constants.len(),
        ensures
            final(out)@ == old(out)@ + spec_constant_line(
                name@,
                const_idx as nat,
                self@.constants[const_idx as int],
            ),
            r == offset + 1,
    {
        push_padded(out, name);
        out.append(" ");
        push_udec(out, const_idx as u128);
        out.append(" '");
        render_value_into(vstd::std_specs::vec::vec_index(&self.constants, const_idx), out);
        out.append("' \n");
        proof {
            assert(self@.constants[const_idx as int] == self.constants@[const_idx as int]@);
            assert(out@ =~= old(out)@ + spec_constant_line(
                name@,
                const_idx as nat,
                self@.constants[const_idx as int],
            ));
        }
        offset + 1
    }

    /// Appends a line for an instruction with a slot or argument-count
    /// operand.
    pub fn byte_instruction(name: &str, offset: usize, slot: usize, out: &mut String) -> (r: usize)
        requires
            offset < usize::MAX,
        ensures
            final(out)@ == old(out)@ + spec_byte_line(name@, slot as nat),
            r == offset + 1,
    {
        push_padded(out, name);
        out.append(" ");
        push_udec(out, slot as u128);
        out.append("  \n");
        proof {
            assert(out@ =~= old(out)@ + spec_byte_line(name@, slot as nat));
        }
        offset + 1
    }

    /// Appends a line for a jump, showing its target offset.
    pub fn jump_instruction(name: &str, offset: usize, sign: isize, jump: u16, out: &mut String) -> (r: usize)
        requires
            offset < usize::MAX,
            sign == 1 || sign == -1isize,
        ensures
            final(out)@ == old(out)@ + spec_jump_line(name@, offset as nat, sign as int, jump),
            r == offset + 1,
    {
        push_padded(out, name);
        out.append(" ");
        push_udec(out, offset as u128);
        out.append(" -> ");
        if sign == 1 {
            push_udec(out, offset as u128 + 1 + jump as u128);
        } else {
            if jump as u128 <= offset as u128 + 1 {
                push_udec(out, offset as u128 + 1 - jump as u128);
            } else {
                out.append("-");
                push_udec(out, jump as u128 - (offset as u128 + 1));
            }
        }
        out.append("\n");
        proof {
            let i = offset as int + 1 + (sign as int) * (jump as int);
            if sign == 1 {
                assert(i == offset as int + 1 + jump as int);
            } else {
                assert(i == offset as int + 1 - jump as int);
            }
            assert(out@ =~= old(out)@ + spec_jump_line(name@, offset as nat, sign as int, jump));
        }
        offset + 1
    }

    /// Appends the disassembly line for the instruction at `offset` and
    /// returns the offset of the next instruction.
    pub fn disassemble_instruction(&self, offset: usize, out: &mut String) -> (r: usize)
        requires
            offset < self@.op_codes.len(),
            ops_well_formed(self@.op_codes, self@.constants.len()),
        ensures
            final(out)@ == old(out)@ + spec_instruction_line(
                self@.op_codes[offset as int],
                self@.constants,
                offset as nat,
            ),
            r == offset + 1,
    {
        let total = self.op_codes.len();
        proof {
            assert(offset < total);
        }
        push_offset(out, offset);
        let op = *vstd::std_specs::vec::vec_index(&self.op_codes, offset);
        let r = match op {
            Opcode::OpConstant(i) => self.constant_instruction("OP_CONSTANT", offset, i, out),
            Opcode::OpNil => Self::simple_instruction("OP_NIL", offset, out),
            Opcode::OpTrue => Self::simple_instruction("OP_TRUE", offset, out),
            Opcode::OpFalse => Self::simple_instruction("OP_FALSE", offset, out),
            Opcode::OpPop => Self::simple_instruction("OP_POP", offset, out),
            Opcode::OpGetLocal(i) => Self::byte_instruction("OP_GET_LOCAL", offset, i, out),
            Opcode::OpSetLocal(i) => Self::byte_instruction("OP_SET_LOCAL", offset, i, out),
            Opcode::OpGetGlobal(i) => self.constant_instruction("OP_GET_GLOBAL", offset, i, out),
            Opcode::OpSetGlobal(i) => self.constant_instruction("OP_SET_GLOBAL", offset, i, out),
            Opcode::OpDefineGlobal(i) => self.constant_instruction(
                "OP_DEFINE_GLOBAL",
                offset,
                i,
                out,
            ),
            Opcode::OpEqual => Self::simple_instruction("OP_EQUAL", offset, out),
            Opcode::OpGreater => Self::simple_instruction("OP_GREATER", offset, out),
            Opcode::OpLess => Self::simple_instruction("OP_LESS", offset, out),
            Opcode::OpAdd => Self::simple_instruction("OP_ADD", offset, out),
            Opcode::OpSubtract => Self::simple_instruction("OP_SUBTRACT", offset, out),
            Opcode::OpMultiply => Self::simple_instruction("OP_MULTIPLY", offset, out),
            Opcode::OpDivide => Self::simple_instruction("OP_DIVIDE", offset, out),
            Opcode::OpNot => Self::simple_instruction("OP_NOT", offset, out),
            Opcode::OpNegate => Self::simple_instruction("OP_NEGATE", offset, out),
            Opcode::OpPrint => Self::simple_instruction("OP_PRINT", offset, out),
            Opcode::OpJump(d) => Self::jump_instruction("OP_JUMP", offset, 1, d, out),
            Opcode::OpJumpIfFalse(d) => Self::jump_instruction("OP_JUMP_IF_FALSE", offset, 1, d, out),
            Opcode::OpLoop(d) => Self::jump_instruction("OP_LOOP", offset, -1isize, d, out),
            Opcode::OpCall(n) => Self::byte_instruction("OP_CALL", offset, n as usize, out),
            Opcode::OpReturn => Self::simple_instruction("OP_RETURN", offset, out),
        };
        proof {
            assert(out@ =~= old(out)@ + spec_instruction_line(
                self@.op_codes[offset as int],
                self@.constants,
                offset as nat,
            ));
        }
        r
    }

    /// The disassembly of the whole chunk: one line per instruction, each
    /// headed by its zero-padded offset.
    pub fn disassemble_chunk(&self) -> (r: String)
        requires
            ops_well_formed(self@.op_codes, self@.constants.len()),
        ensures
            r@ == spec_disassemble(self@.op_codes, self@.constants),
    {
        let mut out = String::new();
        let n = self.op_codes.len();
        let mut offset: usize = 0;
        proof {
            assert(out@ + spec_disasm_from(self@.op_codes, self@.constants, 0) =~= spec_disassemble(
                self@.op_codes,
                self@.constants,
            ));
        }
        while offset < n
            invariant
                offset <= n,
                n == self@.op_codes.len(),
                ops_well_formed(self@.op_codes, self@.constants.len()),
                out@ + spec_disasm_from(self@.op_codes, self@.constants, offset as nat)
                    == spec_disassemble(self@.op_codes, self@.constants),
            decreases n - offset,
        {
            let ghost pre = out@;
            offset = self.disassemble_instruction(offset, &mut out);
            proof {
                assert(out@ + spec_disasm_from(self@.op_codes, self@.constants, offset as nat)
                    =~= pre + spec_disasm_from(
                    self@.op_codes,
                    self@.constants,
                    (offset - 1) as nat,
                ));
            }
        }
        proof {
            assert(out@ + spec_disasm_from(self@.op_codes, self@.constants, offset as nat)
                =~= out@);
        }
        out
    }
}

} // verus!
