use crate::opcode::{op_encodable, spec_encode_op, Opcode};
use crate::serial;
use crate::serial::{
    chunk_serialisable, encode_value_into, lemma_ser_ops_take_succ, lemma_ser_values_take_succ,
    ser_chunk, ser_ops, ser_values, spec_parse_chunk, spec_parse_consts, spec_parse_ops,
    value_serialisable,
};
use crate::value::{Value, ValueModel};
use vstd::bytes::{
    spec_u64_from_le_bytes, spec_u64_to_le_bytes, spec_u64_to_le_bytes_open,
    spec_u64_to_le_bytes_to_open, u64_from_le_bytes,
};
use vstd::prelude::*;
use vstd::slice::slice_index_get;
use vstd::slice::slice_subrange;

verus! {

/// Mathematical model of a chunk: the instruction sequence and the
/// constant pool, with every constant replaced by its model.
pub struct ChunkModel {
    pub op_codes: Seq<Opcode>,
    pub constants: Seq<ValueModel>,
}

/// One compiled function body: its instructions and its constant pool.
#[derive(Debug, Clone, PartialEq)]
pub struct Chunk {
    pub op_codes: Vec<Opcode>,
    pub constants: Vec<Value>,
}

impl View for Chunk {
    type V = ChunkModel;

    open spec fn view(&self) -> ChunkModel {
        ChunkModel {
            op_codes: self.op_codes@,
            constants: self.constants@.map_values(|v: Value| v@),
        }
    }
}

impl Chunk {
    /// An empty chunk: no instructions, no constants.
    pub fn new() -> (r: Chunk)
        ensures
            r@.op_codes == Seq::<Opcode>::empty(),
            r@.constants == Seq::<ValueModel>::empty(),
    {
        let r = Chunk { op_codes: Vec::new(), constants: Vec::new() };
        proof {
            assert(r@.constants =~= Seq::<ValueModel>::empty());
        }
        r
    }

    /// The little-endian bytes of a length, as written before a string
    /// constant's contents in the serialised form.
    pub fn size_to_bytes(s: usize) -> (r: [u8; 8])
        ensures
            r@ == spec_u64_to_le_bytes(s as u64),
    {
        let x = s as u64;
        let r: [u8; 8] = [
            (x & 0xff) as u8,
            ((x >> 8) & 0xff) as u8,
            ((x >> 16) & 0xff) as u8,
            ((x >> 24) & 0xff) as u8,
            ((x >> 32) & 0xff) as u8,
            ((x >> 40) & 0xff) as u8,
            ((x >> 48) & 0xff) as u8,
            ((x >> 56) & 0xff) as u8,
        ];
        proof {
            spec_u64_to_le_bytes_to_open(x);
            assert(r@ =~= spec_u64_to_le_bytes_open(x));
        }
        r
    }

    /// Reads back a length written by [`Chunk::size_to_bytes`].
    pub fn bytes_to_usize(bytes: &[u8]) -> (r: usize)
        requires
            bytes@.len() == 8,
            spec_u64_from_le_bytes(bytes@) <= usize::MAX,
        ensures
            r == spec_u64_from_le_bytes(bytes@),
    {
        let x = u64_from_le_bytes(bytes);
        x as usize
    }

    /// Appends one instruction.
    pub fn write_chunk(&mut self, bytes: Opcode)
        ensures
            final(self)@.op_codes == old(self)@.op_codes.push(bytes),
            final(self)@.constants == old(self)@.constants,
    {
        self.op_codes.push(bytes);
    }

    /// Overwrites the instruction at `index`; used to patch a forward
    /// jump once its target is known.
    pub fn replace_opcode(&mut self, index: usize, bytes: Opcode)
        requires
            index < old(self)@.op_codes.len(),
        ensures
            final(self)@.op_codes == old(self)@.op_codes.update(index as int, bytes),
            final(self)@.constants == old(self)@.constants,
    {
        self.op_codes.set(index, bytes);
    }

    /// Appends a value to the constant pool and returns its index.
    pub fn add_constant(&mut self, value: Value) -> (r: usize)
        ensures
            final(self)@.constants == old(self)@.constants.push(value@),
            final(self)@.op_codes == old(self)@.op_codes,
            r == old(self)@.constants.len(),
    {
        let ghost v = value@;
        self.constants.push(value);
        proof {
            assert(self@.constants =~= old(self)@.constants.push(v));
        }
        self.constants.len() - 1
    }

    /// The serialised form of this chunk, or `None` when the chunk has
    /// none: more than 255 constants, a function constant, or an operand
    /// out of range of its encoded width.
    pub fn to_bytes(&self) -> (r: Option<Vec<u8>>)
        ensures
            match r {
                Some(b) => chunk_serialisable(self@) && b@ == ser_chunk(self@),
                None => !chunk_serialisable(self@),
            },
    {
        let n_consts = self.constants.len();
        if n_consts > 255 {
            return None;
        }
        let mut out: Vec<u8> = Vec::new();
        out.push(n_consts as u8);
        let ghost cview = self@.constants;
        let ghost oview = self@.op_codes;
        let mut i: usize = 0;
        proof {
            assert(out@ =~= seq![cview.len() as u8] + ser_values(cview.take(0)));
        }
        while i < n_consts
            invariant
                i <= n_consts,
                n_consts == self.constants.len(),
                n_consts <= 255,
                cview == self@.constants,
                out@ == seq![cview.len() as u8] + ser_values(cview.take(i as int)),
                forall|j: int| 0 <= j < i ==> value_serialisable(#[trigger] cview[j]),
            decreases n_consts - i,
        {
            let ok = encode_value_into(vstd::std_specs::vec::vec_index(&self.constants, i), &mut out);
            if !ok {
                proof {
                    assert(self@.constants[i as int] == self.constants@[i as int]@);
                    assert(!value_serialisable(self@.constants[i as int]));
                }
                return None;
            }
            proof {
                lemma_ser_values_take_succ(cview, i as int);
            }
            i += 1;
        }
        proof {
            assert(cview.take(n_consts as int) =~= cview);
        }
        let n_ops = self.op_codes.len();
        let mut j: usize = 0;
        while j < n_ops
            invariant
                j <= n_ops,
                n_ops == self.op_codes.len(),
                oview == self@.op_codes,
                out@ == seq![cview.len() as u8] + ser_values(cview) + ser_ops(oview.take(j as int)),
                forall|k: int| 0 <= k < j ==> op_encodable(#[trigger] oview[k]),
            decreases n_ops - j,
        {
            let op = *vstd::std_specs::vec::vec_index(&self.op_codes, j);
            if !op.encodable() {
                proof {
                    assert(!op_encodable(self@.op_codes[j as int]));
                }
                return None;
            }
            op.encode_into(&mut out);
            proof {
                lemma_ser_ops_take_succ(oview, j as int);
                assert((seq![cview.len() as u8] + ser_values(cview) + ser_ops(oview.take(j as int)))
                    + spec_encode_op(op) =~= seq![cview.len() as u8] + ser_values(cview) + ser_ops(
                    oview.take(j as int),
                ) + spec_encode_op(op));
            }
            j += 1;
        }
        proof {
            assert(oview.take(n_ops as int) =~= oview);
        }
        Some(out)
    }

    /// Parses a serialised chunk.  Fails cleanly — with `None` — on an
    /// unknown tag, on truncated input, and on string bytes that are not
    /// UTF-8.
    pub fn from_bytes(bytes: &[u8]) -> (r: Option<Chunk>)
        ensures
            match r {
                Some(c) => spec_parse_chunk(bytes@) == Some(c@),
                None => spec_parse_chunk(bytes@) is None,
            },
    {
        let n = bytes.len();
        if n == 0 {
            return None;
        }
        let count = bytes[0];
        let mut constants: Vec<Value> = Vec::new();
        let mut pos: usize = 1;
        let mut i: usize = 0;
        while i < count as usize
            invariant
                n == bytes@.len(),
                n > 0,
                count == bytes@[0],
                i <= count,
                pos <= n,
                1 <= pos,
                match spec_parse_consts(bytes@, pos as int, (count - i) as nat) {
                    Some((vs, end)) => spec_parse_consts(bytes@, 1, count as nat) == Some(
                        (constants@.map_values(|v: Value| v@) + vs, end),
                    ),
                    None => spec_parse_consts(bytes@, 1, count as nat) is None,
                },
            decreases count - i,
        {
            let ghost pre = constants@.map_values(|v: Value| v@);
            match serial::decode_value_at(bytes, pos) {
                Some((v, next)) => {
                    let ghost vv = v@;
                    constants.push(v);
                    pos = next;
                    proof {
                        assert(constants@.map_values(|v: Value| v@) =~= pre + seq![vv]);
                        assert forall|vs: Seq<ValueModel>|
                            (pre + seq![vv]) + vs =~= pre + (seq![vv] + vs) by {};
                    }
                },
                None => {
                    proof {
                        assert(spec_parse_consts(bytes@, pos as int, (count - i) as nat) is None);
                        assert(spec_parse_consts(bytes@, 1, count as nat) is None);
                        assert(spec_parse_chunk(bytes@) is None);
                    }
                    return None;
                },
            }
            i += 1;
        }
        let ghost cmodel = constants@.map_values(|v: Value| v@);
        proof {
            assert(cmodel + Seq::<ValueModel>::empty() =~= cmodel);
            assert(spec_parse_consts(bytes@, 1, count as nat) == Some((cmodel, pos as int)));
        }
        let ghost opstart = pos as int;
        let mut op_codes: Vec<Opcode> = Vec::new();
        while pos < n
            invariant
                n == bytes@.len(),
                n > 0,
                pos <= n,
                opstart <= pos,
                count == bytes@[0],
                cmodel == constants@.map_values(|v: Value| v@),
                spec_parse_consts(bytes@, 1, count as nat) == Some((cmodel, opstart)),
                match spec_parse_ops(bytes@, pos as int) {
                    Some(rest) => spec_parse_ops(bytes@, opstart) == Some(op_codes@ + rest),
                    None => spec_parse_ops(bytes@, opstart) is None,
                },
            decreases n - pos,
        {
            let ghost preops = op_codes@;
            match Opcode::decode_at(bytes, pos) {
                Some((op, next)) => {
                    op_codes.push(op);
                    pos = next;
                    proof {
                        assert forall|rest: Seq<Opcode>|
                            (preops + seq![op]) + rest =~= preops + (seq![op] + rest) by {};
                    }
                },
                None => {
                    proof {
                        assert(spec_parse_ops(bytes@, pos as int) is None);
                        assert(spec_parse_ops(bytes@, opstart) is None);
                        assert(spec_parse_chunk(bytes@) is None);
                    }
                    return None;
                },
            }
        }
        proof {
            assert(op_codes@ + Seq::<Opcode>::empty() =~= op_codes@);
            assert(spec_parse_ops(bytes@, opstart) == Some(op_codes@));
        }
        let c = Chunk { op_codes, constants };
        proof {
            assert(c@.constants == cmodel);
            assert(spec_parse_chunk(bytes@) == Some(c@));
        }
        Some(c)
    }

    /// The constant at `index`, if there is one.
    pub fn read_constant(&self, index: usize) -> (r: Option<&Value>)
        ensures
            match r {
                Some(v) => index < self@.constants.len() && v@ == self@.constants[index as int],
                None => index >= self@.constants.len(),
            },
    {
        if index < self.constants.len() {
            Some(vstd::std_specs::vec::vec_index(&self.constants, index))
        } else {
            None
        }
    }
}

/// The sink a compiler emits bytecode into.  A single-pass compiler holds
/// one writer per function being compiled and appends instructions and
/// constants as it parses; `replace_opcode` patches a forward jump once
/// its target is known.
pub trait ChunkWriterTrait {
    /// The instructions written so far.
    spec fn ops(&self) -> Seq<Opcode>;

    /// The constants added so far.
    spec fn consts(&self) -> Seq<ValueModel>;

    /// Appends one instruction.  `line` is the source line it came from,
    /// kept only for diagnostics.
    fn emit_byte(&mut self, byte: Opcode, line: isize)
        ensures
            final(self).ops() == old(self).ops().push(byte),
            final(self).consts() == old(self).consts();

    /// Appends two instructions, in order.
    fn emit_bytes(&mut self, byte1: Opcode, byte2: Opcode, line: isize)
        ensures
            final(self).ops() == old(self).ops().push(byte1).push(byte2),
            final(self).consts() == old(self).consts();

    /// Appends a return instruction.
    fn emit_return(&mut self, line: isize)
        ensures
            final(self).ops() == old(self).ops().push(Opcode::OpReturn),
            final(self).consts() == old(self).consts();

    /// Adds `value` to the constant pool and appends the instruction
    /// that pushes it.
    fn emit_constant(&mut self, value: Value, line: isize)
        requires
            old(self).consts().len() < usize::MAX,
        ensures
            final(self).consts() == old(self).consts().push(value@),
            final(self).ops() == old(self).ops().push(
                Opcode::OpConstant(old(self).consts().len() as usize),
            );

    /// Appends one instruction.
    fn write_chunk(&mut self, byte: Opcode, line: isize)
        ensures
            final(self).ops() == old(self).ops().push(byte),
            final(self).consts() == old(self).consts();

    /// Adds `value` to the constant pool and returns its index.
    fn make_constant(&mut self, value: Value) -> (r: usize)
        ensures
            final(self).consts() == old(self).consts().push(value@),
            final(self).ops() == old(self).ops(),
            r == old(self).consts().len();

    /// The disassembly of what has been written so far.
    fn disassemble_chunk(&self) -> (r: String)
        requires
            crate::disasm::ops_well_formed(self.ops(), self.consts().len()),
        ensures
            r@ == crate::disasm::spec_disassemble(self.ops(), self.consts());

    /// How many instructions have been written.
    fn len(&self) -> (r: usize)
        ensures
            r == self.ops().len();

    /// Overwrites the instruction at `index`.
    fn replace_opcode(&mut self, index: usize, bytes: Opcode)
        requires
            index < old(self).ops().len(),
        ensures
            final(self).ops() == old(self).ops().update(index as int, bytes),
            final(self).consts() == old(self).consts();
}

impl ChunkWriterTrait for Chunk {
    open spec fn ops(&self) -> Seq<Opcode> {
        self@.op_codes
    }

    open spec fn consts(&self) -> Seq<ValueModel> {
        self@.constants
    }

    fn emit_byte(&mut self, byte: Opcode, _line: isize) {
        Chunk::write_chunk(self, byte);
    }

    fn emit_bytes(&mut self, byte1: Opcode, byte2: Opcode, _line: isize) {
        Chunk::write_chunk(self, byte1);
        Chunk::write_chunk(self, byte2);
    }

    fn emit_return(&mut self, _line: isize) {
        Chunk::write_chunk(self, Opcode::OpReturn);
    }

    fn emit_constant(&mut self, value: Value, _line: isize) {
        let idx = self.add_constant(value);
        Chunk::write_chunk(self, Opcode::OpConstant(idx));
    }

    fn write_chunk(&mut self, byte: Opcode, _line: isize) {
        Chunk::write_chunk(self, byte);
    }

    fn make_constant(&mut self, value: Value) -> (r: usize) {
        self.add_constant(value)
    }

    fn disassemble_chunk(&self) -> (r: String) {
        Chunk::disassemble_chunk(self)
    }

    fn len(&self) -> (r: usize) {
        self.op_codes.len()
    }

    fn replace_opcode(&mut self, index: usize, bytes: Opcode) {
        Chunk::replace_opcode(self, index, bytes);
    }
}

/// A cursor over a chunk's instructions, as the dispatch loop of a
/// virtual machine reads them: forward one at a time, with a step back
/// for re-reading and a look-ahead for inline operand slots.
pub struct ChunkOpCodeReader<'s> {
    op_codes: &'s [Opcode],
    ip: usize,
}

impl<'s> ChunkOpCodeReader<'s> {
    /// The instruction sequence being read.
    pub closed spec fn ops(&self) -> Seq<Opcode> {
        self.op_codes@
    }

    /// The position of the next instruction to be read.
    pub closed spec fn pos(&self) -> nat {
        self.ip as nat
    }

    /// A reader positioned at the first instruction.
    pub fn new(op_codes: &'s [Opcode]) -> (r: Self)
        ensures
            r.ops() == op_codes@,
            r.pos() == 0,
    {
        Self { op_codes, ip: 0 }
    }

    /// Steps back one instruction.
    pub fn prev(&mut self)
        requires
            old(self).pos() >= 1,
        ensures
            final(self).ops() == old(self).ops(),
            final(self).pos() == old(self).pos() - 1,
    {
        self.ip = self.ip - 1;
    }

    /// The `n` instructions after the one the reader is at.
    pub fn read_slice(&mut self, n: usize) -> (r: &[Opcode])
        requires
            old(self).pos() + 1 + n <= old(self).ops().len(),
        ensures
            final(self).ops() == old(self).ops(),
            final(self).pos() == old(self).pos(),
            r@ == old(self).ops().subrange(
                old(self).pos() as int + 1,
                old(self).pos() as int + 1 + n,
            ),
    {
        let total = self.op_codes.len();
        proof {
            assert(self.ip + 1 + n <= total);
        }
        let start = self.ip + 1;
        let end = start + n;
        slice_subrange(self.op_codes, start, end)
    }

    /// The instruction at the reader's position, advancing past it;
    /// `None` once every instruction has been read.
    pub fn next(&mut self) -> (r: Option<&'s Opcode>)
        ensures
            final(self).ops() == old(self).ops(),
            old(self).pos() < old(self).ops().len() ==> {
                &&& r matches Some(op)
                &&& *op == old(self).ops()[old(self).pos() as int]
                &&& final(self).pos() == old(self).pos() + 1
            },
            old(self).pos() >= old(self).ops().len() ==> {
                &&& r is None
                &&& final(self).pos() == old(self).pos()
            },
    {
        let ip = self.ip;
        if ip < self.op_codes.len() {
            self.ip = ip + 1;
            Some(slice_index_get(self.op_codes, ip))
        } else {
            None
        }
    }
}

} // verus!
