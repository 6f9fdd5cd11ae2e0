use lox_bytecode::chunk::{Chunk, ChunkOpCodeReader, ChunkWriterTrait};
use lox_bytecode::opcode::Opcode;
use lox_bytecode::value::{FunctionObj, ObjectValue, Value};

#[test]
fn negate() {
    let mut chunk: Chunk = Chunk::new();
    let idx = chunk.add_constant(Value::Number(3.14f64.to_bits()));

    chunk.write_chunk(Opcode::OpConstant(idx));
    chunk.write_chunk(Opcode::OpNegate);
    chunk.write_chunk(Opcode::OpReturn);

    println!("{}", chunk.disassemble_chunk());
}

#[test]
fn basic_sum() {
    let mut chunk: Chunk = Chunk::new();

    let mut constant = chunk.add_constant(Value::Number(1.2f64.to_bits()));
    chunk.write_chunk(Opcode::OpConstant(constant));

    constant = chunk.add_constant(Value::Number(3.4f64.to_bits()));
    chunk.write_chunk(Opcode::OpConstant(constant));

    chunk.write_chunk(Opcode::OpAdd);

    constant = chunk.add_constant(Value::Number(5.6f64.to_bits()));
    chunk.write_chunk(Opcode::OpConstant(constant));

    chunk.write_chunk(Opcode::OpDivide);
    chunk.write_chunk(Opcode::OpNegate);
    chunk.write_chunk(Opcode::OpReturn);

    println!("{}", chunk.disassemble_chunk());
}

#[test]
fn write_bytes() {
    let mut chunk: Chunk = Chunk::new();
    chunk.write_chunk(Opcode::OpJump(99));
    let mut idx;

    idx = chunk.add_constant(Value::Boolean(true));
    chunk.write_chunk(Opcode::OpConstant(idx));

    idx = chunk.add_constant(Value::Number(1.2f64.to_bits()));
    chunk.write_chunk(Opcode::OpConstant(idx));

    idx = chunk.add_constant(Value::Nil);
    chunk.write_chunk(Opcode::OpConstant(idx));

    idx = chunk.add_constant(Value::Object(ObjectValue::String("hello".to_string())));
    chunk.write_chunk(Opcode::OpConstant(idx));

    let bytes = chunk.to_bytes().unwrap();
    let chunk1 = Chunk::from_bytes(&bytes).unwrap();
    assert_eq!(chunk, chunk1);
}

#[test]
fn round_trip_every_opcode_kind() {
    let mut chunk = Chunk::new();
    let idx = chunk.add_constant(Value::Object(ObjectValue::String("héllo wörld".to_string())));
    chunk.write_chunk(Opcode::OpConstant(idx));
    chunk.write_chunk(Opcode::OpNil);
    chunk.write_chunk(Opcode::OpTrue);
    chunk.write_chunk(Opcode::OpFalse);
    chunk.write_chunk(Opcode::OpPop);
    chunk.write_chunk(Opcode::OpGetLocal(7));
    chunk.write_chunk(Opcode::OpSetLocal(8));
    chunk.write_chunk(Opcode::OpGetGlobal(0));
    chunk.write_chunk(Opcode::OpSetGlobal(0));
    chunk.write_chunk(Opcode::OpDefineGlobal(0));
    chunk.write_chunk(Opcode::OpEqual);
    chunk.write_chunk(Opcode::OpGreater);
    chunk.write_chunk(Opcode::OpLess);
    chunk.write_chunk(Opcode::OpAdd);
    chunk.write_chunk(Opcode::OpSubtract);
    chunk.write_chunk(Opcode::OpMultiply);
    chunk.write_chunk(Opcode::OpDivide);
    chunk.write_chunk(Opcode::OpNot);
    chunk.write_chunk(Opcode::OpNegate);
    chunk.write_chunk(Opcode::OpPrint);
    chunk.write_chunk(Opcode::OpJump(65535));
    chunk.write_chunk(Opcode::OpJumpIfFalse(0));
    chunk.write_chunk(Opcode::OpLoop(21));
    chunk.write_chunk(Opcode::OpCall(255));
    chunk.write_chunk(Opcode::OpReturn);

    let bytes = chunk.to_bytes().unwrap();
    let back = Chunk::from_bytes(&bytes).unwrap();
    assert_eq!(chunk, back);
}

#[test]
fn round_trip_keeps_number_bits_exactly() {
    let mut chunk = Chunk::new();
    for x in [0.0f64, -0.0, 3.14, -2.5e300, f64::NAN, f64::INFINITY, f64::MIN_POSITIVE] {
        let idx = chunk.add_constant(Value::Number(x.to_bits()));
        chunk.write_chunk(Opcode::OpConstant(idx));
    }
    let bytes = chunk.to_bytes().unwrap();
    let back = Chunk::from_bytes(&bytes).unwrap();
    assert_eq!(chunk, back);
}

#[test]
fn serialise_refuses_function_constant() {
    let mut chunk = Chunk::new();
    let idx = chunk.add_constant(Value::Object(ObjectValue::Function(FunctionObj {
        name: "f".to_string(),
        arity: 2,
    })));
    chunk.write_chunk(Opcode::OpConstant(idx));
    assert_eq!(chunk.to_bytes(), None);
}

#[test]
fn serialise_accepts_full_constant_pool() {
    let mut chunk = Chunk::new();
    for i in 0..255 {
        let idx = chunk.add_constant(Value::Number((i as f64).to_bits()));
        chunk.write_chunk(Opcode::OpConstant(idx));
    }
    chunk.write_chunk(Opcode::OpGetLocal(255));
    let bytes = chunk.to_bytes().unwrap();
    let back = Chunk::from_bytes(&bytes).unwrap();
    assert_eq!(chunk, back);
}

#[test]
fn disassemble_function_constant() {
    let mut chunk = Chunk::new();
    let idx = chunk.add_constant(Value::Object(ObjectValue::Function(FunctionObj {
        name: "sum".to_string(),
        arity: 2,
    })));
    chunk.write_chunk(Opcode::OpConstant(idx));
    assert_eq!(chunk.disassemble_chunk(), "0000 OP_CONSTANT  0 '<fn sum>' \n");
}

#[test]
fn serialise_refuses_too_many_constants() {
    let mut chunk = Chunk::new();
    for _ in 0..256 {
        chunk.add_constant(Value::Nil);
    }
    assert_eq!(chunk.to_bytes(), None);
}

#[test]
fn serialise_refuses_wide_operand() {
    let mut chunk = Chunk::new();
    chunk.write_chunk(Opcode::OpConstant(300));
    assert_eq!(chunk.to_bytes(), None);
}

#[test]
fn parse_refuses_empty_input() {
    assert_eq!(Chunk::from_bytes(&[]), None);
}

#[test]
fn parse_refuses_unknown_constant_tag() {
    assert_eq!(Chunk::from_bytes(&[1, 77]), None);
}

#[test]
fn parse_refuses_unknown_opcode_tag() {
    assert_eq!(Chunk::from_bytes(&[0, 25]), None);
}

#[test]
fn parse_refuses_truncated_number() {
    assert_eq!(Chunk::from_bytes(&[1, 3, 0, 0]), None);
}

#[test]
fn parse_refuses_bad_utf8() {
    // one string constant of length 1 whose single byte cannot start UTF-8
    assert_eq!(Chunk::from_bytes(&[1, 4, 1, 0, 0, 0, 0, 0, 0, 0, 0xff]), None);
}

#[test]
fn parse_decodes_string_bytes() {
    // one string constant "hi", then OP_RETURN
    let bytes = [1u8, 4, 2, 0, 0, 0, 0, 0, 0, 0, b'h', b'i', 24];
    let chunk = Chunk::from_bytes(&bytes).unwrap();
    assert_eq!(chunk.constants, vec![Value::Object(ObjectValue::String("hi".to_string()))]);
    assert_eq!(chunk.op_codes, vec![Opcode::OpReturn]);
}

#[test]
fn serialised_layout_is_stable() {
    let mut chunk = Chunk::new();
    let idx = chunk.add_constant(Value::Boolean(true));
    chunk.write_chunk(Opcode::OpConstant(idx));
    chunk.write_chunk(Opcode::OpJump(513));
    chunk.write_chunk(Opcode::OpReturn);
    let bytes = chunk.to_bytes().unwrap();
    assert_eq!(bytes, vec![1u8, 1, 1, 0, 0, 20, 1, 2, 24]);
}

#[test]
fn disassemble_constant_and_return() {
    let mut chunk = Chunk::new();
    let idx = chunk.add_constant(Value::Number(3.0f64.to_bits()));
    chunk.write_chunk(Opcode::OpConstant(idx));
    chunk.write_chunk(Opcode::OpReturn);
    assert_eq!(chunk.disassemble_chunk(), "0000 OP_CONSTANT  0 '3' \n0001 OP_RETURN   \n");
}

#[test]
fn disassemble_jump_targets() {
    let mut chunk = Chunk::new();
    chunk.write_chunk(Opcode::OpJump(3));
    chunk.write_chunk(Opcode::OpLoop(5));
    assert_eq!(
        chunk.disassemble_chunk(),
        "0000 OP_JUMP      0 -> 4\n0001 OP_LOOP      1 -> -3\n"
    );
}

#[test]
fn disassemble_local_slots() {
    let mut chunk = Chunk::new();
    chunk.write_chunk(Opcode::OpGetLocal(2));
    chunk.write_chunk(Opcode::OpSetLocal(11));
    assert_eq!(
        chunk.disassemble_chunk(),
        "0000 OP_GET_LOCAL 2  \n0001 OP_SET_LOCAL 11  \n"
    );
}

#[test]
fn render_number_constants() {
    let mut out = String::new();
    lox_bytecode::disasm::render_value_into(&Value::Number((-7.0f64).to_bits()), &mut out);
    assert_eq!(out, "-7");

    let mut out = String::new();
    lox_bytecode::disasm::render_value_into(&Value::Number(3.14f64.to_bits()), &mut out);
    assert_eq!(out, "0x40091eb851eb851f");

    let mut out = String::new();
    lox_bytecode::disasm::render_value_into(&Value::Number(f64::NAN.to_bits()), &mut out);
    assert_eq!(out, "NaN");

    let mut out = String::new();
    lox_bytecode::disasm::render_value_into(&Value::Number(f64::NEG_INFINITY.to_bits()), &mut out);
    assert_eq!(out, "-inf");

    let mut out = String::new();
    lox_bytecode::disasm::render_value_into(&Value::Number((-0.0f64).to_bits()), &mut out);
    assert_eq!(out, "-0");

    let mut out = String::new();
    lox_bytecode::disasm::render_value_into(&Value::Number(4503599627370496.0f64.to_bits()), &mut out);
    assert_eq!(out, "4503599627370496");
}

#[test]
fn render_other_constants() {
    let mut out = String::new();
    lox_bytecode::disasm::render_value_into(&Value::Nil, &mut out);
    assert_eq!(out, "nil");

    let mut out = String::new();
    lox_bytecode::disasm::render_value_into(&Value::Boolean(false), &mut out);
    assert_eq!(out, "false");

    let mut out = String::new();
    lox_bytecode::disasm::render_value_into(
        &Value::Object(ObjectValue::Function(FunctionObj { name: "sum".to_string(), arity: 2 })),
        &mut out,
    );
    assert_eq!(out, "<fn sum>");
}

#[test]
fn value_equality_rules() {
    // numbers: IEEE equality — NaN equals nothing, the two zeroes are equal
    let nan = Value::Number(f64::NAN.to_bits());
    assert!(!nan.equals(&nan));
    let pz = Value::Number(0.0f64.to_bits());
    let nz = Value::Number((-0.0f64).to_bits());
    assert!(pz.equals(&nz));
    assert!(Value::Number(2.5f64.to_bits()).equals(&Value::Number(2.5f64.to_bits())));
    assert!(!Value::Number(2.5f64.to_bits()).equals(&Value::Number(2.6f64.to_bits())));

    // strings compare by content
    let a = Value::Object(ObjectValue::String("abc".to_string()));
    let b = Value::Object(ObjectValue::String("abc".to_string()));
    let c = Value::Object(ObjectValue::String("abd".to_string()));
    assert!(a.equals(&b));
    assert!(!a.equals(&c));

    // values of different kind are unequal
    assert!(!Value::Nil.equals(&Value::Boolean(false)));
    assert!(!Value::Boolean(true).equals(&Value::Number(1.0f64.to_bits())));
    assert!(Value::Nil.equals(&Value::Nil));
    assert!(Value::Boolean(true).equals(&Value::Boolean(true)));
    assert!(!Value::Boolean(true).equals(&Value::Boolean(false)));
}

#[test]
fn truthiness_of_values() {
    assert!(Value::Nil.is_falsey());
    assert!(Value::Boolean(false).is_falsey());
    assert!(!Value::Boolean(true).is_falsey());
    assert!(!Value::Number(0.0f64.to_bits()).is_falsey());
    assert!(!Value::Object(ObjectValue::String(String::new())).is_falsey());
}

#[test]
fn opcode_reader_walks_and_rewinds() {
    let ops = vec![Opcode::OpNil, Opcode::OpTrue, Opcode::OpFalse];
    let mut reader = ChunkOpCodeReader::new(&ops);
    assert_eq!(reader.next(), Some(&Opcode::OpNil));
    assert_eq!(reader.next(), Some(&Opcode::OpTrue));
    reader.prev();
    assert_eq!(reader.next(), Some(&Opcode::OpTrue));
    assert_eq!(reader.next(), Some(&Opcode::OpFalse));
    assert_eq!(reader.next(), None);
    assert_eq!(reader.next(), None);
}

#[test]
fn opcode_reader_reads_operand_slice() {
    let ops = vec![Opcode::OpCall(2), Opcode::OpNil, Opcode::OpTrue, Opcode::OpReturn];
    let mut reader = ChunkOpCodeReader::new(&ops);
    let operands = reader.read_slice(2);
    assert_eq!(operands, &[Opcode::OpNil, Opcode::OpTrue][..]);
}

#[test]
fn size_round_trip() {
    let bytes = Chunk::size_to_bytes(99);
    assert_eq!(bytes, [99, 0, 0, 0, 0, 0, 0, 0]);
    assert_eq!(Chunk::bytes_to_usize(&bytes), 99);
}

#[test]
fn writer_trait_emits_and_patches() {
    let mut chunk = Chunk::new();
    chunk.emit_constant(Value::Number(1.0f64.to_bits()), 1);
    chunk.emit_bytes(Opcode::OpNegate, Opcode::OpPrint, 1);
    chunk.emit_byte(Opcode::OpJump(0), 2);
    let at = ChunkWriterTrait::len(&chunk) - 1;
    chunk.emit_return(2);
    ChunkWriterTrait::replace_opcode(&mut chunk, at, Opcode::OpJump(1));
    let idx = chunk.make_constant(Value::Nil);
    assert_eq!(idx, 1);
    assert_eq!(
        chunk.op_codes,
        vec![
            Opcode::OpConstant(0),
            Opcode::OpNegate,
            Opcode::OpPrint,
            Opcode::OpJump(1),
            Opcode::OpReturn,
        ]
    );
    assert_eq!(chunk.constants, vec![Value::Number(1.0f64.to_bits()), Value::Nil]);
}

#[test]
fn read_constant_bounds() {
    let mut chunk = Chunk::new();
    chunk.add_constant(Value::Boolean(true));
    assert_eq!(chunk.read_constant(0), Some(&Value::Boolean(true)));
    assert_eq!(chunk.read_constant(1), None);
}
