use luadec::chunk::{header, instruction, lua, Constants, Local, LuaNumber};
use luadec::error::DecodeError;
use luadec::instruction::Instruction;
use luadec::opcode::{OpCode, OpCodeMode, StackChange};
use luadec::render::{process_node, NumberText};
use luadec::tree::{to_nodes, Node};

const BIAS: i64 = ((1 << 26) - 1) >> 1;

fn op_u(op: u64, u: u64) -> Instruction {
    Instruction::new((u << 6) | op, 32, 6, 9).unwrap()
}

fn op_s(op: u64, s: i64) -> Instruction {
    op_u(op, (s + BIAS) as u64)
}

fn op_ab(op: u64, a: u64, b: u64) -> Instruction {
    Instruction::new((a << 15) | (b << 6) | op, 32, 6, 9).unwrap()
}

fn constants(strings: &[&str]) -> Constants {
    Constants { strings: strings.iter().map(|s| s.to_string()).collect(), numbers: vec![], functions: vec![] }
}

fn render_all(nodes: &[Node], constants: &Constants) -> Vec<String> {
    nodes.iter().map(|n| process_node(n, &vec![], constants, &vec![]).unwrap()).collect()
}

#[test]
fn opcode_tables() {
    assert!(OpCode::JumpNotEqual.is_jump());
    assert!(OpCode::Jump.is_jump());
    assert!(!OpCode::PushNilJump.is_jump());
    assert!(!OpCode::Not.is_jump());
    assert_eq!(OpCode::PushInt.mode(), OpCodeMode::Signed);
    assert_eq!(OpCode::Call.mode(), OpCodeMode::AB);
    assert_eq!(OpCode::End.mode(), OpCodeMode::NoOperand);
    assert_eq!(OpCode::PushSelf.push_count(), StackChange::Constant(2));
    assert_eq!(OpCode::Call.pop_count(), StackChange::Delta);
    assert_eq!(OpCode::Jump.pop_count(), StackChange::Nothing);
    assert_eq!(OpCode::from_code(48), Some(OpCode::Closure));
    assert_eq!(OpCode::from_code(49), None);
    assert_eq!(OpCode::Closure.code(), 48);
}

#[test]
fn instruction_operands() {
    let i = Instruction::new((3 << 15) | (5 << 6) | 2, 32, 6, 9).unwrap();
    assert_eq!(i.op(), OpCode::Call);
    assert_eq!(i.a(), 3);
    assert_eq!(i.b(), 5);
    assert_eq!(i.u(), (3 << 9) | 5);
    assert_eq!(i.push_count(), 5);
    assert_eq!(i.pop_count(), Some(4));
    let j = op_s(6, -7);
    assert_eq!(j.s(), -7);
    assert_eq!(op_u(21, 0).pop_count(), None);
    assert_eq!(op_u(4, 3).push_count(), 3);
}

#[test]
fn instruction_rejects_bad_words() {
    assert!(matches!(Instruction::new(63, 32, 6, 9), Err(DecodeError::InvalidOpcode { opcode: 63 })));
    assert!(matches!(Instruction::new(0, 32, 0, 9), Err(DecodeError::UnsupportedEncoding { .. })));
    assert!(matches!(Instruction::new(0, 16, 6, 11), Err(DecodeError::UnsupportedEncoding { .. })));
    // The `A` field may be empty.
    let full = Instruction::new((5 << 6) | 1, 15, 6, 9).unwrap();
    assert_eq!((full.op(), full.b(), full.a()), (OpCode::Return, 5, 0));
}

#[test]
fn return_of_sum_renders() {
    let code = vec![op_s(6, 5), op_s(24, 3), op_u(1, 1)];
    let nodes = to_nodes(code).unwrap();
    assert_eq!(nodes.len(), 1);
    assert_eq!(nodes[0].instruction.op(), OpCode::Return);
    assert_eq!(nodes[0].children.len(), 1);
    assert_eq!(nodes[0].children[0].instruction.op(), OpCode::AddInt);
    assert_eq!(nodes[0].instruction_count(), 3);
    assert_eq!(render_all(&nodes, &constants(&[])), vec!["return 5 + 3".to_string()]);
}

#[test]
fn call_of_print_renders() {
    let code = vec![op_u(12, 0), op_u(7, 1), op_ab(2, 1, 0)];
    let c = constants(&["print", "hi"]);
    let nodes = to_nodes(code).unwrap();
    assert_eq!(nodes.len(), 1);
    assert_eq!(render_all(&nodes, &c), vec!["print(\"hi\")".to_string()]);
}

#[test]
fn forward_jump_nests_block() {
    let code = vec![op_u(12, 0), op_s(6, 1), op_s(33, 2), op_u(1, 0), op_u(1, 0), op_u(0, 0)];
    let nodes = to_nodes(code).unwrap();
    assert_eq!(nodes.len(), 2);
    let jump = &nodes[0];
    assert_eq!(jump.instruction.op(), OpCode::JumpEqual);
    assert_eq!(jump.children.len(), 4);
    assert_eq!(jump.children[0].instruction.op(), OpCode::PushInt);
    assert_eq!(jump.children[1].instruction.op(), OpCode::GetGlobal);
    assert_eq!(jump.children[2].instruction.op(), OpCode::Return);
    assert_eq!(jump.children[3].instruction.op(), OpCode::Return);
    assert_eq!(nodes[1].instruction.op(), OpCode::End);
    let text = render_all(&nodes, &constants(&["x"]));
    assert_eq!(text[0], "if (x ~= 1) then\n  return \n  return \nend");
    assert_eq!(text[1], "");
}

#[test]
fn truthiness_jump_and_assignment() {
    // if (not  x) then y = 5 end
    let code = vec![op_u(12, 0), op_s(38, 2), op_s(6, 5), op_u(19, 1)];
    let nodes = to_nodes(code).unwrap();
    let text = render_all(&nodes, &constants(&["x", "y"]));
    assert_eq!(text, vec!["if (not  x) then\n  y = 5\nend".to_string()]);
}

#[test]
fn unbalanced_arrays_fail() {
    let two_pop = vec![op_s(6, 1), op_u(23, 0)];
    assert!(matches!(to_nodes(two_pop), Err(DecodeError::MalformedChunk { offset: 1 })));
    let leftover = vec![op_s(6, 1)];
    assert!(matches!(to_nodes(leftover), Err(DecodeError::MalformedChunk { offset: 1 })));
    let past_end = vec![op_s(42, 3), op_u(0, 0)];
    assert!(matches!(to_nodes(past_end), Err(DecodeError::MalformedChunk { offset: 0 })));
    let table_fill = vec![op_ab(21, 0, 0)];
    assert!(matches!(to_nodes(table_fill), Err(DecodeError::UnmodelledEffect { index: 0 })));
}

#[test]
fn same_array_same_forest() {
    let code = vec![op_u(12, 0), op_s(6, 1), op_s(33, 2), op_u(1, 0), op_u(1, 0), op_u(0, 0)];
    let a = to_nodes(code.clone()).unwrap();
    let b = to_nodes(code).unwrap();
    assert_eq!(format!("{:?}", a), format!("{:?}", b));
}

#[test]
fn generator_refuses_unmodelled_opcodes() {
    let code = vec![op_s(6, 1), op_s(6, 2), op_u(23, 0), op_u(1, 1)];
    let nodes = to_nodes(code).unwrap();
    let r = process_node(&nodes[0], &vec![], &constants(&[]), &vec![]);
    match r {
        Err(DecodeError::UnsupportedOpcode { op, children }) => {
            assert_eq!(op, OpCode::Add);
            assert_eq!(children, vec!["2".to_string(), "1".to_string()]);
        },
        other => panic!("unexpected {:?}", other),
    }
}

#[test]
fn generator_literals_and_names() {
    let c = Constants { strings: vec!["t".to_string(), "f".to_string()], numbers: vec![LuaNumber { bits: 0, size: 8 }], functions: vec![] };
    let numbers = vec![NumberText { text: "2.5".to_string(), negated: "-2.5".to_string() }];
    let locals = vec![Local { name: "count".to_string(), start: 0, end: 3 }];
    let code = vec![
        op_u(4, 2), op_u(1, 1),
        op_u(8, 0), op_u(1, 1),
        op_u(9, 0), op_u(1, 1),
        op_u(11, 0), op_u(1, 1),
        op_u(11, 7), op_u(1, 1),
        op_u(17, 4), op_u(1, 1),
        op_u(17, 0), op_u(1, 1),
        op_u(12, 0), op_u(14, 1), op_u(1, 1),
        op_s(6, -12), op_u(1, 1),
    ];
    let nodes = to_nodes(code).unwrap();
    let text: Vec<String> = nodes.iter().map(|n| process_node(n, &locals, &c, &numbers).unwrap()).collect();
    assert_eq!(text, vec![
        "return nilnil", "return 2.5", "return -2.5", "return count", "return local_7",
        "return {n=4}", "return {}", "return t.f", "return -12",
    ]);
}

#[test]
fn generator_checks_operands() {
    let code = vec![op_u(12, 5), op_u(1, 1)];
    let nodes = to_nodes(code).unwrap();
    let r = process_node(&nodes[0], &vec![], &constants(&["x"]), &vec![]);
    assert!(matches!(r, Err(DecodeError::InvalidOperand { op: OpCode::GetGlobal })));
}

fn le_header(sizeof_instruction: u8, size_instruction: u8, size_b: u8, endianess: u8) -> Vec<u8> {
    let mut h = vec![0x1b, b'L', b'u', b'a', 0x40, endianess, 4, 4, sizeof_instruction, size_instruction, 6, size_b, 8];
    h.extend_from_slice(&[0, 0, 0, 0, 0, 0x40, 0x59, 0x40]);
    h
}

fn int_le(v: i32) -> Vec<u8> {
    v.to_le_bytes().to_vec()
}

/// A chunk whose function sets `x = 5`.
fn small_chunk() -> Vec<u8> {
    let mut b = le_header(4, 32, 9, 1);
    b.extend(int_le(6));
    b.extend_from_slice(b"=test\0");
    for v in [0, 0] {
        b.extend(int_le(v));
    }
    b.push(0);
    b.extend(int_le(2));
    b.extend(int_le(0));
    b.extend(int_le(0));
    b.extend(int_le(1));
    b.extend(int_le(2));
    b.extend_from_slice(b"x\0");
    b.extend(int_le(0));
    b.extend(int_le(0));
    b.extend(int_le(3));
    for w in [(((5 + BIAS) as u32) << 6) | 6, 19, 0u32] {
        b.extend_from_slice(&w.to_le_bytes());
    }
    b
}

#[test]
fn whole_chunk_decodes_and_renders() {
    let bytes = small_chunk();
    let (h, f) = lua(&bytes).unwrap();
    assert_eq!(h.signature, "Lua");
    assert_eq!(h.sizeof_instruction, 4);
    assert_eq!(h.test_number.len(), 8);
    assert_eq!(f.source, "=test");
    assert_eq!(f.max_stack_size, 2);
    assert_eq!(f.constants.strings, vec!["x".to_string()]);
    assert_eq!(f.code.len(), 3);
    assert_eq!(f.code[2].op(), OpCode::End);
    let nodes = to_nodes(f.code.clone()).unwrap();
    assert_eq!(render_all(&nodes, &f.constants), vec!["x = 5".to_string(), "".to_string()]);
}

#[test]
fn chunk_structure_errors() {
    let mut bytes = small_chunk();
    bytes.push(0);
    assert!(matches!(lua(&bytes), Err(DecodeError::MalformedChunk { .. })));
    let mut no_end = small_chunk();
    let n = no_end.len();
    no_end[n - 4] = 1;
    assert!(matches!(lua(&no_end), Err(DecodeError::MalformedChunk { .. })));
    let short = small_chunk()[..30].to_vec();
    assert!(matches!(lua(&short), Err(DecodeError::MalformedChunk { .. })));
}

#[test]
fn header_errors() {
    let mut h = le_header(4, 32, 9, 1);
    h[1] = b'l';
    assert!(matches!(header(&h), Err(DecodeError::Header { offset: 1 })));
    let mut v = le_header(4, 32, 9, 1);
    v[4] = 0x50;
    assert!(matches!(header(&v), Err(DecodeError::Header { offset: 4 })));
    let mut e = le_header(4, 32, 9, 1);
    e[5] = 2;
    assert!(matches!(header(&e), Err(DecodeError::UnsupportedEncoding { offset: 5 })));
    let mut n = le_header(4, 32, 9, 1);
    n[12] = 16;
    assert!(matches!(header(&n), Err(DecodeError::UnsupportedEncoding { offset: 12 })));
    assert!(matches!(header(&[0, 0, 0, 0, 0]), Err(DecodeError::Header { offset: 0 })));
    assert!(matches!(header(&[]), Err(DecodeError::Header { offset: 0 })));
    assert!(matches!(header(&[0x1b, b'L', b'u']), Err(DecodeError::Header { offset: 1 })));
    assert!(matches!(header(&[0x1b, b'L', b'u', b'a']), Err(DecodeError::Header { offset: 4 })));
    let cut = le_header(4, 32, 9, 1)[..10].to_vec();
    assert!(matches!(header(&cut), Err(DecodeError::MalformedChunk { offset: 10 })));
    let (ok, end) = header(&le_header(4, 32, 9, 1)).unwrap();
    assert_eq!(end, 21);
    assert_eq!(ok.size_op, 6);
}

#[test]
fn encodings_do_not_cross() {
    let little4 = le_header(4, 32, 9, 1);
    let big2 = le_header(2, 16, 4, 0);
    let (h4, _) = header(&little4).unwrap();
    let (h2, _) = header(&big2).unwrap();
    // PushInt -1 in each encoding.
    let word4: u32 = (((BIAS - 1) as u32) << 6) | 6;
    let word2: u16 = ((((1u16 << 10) - 1) / 2 - 1) << 6) | 6;
    let bytes4 = word4.to_le_bytes();
    let bytes2 = word2.to_be_bytes();
    let (i4, _) = instruction(&bytes4, 0, &h4).unwrap();
    let (i2, _) = instruction(&bytes2, 0, &h2).unwrap();
    assert_eq!((i4.op(), i4.s()), (OpCode::PushInt, -1));
    assert_eq!((i2.op(), i2.s()), (OpCode::PushInt, -1));
    // The little-endian word read as a big-endian two-byte one has no opcode.
    assert!(matches!(instruction(&bytes4, 0, &h2), Err(DecodeError::InvalidOpcode { .. })));
    // Widths of one encoding with the instruction size of the other are refused.
    let crossed = le_header(2, 32, 9, 0);
    assert!(matches!(header(&crossed), Err(DecodeError::UnsupportedEncoding { offset: 9 })));
}

#[test]
fn primitive_readers_follow_byte_order() {
    let (little, _) = header(&le_header(4, 32, 9, 1)).unwrap();
    let (big, _) = header(&le_header(4, 32, 9, 0)).unwrap();
    let bytes = [0xfe, 0xff, 0xff, 0xff, 0x00, 0x00, 0x01, 0x00];
    assert_eq!(luadec::chunk::integer(&bytes, 0, &little).unwrap(), (-2, 4));
    assert_eq!(luadec::chunk::integer(&bytes, 0, &big).unwrap(), (-16777217, 4));
    assert_eq!(luadec::chunk::size_t(&bytes, 4, &big).unwrap(), (256, 8));
    assert!(matches!(luadec::chunk::integer(&bytes, 6, &little), Err(DecodeError::MalformedChunk { offset: 6 })));
    let (n, end) = luadec::chunk::number(&[0, 0, 0, 0, 0, 0, 0xf0, 0x3f], 0, &little).unwrap();
    assert_eq!((n.bits, n.size, end), (0x3ff0_0000_0000_0000, 8, 8));
}

#[test]
fn strings_drop_their_nul() {
    let (h, _) = header(&le_header(4, 32, 9, 1)).unwrap();
    let mut b = int_le(4);
    b.extend_from_slice(&[0xc3, 0xa9, b'!', 0]);
    assert_eq!(luadec::chunk::string(&b, 0, &h).unwrap(), ("é!".to_string(), 8));
    assert_eq!(luadec::chunk::string(&int_le(0), 0, &h).unwrap(), (String::new(), 4));
    let mut no_nul = int_le(2);
    no_nul.extend_from_slice(b"ab");
    assert!(matches!(luadec::chunk::string(&no_nul, 0, &h), Err(DecodeError::MalformedChunk { offset: 4 })));
    let mut bad = int_le(3);
    bad.extend_from_slice(&[0xff, 0xfe, 0]);
    assert!(matches!(luadec::chunk::string(&bad, 0, &h), Err(DecodeError::MalformedChunk { offset: 4 })));
}

#[test]
fn closure_renders_parameters() {
    let inner = lua(&small_chunk()).unwrap().1;
    let mut inner = inner;
    inner.param_count = 2;
    let c = Constants { strings: vec![], numbers: vec![], functions: vec![inner] };
    let code = vec![op_ab(48, 0, 0), op_u(1, 1)];
    let nodes = to_nodes(code).unwrap();
    let text = process_node(&nodes[0], &vec![], &c, &vec![]).unwrap();
    assert_eq!(text, "return function(local_0, local_1)\n\nend");
}
