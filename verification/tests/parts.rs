use wasm_core::error::ExecuteError;
use wasm_core::frame::Frame;
use wasm_core::int_ops;
use wasm_core::memory::{Memory, PAGE_SIZE};
use wasm_core::module::{Export, Exports, Function, FunctionBody, Type, ValType};
use wasm_core::opcode::Memarg;
use wasm_core::value::Value;

fn at(offset: u32) -> Memarg {
    Memarg { offset, align: 0 }
}

#[test]
fn a_load_gives_back_a_store() {
    let mut memory = Memory::new(16, None);
    int_ops::i32_store(4, Value::I32(-2), &at(0), &mut memory, 4).unwrap();
    assert_eq!(int_ops::i32_load_u(4, &at(0), &memory, 4).unwrap(), Value::I32(-2));
    int_ops::i64_store(2, Value::I64(0x0102_0304_0506_0708), &at(6), &mut memory, 8).unwrap();
    assert_eq!(
        int_ops::i64_load_u(8, &at(0), &memory, 8).unwrap(),
        Value::I64(0x0102_0304_0506_0708)
    );
    assert_eq!(int_ops::i32_load_u(4, &at(0), &memory, 4).unwrap(), Value::I32(-2));
}

#[test]
fn bytes_are_stored_the_least_significant_first() {
    let mut memory = Memory::new(8, None);
    int_ops::i32_store(0, Value::I32(0x0403_0201), &at(0), &mut memory, 4).unwrap();
    for i in 0..4 {
        assert_eq!(
            int_ops::i32_load_u(i, &at(0), &memory, 1).unwrap(),
            Value::I32(i as i32 + 1)
        );
    }
}

#[test]
fn narrow_loads_extend_with_or_without_sign() {
    let mut memory = Memory::new(8, None);
    int_ops::i64_store(0, Value::I64(-2), &at(0), &mut memory, 8).unwrap();
    assert_eq!(int_ops::i32_load_u(0, &at(0), &memory, 1).unwrap(), Value::I32(254));
    assert_eq!(int_ops::i32_load_s(0, &at(0), &memory, 1).unwrap(), Value::I32(-2));
    assert_eq!(int_ops::i32_load_u(0, &at(0), &memory, 2).unwrap(), Value::I32(65534));
    assert_eq!(int_ops::i32_load_s(0, &at(0), &memory, 2).unwrap(), Value::I32(-2));
    assert_eq!(int_ops::i64_load_u(0, &at(0), &memory, 4).unwrap(), Value::I64(0xffff_fffe));
    assert_eq!(int_ops::i64_load_s(0, &at(0), &memory, 4).unwrap(), Value::I64(-2));
    assert_eq!(int_ops::i64_load_s(0, &at(0), &memory, 8).unwrap(), Value::I64(-2));
}

#[test]
fn narrow_stores_cut_the_number_down() {
    let mut memory = Memory::new(8, None);
    int_ops::i32_store(0, Value::I32(0x1234_5678), &at(0), &mut memory, 2).unwrap();
    assert_eq!(int_ops::i32_load_u(0, &at(0), &memory, 4).unwrap(), Value::I32(0x5678));
    int_ops::i64_store(0, Value::I64(-1), &at(0), &mut memory, 1).unwrap();
    assert_eq!(int_ops::i32_load_u(0, &at(0), &memory, 4).unwrap(), Value::I32(0x56ff));
}

#[test]
fn accesses_end_within_memory() {
    let mut memory = Memory::new(8, None);
    assert!(int_ops::i32_load_u(4, &at(0), &memory, 4).is_ok());
    assert!(matches!(
        int_ops::i32_load_u(4, &at(1), &memory, 4),
        Err(ExecuteError::AddrOutOfBound(5, 4))
    ));
    assert!(matches!(
        int_ops::i64_load_s(u32::MAX, &at(u32::MAX), &memory, 8),
        Err(ExecuteError::AddrOutOfBound(0xffff_fffe, 8))
    ));
    assert!(matches!(
        int_ops::i64_store(1, Value::I64(1), &at(0), &mut memory, 8),
        Err(ExecuteError::AddrOutOfBound(1, 8))
    ));
    assert!(matches!(
        int_ops::i32_store(0, Value::I64(1), &at(0), &mut memory, 4),
        Err(ExecuteError::ValueTypeMismatch)
    ));
    assert!(matches!(
        int_ops::i64_store(0, Value::I32(1), &at(0), &mut memory, 4),
        Err(ExecuteError::ValueTypeMismatch)
    ));
    assert_eq!(int_ops::i64_load_u(0, &at(0), &memory, 8).unwrap(), Value::I64(0));
}

#[test]
fn memory_grows_by_pages() {
    let mut memory = Memory::new(PAGE_SIZE, Some(4 * PAGE_SIZE));
    int_ops::i32_store(0, Value::I32(77), &at(0), &mut memory, 4).unwrap();
    assert_eq!(memory.current_size(), Value::I32(1));
    assert_eq!(memory.grow(2), Value::I32(1));
    assert_eq!(memory.current_size(), Value::I32(3));
    assert_eq!(memory.grow(1), Value::I32(3));
    assert_eq!(memory.current_size(), Value::I32(4));
    assert_eq!(int_ops::i32_load_u(0, &at(0), &memory, 4).unwrap(), Value::I32(77));
    let last = (4 * PAGE_SIZE - 4) as u32;
    assert_eq!(int_ops::i32_load_u(last, &at(0), &memory, 4).unwrap(), Value::I32(0));
}

#[test]
fn growth_that_is_refused_changes_nothing() {
    let mut memory = Memory::new(PAGE_SIZE, Some(2 * PAGE_SIZE));
    assert_eq!(memory.grow(0), Value::I32(-1));
    assert_eq!(memory.grow(-1), Value::I32(-1));
    assert_eq!(memory.grow(2), Value::I32(-1));
    assert_eq!(memory.grow(16385), Value::I32(-1));
    assert_eq!(memory.current_size(), Value::I32(1));
    let mut unlimited = Memory::new(10, None);
    assert_eq!(unlimited.current_size(), Value::I32(0));
    assert_eq!(unlimited.grow(16385), Value::I32(-1));
    assert_eq!(unlimited.grow(1), Value::I32(0));
    assert_eq!(unlimited.current_size(), Value::I32(1));
}

#[test]
fn a_pop_undoes_a_push() {
    let mut frame = Frame::setup_no_locals(3);
    assert!(matches!(frame.pop_operand(), Err(ExecuteError::OperandStackUnderflow)));
    assert!(matches!(frame.top_operand(), Err(ExecuteError::OperandStackUnderflow)));
    frame.push_operand(Value::I32(1));
    frame.push_operand(Value::I64(2));
    assert_eq!(frame.top_operand().unwrap(), Value::I64(2));
    assert_eq!(frame.pop_operand().unwrap(), Value::I64(2));
    assert_eq!(frame.pop_operand().unwrap(), Value::I32(1));
    assert!(frame.pop_operand().is_err());
}

#[test]
fn a_local_holds_its_value() {
    let function = Function {
        name: None,
        typeidx: 0,
        locals: vec![ValType::I32, ValType::F64],
        body: FunctionBody { opcodes: vec![] },
    };
    let mut frame = Frame::setup(0, &function);
    assert_eq!(frame.get_local(0).unwrap(), Value::Undef);
    frame.set_local(1, Value::I32(9)).unwrap();
    assert_eq!(frame.get_local(1).unwrap(), Value::I32(9));
    assert_eq!(frame.get_local(0).unwrap(), Value::Undef);
    assert!(matches!(
        frame.set_local(2, Value::Undef),
        Err(ExecuteError::LocalIndexOutOfBound(2))
    ));
    assert!(matches!(frame.get_local(2), Err(ExecuteError::LocalIndexOutOfBound(2))));
    assert!(Frame::setup_no_locals(0).get_local(0).is_err());
}

#[test]
fn an_export_replaces_one_of_the_same_name() {
    let mut exports = Exports::new();
    assert_eq!(exports.get("main"), None);
    exports.insert("main".to_string(), Export::Function(1));
    exports.insert("other".to_string(), Export::Function(2));
    exports.insert("main".to_string(), Export::Function(3));
    assert_eq!(exports.get("main"), Some(Export::Function(3)));
    assert_eq!(exports.get("other"), Some(Export::Function(2)));
    assert_eq!(exports.get("Main"), None);
}

#[test]
fn types_are_compared_by_their_lists() {
    let a = Type::Func(vec![ValType::I32, ValType::I64], vec![ValType::I32]);
    assert!(a.same_as(&a.clone()));
    assert!(!a.same_as(&Type::Func(vec![ValType::I32], vec![ValType::I32])));
    assert!(!a.same_as(&Type::Func(vec![ValType::I32, ValType::F64], vec![ValType::I32])));
    assert!(!a.same_as(&Type::Func(vec![ValType::I32, ValType::I64], vec![])));
}
