use wasm_core::error::{ExecuteError, ExecuteResult};
use wasm_core::executor::{Execution, Step, VirtualMachine};
use wasm_core::module::{
    DataSegment, Export, Exports, Function, FunctionBody, Global, Module, Native, Table, Type,
    ValType,
};
use wasm_core::native::{NativeEntry, NativeResolver};
use wasm_core::opcode::{Memarg, Opcode};
use wasm_core::runtime::{DebugPrint, RuntimeConfig, RuntimeInfo};
use wasm_core::value::Value;

#[derive(Copy, Clone)]
struct Silent;

impl DebugPrint for Silent {
    fn print(&self, _s: &str) {}
}

struct Never;

impl NativeEntry<NoHost, Silent> for Never {
    fn call(
        &self,
        _rt: &mut RuntimeInfo<NoHost, Silent>,
        _args: &[Value],
    ) -> ExecuteResult<Option<Value>> {
        Ok(None)
    }
}

struct NoHost;

impl NativeResolver for NoHost {
    type Hook = Silent;
    type Entry = Never;

    fn resolve(&self, _module: &str, _field: &str) -> Option<Never> {
        None
    }
}

fn config() -> RuntimeConfig<NoHost> {
    RuntimeConfig { mem_default_size_pages: 1, mem_max_size_pages: Some(3), resolver: NoHost }
}

fn function(name: &str, typeidx: u32, locals: usize, opcodes: Vec<Opcode>) -> Function {
    Function {
        name: Some(name.to_string()),
        typeidx,
        locals: vec![ValType::I32; locals],
        body: FunctionBody { opcodes },
    }
}

/// Type 0 takes nothing, type 1 one number, type 2 two; all give one number.
/// Type 3 takes and gives nothing.
fn module(functions: Vec<Function>) -> Module {
    Module {
        types: vec![
            Type::Func(vec![], vec![ValType::I32]),
            Type::Func(vec![ValType::I32], vec![ValType::I32]),
            Type::Func(vec![ValType::I32, ValType::I32], vec![ValType::I32]),
            Type::Func(vec![], vec![]),
        ],
        functions,
        data_segments: vec![],
        exports: Exports::new(),
        tables: vec![],
        globals: vec![],
        natives: vec![],
    }
}

fn run(opcodes: Vec<Opcode>) -> ExecuteResult<Option<Value>> {
    module(vec![function("main", 0, 2, opcodes)]).execute(config(), 0)
}

fn value_of(opcodes: Vec<Opcode>) -> Value {
    run(opcodes).unwrap().unwrap()
}

#[test]
fn a_sum_of_constants() {
    let result = value_of(vec![
        Opcode::I32Const(40),
        Opcode::I32Const(2),
        Opcode::I32Add,
        Opcode::Return,
    ]);
    assert_eq!(result, Value::I32(42));
}

#[test]
fn the_operand_on_top_is_the_second_one() {
    let result = value_of(vec![
        Opcode::I32Const(7),
        Opcode::I32Const(2),
        Opcode::I32Sub,
        Opcode::Return,
    ]);
    assert_eq!(result, Value::I32(5));
    let result = value_of(vec![
        Opcode::I64Const(1),
        Opcode::I64Const(9),
        Opcode::I64LtS,
        Opcode::Return,
    ]);
    assert_eq!(result, Value::I32(1));
}

#[test]
fn a_recursive_factorial() {
    let factorial = function(
        "factorial",
        1,
        0,
        vec![
            Opcode::GetLocal(0),
            Opcode::JmpIf(4),
            Opcode::I32Const(1),
            Opcode::Return,
            Opcode::GetLocal(0),
            Opcode::GetLocal(0),
            Opcode::I32Const(1),
            Opcode::I32Sub,
            Opcode::Call(0),
            Opcode::I32Mul,
            Opcode::Return,
        ],
    );
    let m = module(vec![factorial]);
    let mut vm = VirtualMachine::new(&m, config()).unwrap();
    assert_eq!(vm.execute(0, &[Value::I32(6)]).unwrap(), Some(Value::I32(720)));
    assert_eq!(vm.execute(0, &[Value::I32(6)]).unwrap(), Some(Value::I32(720)));
    assert!(vm.last_function().is_none());
    assert_eq!(vm.backtrace().frames.len(), 0);
}

#[test]
fn a_loop_over_locals() {
    // Sums the numbers from its argument down to one.
    let sum = function(
        "sum",
        1,
        1,
        vec![
            Opcode::GetLocal(0),
            Opcode::I32Eqz,
            Opcode::JmpIf(12),
            Opcode::GetLocal(0),
            Opcode::GetLocal(1),
            Opcode::I32Add,
            Opcode::SetLocal(1),
            Opcode::GetLocal(0),
            Opcode::I32Const(1),
            Opcode::I32Sub,
            Opcode::SetLocal(0),
            Opcode::Jmp(0),
            Opcode::GetLocal(1),
            Opcode::Return,
        ],
    );
    let m = module(vec![sum]);
    let mut vm = VirtualMachine::new(&m, config()).unwrap();
    assert_eq!(vm.execute(0, &[Value::I32(10)]).unwrap(), Some(Value::I32(55)));
}

#[test]
fn arguments_keep_their_order() {
    let minus = function(
        "minus",
        2,
        1,
        vec![
            Opcode::GetLocal(0),
            Opcode::GetLocal(1),
            Opcode::I32Sub,
            Opcode::GetLocal(2),
            Opcode::I32Add,
            Opcode::Return,
        ],
    );
    let main = function(
        "main",
        0,
        0,
        vec![
            Opcode::I32Const(100),
            Opcode::I32Const(9),
            Opcode::I32Const(4),
            Opcode::Call(0),
            Opcode::I32Add,
            Opcode::Return,
        ],
    );
    let m = module(vec![minus, main]);
    assert_eq!(m.execute(config(), 1).unwrap(), Some(Value::I32(105)));
    let mut vm = VirtualMachine::new(&m, config()).unwrap();
    assert_eq!(
        vm.execute(0, &[Value::I32(1), Value::I32(3)]).unwrap(),
        Some(Value::I32(-2))
    );
}

#[test]
fn a_function_without_results_gives_nothing() {
    let m = module(vec![function("unit", 3, 0, vec![Opcode::Nop, Opcode::Return])]);
    assert_eq!(m.execute(config(), 0).unwrap(), None);
}

#[test]
fn select_takes_the_lower_value_on_a_true_condition() {
    for (condition, expected) in [(1, 10), (-1, 10), (0, 20)] {
        let result = value_of(vec![
            Opcode::I32Const(10),
            Opcode::I32Const(20),
            Opcode::I32Const(condition),
            Opcode::Select,
            Opcode::Return,
        ]);
        assert_eq!(result, Value::I32(expected));
    }
}

#[test]
fn jumps_depend_on_their_operand() {
    for (operand, expected) in [(0, 100), (1, 200), (2, 300), (-1, 300)] {
        let result = value_of(vec![
            Opcode::I32Const(operand),
            Opcode::JmpTable(vec![2, 4], 6),
            Opcode::I32Const(100),
            Opcode::Return,
            Opcode::I32Const(200),
            Opcode::Return,
            Opcode::I32Const(300),
            Opcode::Return,
        ]);
        assert_eq!(result, Value::I32(expected));
    }
    for (operand, expected) in [(5, 1), (0, 2)] {
        let result = value_of(vec![
            Opcode::I32Const(operand),
            Opcode::JmpEither(2, 4),
            Opcode::I32Const(1),
            Opcode::Return,
            Opcode::I32Const(2),
            Opcode::Return,
        ]);
        assert_eq!(result, Value::I32(expected));
    }
}

#[test]
fn tee_keeps_its_operand() {
    let result = value_of(vec![
        Opcode::I32Const(21),
        Opcode::TeeLocal(1),
        Opcode::GetLocal(1),
        Opcode::I32Add,
        Opcode::Return,
    ]);
    assert_eq!(result, Value::I32(42));
}

#[test]
fn globals_are_read_and_written() {
    let mut m = module(vec![function(
        "main",
        0,
        0,
        vec![
            Opcode::GetGlobal(1),
            Opcode::I32Const(5),
            Opcode::I32Add,
            Opcode::SetGlobal(0),
            Opcode::GetGlobal(0),
            Opcode::Return,
        ],
    )]);
    m.globals = vec![Global { value: Value::Undef }, Global { value: Value::I32(8) }];
    let mut vm = VirtualMachine::new(&m, config()).unwrap();
    assert_eq!(vm.execute(0, &[]).unwrap(), Some(Value::I32(13)));
}

#[test]
fn float_constants_keep_their_bits() {
    assert_eq!(
        value_of(vec![Opcode::F32Const(1.5f32.to_bits()), Opcode::Return]),
        Value::F32(1.5f32.to_bits())
    );
    assert_eq!(
        value_of(vec![Opcode::F64Const(2.5f64.to_bits()), Opcode::Return]).cast_to_i64(),
        2
    );
}

#[test]
fn memory_instructions() {
    let m = Memarg { offset: 4, align: 2 };
    let result = value_of(vec![
        Opcode::I32Const(12),
        Opcode::I32Const(-3),
        Opcode::I32Store(m),
        Opcode::I32Const(16),
        Opcode::I32Load8S(Memarg { offset: 0, align: 0 }),
        Opcode::Return,
    ]);
    assert_eq!(result, Value::I32(-3));
    let result = value_of(vec![
        Opcode::I32Const(0),
        Opcode::I64Const(0x1_ffff_fff0),
        Opcode::I64Store32(m),
        Opcode::I32Const(0),
        Opcode::I64Load32U(m),
        Opcode::I32WrapI64,
        Opcode::Return,
    ]);
    assert_eq!(result, Value::I32(-16));
    let result = run(vec![
        Opcode::I32Const(-1),
        Opcode::I32Load(m),
        Opcode::Return,
    ]);
    assert!(matches!(result, Err(ExecuteError::AddrOutOfBound(3, 4))));
}

#[test]
fn growth_from_within_a_program() {
    let result = value_of(vec![
        Opcode::I32Const(2),
        Opcode::GrowMemory,
        Opcode::CurrentMemory,
        Opcode::I32Const(1),
        Opcode::GrowMemory,
        Opcode::I32Add,
        Opcode::I32Add,
        Opcode::Return,
    ]);
    // One page before, three after, and a refusal.
    assert_eq!(result, Value::I32(1 + 3 - 1));
}

fn copy(dest: i32, src: i32, n: i32) -> Vec<Opcode> {
    vec![
        Opcode::I32Const(dest),
        Opcode::I32Const(src),
        Opcode::I32Const(n),
        Opcode::Memcpy,
        Opcode::I32Const(0),
        Opcode::Return,
    ]
}

fn memory_after(opcodes: Vec<Opcode>) -> Vec<u8> {
    let mut m = module(vec![function("main", 0, 0, opcodes)]);
    m.data_segments = vec![DataSegment { offset: 0, data: vec![1, 2, 3, 4, 5] }];
    let mut vm = VirtualMachine::new(&m, config()).unwrap();
    vm.execute(0, &[]).unwrap();
    vm.get_runtime_info().get_memory()[..8].to_vec()
}

#[test]
fn a_copy_moves_a_region() {
    assert_eq!(memory_after(copy(5, 1, 2)), vec![1, 2, 3, 4, 5, 2, 3, 0]);
    assert_eq!(memory_after(copy(0, 1, 4)), vec![2, 3, 4, 5, 5, 0, 0, 0]);
    assert_eq!(memory_after(copy(7, 0, 0)), vec![1, 2, 3, 4, 5, 0, 0, 0]);
}

#[test]
fn a_copy_onto_its_own_tail_repeats() {
    assert_eq!(memory_after(copy(2, 0, 5)), vec![1, 2, 1, 2, 1, 2, 1, 0]);
}

#[test]
fn a_copy_ends_before_the_last_byte() {
    assert!(run(copy(65531, 0, 4)).is_ok());
    assert!(matches!(run(copy(65532, 0, 4)), Err(ExecuteError::AddrOutOfBound(65532, 4))));
    assert!(matches!(run(copy(0, 65532, 4)), Err(ExecuteError::AddrOutOfBound(65532, 4))));
    assert!(matches!(
        run(copy(0, 1, -1)),
        Err(ExecuteError::AddrOutOfBound(0, 0xffff_ffff))
    ));
}

#[test]
fn data_segments_are_in_memory() {
    let mut m = module(vec![]);
    m.data_segments = vec![
        DataSegment { offset: 1, data: vec![9, 9, 9] },
        DataSegment { offset: 2, data: vec![7] },
    ];
    let vm = VirtualMachine::new(&m, config()).unwrap();
    assert_eq!(vm.get_runtime_info().get_memory()[..5], [0, 9, 7, 9, 0]);
    assert_eq!(vm.get_runtime_info().get_memory().len(), 65536);
}

#[test]
fn data_segments_have_to_fit() {
    let mut m = module(vec![]);
    m.data_segments = vec![
        DataSegment { offset: 65535, data: vec![1] },
        DataSegment { offset: 65535, data: vec![1, 2] },
    ];
    assert!(matches!(
        VirtualMachine::new(&m, config()),
        Err(ExecuteError::AddrOutOfBound(65535, 2))
    ));
    m.data_segments = vec![DataSegment { offset: 65536, data: vec![] }];
    assert!(matches!(
        m.execute(config(), 0),
        Err(ExecuteError::AddrOutOfBound(65536, 0))
    ));
}

#[test]
fn exported_functions_are_found_by_name() {
    let mut m = module(vec![]);
    m.exports.insert("run".to_string(), Export::Function(4));
    let vm = VirtualMachine::new(&m, config()).unwrap();
    assert_eq!(vm.lookup_exported_func("run").unwrap(), 4);
    assert!(matches!(vm.lookup_exported_func("walk"), Err(ExecuteError::FunctionNotFound)));
}

fn indirect(index: Opcode, typeidx: u32) -> ExecuteResult<Option<Value>> {
    let mut m = module(vec![
        function("main", 0, 0, vec![index, Opcode::CallIndirect(typeidx), Opcode::Return]),
        function("seven", 0, 0, vec![Opcode::I32Const(7), Opcode::Return]),
        function("untyped", 9, 0, vec![]),
    ]);
    m.tables = vec![Table { elements: vec![Some(1), None, Some(3), Some(2)] }];
    m.execute(config(), 0)
}

#[test]
fn indirect_calls() {
    assert_eq!(indirect(Opcode::I32Const(0), 0).unwrap(), Some(Value::I32(7)));
    assert!(matches!(
        indirect(Opcode::I32Const(0), 9),
        Err(ExecuteError::TypeIdxIndexOufOfBound)
    ));
    assert!(matches!(
        indirect(Opcode::I32Const(4), 0),
        Err(ExecuteError::TableIndexOutOfBound)
    ));
    assert!(matches!(
        indirect(Opcode::I32Const(-1), 0),
        Err(ExecuteError::TableIndexOutOfBound)
    ));
    assert!(matches!(
        indirect(Opcode::I32Const(1), 0),
        Err(ExecuteError::UndefinedTableEntry)
    ));
    assert!(matches!(
        indirect(Opcode::I32Const(2), 0),
        Err(ExecuteError::FunctionIndexOutOfBound)
    ));
    assert!(matches!(
        indirect(Opcode::I32Const(3), 0),
        Err(ExecuteError::TypeIdxIndexOufOfBound)
    ));
    assert!(matches!(
        indirect(Opcode::I64Const(0), 0),
        Err(ExecuteError::ValueTypeMismatch)
    ));
    assert!(matches!(indirect(Opcode::Nop, 0), Err(ExecuteError::OperandStackUnderflow)));
    match indirect(Opcode::I32Const(0), 1) {
        Err(ExecuteError::IndirectCallTypeMismatch(1, expected, actual)) => {
            assert!(expected.same_as(&Type::Func(vec![ValType::I32], vec![ValType::I32])));
            assert!(actual.same_as(&Type::Func(vec![], vec![ValType::I32])));
        }
        _ => panic!("the types differ"),
    }
    assert!(matches!(
        run(vec![Opcode::I32Const(0), Opcode::CallIndirect(0)]),
        Err(ExecuteError::TableIndexOutOfBound)
    ));
}

#[test]
fn errors_of_single_instructions() {
    assert!(matches!(run(vec![]), Err(ExecuteError::OpcodeIndexOutOfBound)));
    assert!(matches!(run(vec![Opcode::Jmp(9)]), Err(ExecuteError::OpcodeIndexOutOfBound)));
    assert!(matches!(run(vec![Opcode::Drop]), Err(ExecuteError::OperandStackUnderflow)));
    assert!(matches!(
        run(vec![Opcode::I32Const(1), Opcode::I32Add]),
        Err(ExecuteError::OperandStackUnderflow)
    ));
    assert!(matches!(
        run(vec![Opcode::I32Const(1), Opcode::I64Const(1), Opcode::I32Add]),
        Err(ExecuteError::ValueTypeMismatch)
    ));
    assert!(matches!(
        run(vec![Opcode::I32Const(1), Opcode::SetLocal(2)]),
        Err(ExecuteError::LocalIndexOutOfBound(2))
    ));
    assert!(matches!(
        run(vec![Opcode::GetGlobal(0)]),
        Err(ExecuteError::GlobalIndexOutOfBound)
    ));
    assert!(matches!(
        run(vec![Opcode::SetGlobal(0)]),
        Err(ExecuteError::GlobalIndexOutOfBound)
    ));
    assert!(matches!(run(vec![Opcode::Unreachable]), Err(ExecuteError::UnreachableExecuted)));
    assert!(matches!(run(vec![Opcode::Return]), Err(ExecuteError::ReturnTypeMismatch)));
    assert!(matches!(
        run(vec![Opcode::Call(9)]),
        Err(ExecuteError::FunctionIndexOutOfBound)
    ));
    assert!(matches!(
        run(vec![Opcode::NativeInvoke(0)]),
        Err(ExecuteError::FunctionIndexOutOfBound)
    ));
    match run(vec![Opcode::NotImplemented("f32.add".to_string())]) {
        Err(ExecuteError::Custom(message)) => assert_eq!(message, "Not implemented: f32.add"),
        _ => panic!("the instruction is not implemented"),
    }
}

#[test]
fn calls_that_are_refused_at_the_start() {
    let m = module(vec![
        function("one", 1, 0, vec![Opcode::GetLocal(0), Opcode::Return]),
        function("untyped", 4, 0, vec![Opcode::Return]),
    ]);
    let mut vm = VirtualMachine::new(&m, config()).unwrap();
    assert!(matches!(vm.execute(0, &[]), Err(ExecuteError::TypeMismatch)));
    assert!(matches!(vm.execute(1, &[]), Err(ExecuteError::TypeIdxIndexOufOfBound)));
    assert_eq!(vm.backtrace().frames.len(), 0);
    assert_eq!(vm.execute(0, &[Value::I64(3)]).unwrap(), Some(Value::I64(3)));
}

#[test]
fn a_failed_run_leaves_its_frames() {
    let m = module(vec![
        function("outer", 0, 0, vec![Opcode::Call(1), Opcode::Return]),
        function("inner", 0, 0, vec![Opcode::Unreachable]),
        function("fine", 0, 0, vec![Opcode::I32Const(1), Opcode::Return]),
    ]);
    let mut vm = VirtualMachine::new(&m, config()).unwrap();
    assert!(matches!(vm.execute(0, &[]), Err(ExecuteError::UnreachableExecuted)));
    let names: Vec<Option<String>> =
        vm.backtrace().frames.iter().map(|f| f.name.clone()).collect();
    assert_eq!(names, vec![Some("inner".to_string()), Some("outer".to_string())]);
    assert_eq!(vm.last_function().unwrap().name, Some("inner".to_string()));
    // A later run starts above the frames that are left, and removes only its own.
    assert_eq!(vm.execute(2, &[]).unwrap(), Some(Value::I32(1)));
    assert_eq!(vm.backtrace().frames.len(), 2);
}

#[test]
fn a_limited_run_that_completes_is_a_run() {
    let m = module(vec![function(
        "main",
        0,
        0,
        vec![Opcode::I32Const(1), Opcode::Nop, Opcode::Return],
    )]);
    let mut vm = VirtualMachine::new(&m, config()).unwrap();
    assert!(matches!(
        vm.execute_bounded(0, &[], 3),
        Execution::Completed(Ok(Some(Value::I32(1))))
    ));
    assert!(matches!(
        vm.execute_bounded(0, &[], 1000),
        Execution::Completed(Ok(Some(Value::I32(1))))
    ));
    assert!(matches!(vm.execute_bounded(0, &[], 2), Execution::OutOfSteps));
    assert_eq!(vm.backtrace().frames.len(), 1);
    assert!(matches!(
        vm.execute_bounded(0, &[Value::Undef], 3),
        Execution::Completed(Err(ExecuteError::TypeMismatch))
    ));
}

#[test]
fn a_limited_run_stops_at_an_endless_loop() {
    let m = module(vec![function("main", 0, 0, vec![Opcode::Jmp(0)])]);
    let mut vm = VirtualMachine::new(&m, config()).unwrap();
    assert!(matches!(vm.execute_bounded(0, &[], 1000), Execution::OutOfSteps));
}

#[test]
fn a_limited_run_stops_at_a_division_by_zero() {
    for op in [Opcode::I32DivU, Opcode::I32DivS, Opcode::I32RemU, Opcode::I32RemS] {
        let m = module(vec![function(
            "main",
            0,
            0,
            vec![Opcode::I32Const(1), Opcode::I32Const(0), op, Opcode::Return],
        )]);
        let mut vm = VirtualMachine::new(&m, config()).unwrap();
        assert!(matches!(vm.execute_bounded(0, &[], 9), Execution::Stuck));
        assert!(vm.is_stuck(2));
        assert!(!vm.is_stuck(0));
    }
    for op in [Opcode::I64DivU, Opcode::I64DivS, Opcode::I64RemU, Opcode::I64RemS] {
        let m = module(vec![function(
            "main",
            0,
            0,
            vec![Opcode::I64Const(1), Opcode::I64Const(0), op, Opcode::Return],
        )]);
        let mut vm = VirtualMachine::new(&m, config()).unwrap();
        assert!(matches!(vm.execute_bounded(0, &[], 9), Execution::Stuck));
    }
    let m = module(vec![function(
        "main",
        0,
        0,
        vec![Opcode::I32Const(i32::MIN), Opcode::I32Const(-1), Opcode::I32DivS, Opcode::Return],
    )]);
    let mut vm = VirtualMachine::new(&m, config()).unwrap();
    assert!(matches!(vm.execute_bounded(0, &[], 9), Execution::Stuck));
}

#[test]
fn a_limited_run_stops_at_a_copy_without_an_end() {
    let m = module(vec![function("main", 0, 0, copy(-1, 0, 1))]);
    let mut vm = VirtualMachine::new(&m, config()).unwrap();
    assert!(matches!(vm.execute_bounded(0, &[], 9), Execution::Stuck));
}

#[test]
fn single_steps() {
    let m = module(vec![function("main", 0, 0, vec![Opcode::I32Const(1), Opcode::Return])]);
    let mut vm = VirtualMachine::new(&m, config()).unwrap();
    assert!(matches!(vm.execute_bounded(0, &[], 0), Execution::OutOfSteps));
    assert!(matches!(vm.step(0, 0), Step::Continue(1)));
    assert!(matches!(vm.step(0, 1), Step::Done(Ok(Some(Value::I32(1))))));
}

#[test]
fn the_host_can_change_memory_between_runs() {
    let m = module(vec![function(
        "main",
        0,
        0,
        vec![
            Opcode::I32Const(0),
            Opcode::I32Load8U(Memarg { offset: 3, align: 0 }),
            Opcode::Return,
        ],
    )]);
    let mut vm = VirtualMachine::new(&m, config()).unwrap();
    vm.get_runtime_info_mut().get_memory_mut()[3] = 200;
    assert_eq!(vm.execute(0, &[]).unwrap(), Some(Value::I32(200)));
}

#[test]
fn native_functions_need_their_type_and_their_arguments() {
    let mut m = module(vec![function(
        "main",
        0,
        0,
        vec![Opcode::NativeInvoke(0), Opcode::NativeInvoke(1)],
    )]);
    m.natives = vec![
        Native { module: "host".to_string(), field: "f".to_string(), typeidx: 1 },
        Native { module: "host".to_string(), field: "f".to_string(), typeidx: 9 },
    ];
    let mut vm = VirtualMachine::new(&m, config()).unwrap();
    assert!(matches!(vm.execute(0, &[]), Err(ExecuteError::OperandStackUnderflow)));
    m.natives[0].typeidx = 0;
    assert!(matches!(m.execute(config(), 0), Err(ExecuteError::FunctionNotFound)));
    m.functions[0].body.opcodes = vec![Opcode::NativeInvoke(1)];
    assert!(matches!(m.execute(config(), 0), Err(ExecuteError::TypeIdxIndexOufOfBound)));
}

#[test]
fn a_frame_has_its_parameters_and_its_locals() {
    for (idx, there) in [(0, true), (2, true), (3, false)] {
        let m = module(vec![
            function("callee", 1, 2, vec![Opcode::GetLocal(idx), Opcode::Return]),
            function(
                "main",
                0,
                0,
                vec![Opcode::I32Const(5), Opcode::Call(0), Opcode::Return],
            ),
        ]);
        let result = m.execute(config(), 1);
        if there {
            let expected = if idx == 0 { Value::I32(5) } else { Value::Undef };
            assert_eq!(result.unwrap(), Some(expected));
        } else {
            assert!(matches!(result, Err(ExecuteError::LocalIndexOutOfBound(3))));
        }
    }
}

#[test]
fn a_finished_run_leaves_whole_pages() {
    let grow = |end: Opcode| {
        vec![Opcode::I32Const(1), Opcode::GrowMemory, Opcode::Drop, Opcode::I32Const(1), end]
    };
    let mut m = module(vec![
        function("fine", 0, 0, grow(Opcode::Return)),
        function("broken", 0, 0, grow(Opcode::Unreachable)),
    ]);
    m.globals = vec![Global { value: Value::I32(1) }];
    let mut vm = VirtualMachine::new(&m, config()).unwrap();
    assert!(vm.execute(0, &[]).is_ok());
    assert_eq!(vm.get_runtime_info().get_memory().len(), 2 * 65536);
    assert!(vm.execute(1, &[]).is_err());
    assert_eq!(vm.get_runtime_info().get_memory().len(), 3 * 65536);
    // The limit is reached.
    assert!(vm.execute(0, &[]).is_ok());
    assert_eq!(vm.get_runtime_info().get_memory().len(), 3 * 65536);
}
