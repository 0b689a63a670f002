use std::cell::RefCell;

use wasm_core::error::{ExecuteError, ExecuteResult};
use wasm_core::executor::VirtualMachine;
use wasm_core::module::{Exports, Function, FunctionBody, Module, Native, Type, ValType};
use wasm_core::native::{
    text_to_print, NativeEntry, NativeFunction, NativeResolver, NativeTarget,
};
use wasm_core::opcode::Opcode;
use wasm_core::runtime::{DebugPrint, RuntimeConfig, RuntimeInfo};
use wasm_core::value::Value;

#[derive(Copy, Clone)]
struct Log<'a> {
    lines: &'a RefCell<Vec<String>>,
    prefix: &'a str,
}

impl<'a> DebugPrint for Log<'a> {
    fn print(&self, s: &str) {
        self.lines.borrow_mut().push(format!("{}{}", self.prefix, s));
    }
}

/// Adds its arguments, counts its calls in the first byte of memory, and fails on
/// a sum of thirteen.
struct Sum;

impl<'a> NativeEntry<Host<'a>, Log<'a>> for Sum {
    fn call(
        &self,
        rt: &mut RuntimeInfo<Host<'a>, Log<'a>>,
        args: &[Value],
    ) -> ExecuteResult<Option<Value>> {
        rt.debug_print("called");
        rt.get_memory_mut()[0] += 1;
        let mut sum = 0;
        for arg in args {
            sum = sum * 10 + arg.get_i32()?;
        }
        match sum {
            13 => Err(ExecuteError::Custom("unlucky".to_string())),
            0 => Ok(None),
            _ => Ok(Some(Value::I32(sum))),
        }
    }
}

struct Host<'a> {
    asked: &'a RefCell<Vec<String>>,
}

impl<'a> NativeResolver for Host<'a> {
    type Hook = Log<'a>;
    type Entry = Sum;

    fn resolve(&self, module: &str, field: &str) -> Option<Sum> {
        self.asked.borrow_mut().push(format!("{}.{}", module, field));
        if module == "host" && field == "sum" {
            Some(Sum)
        } else {
            None
        }
    }
}

fn module(native: (&str, &str), typeidx: u32, opcodes: Vec<Opcode>) -> Module {
    Module {
        types: vec![
            Type::Func(vec![], vec![ValType::I32]),
            Type::Func(vec![ValType::I32, ValType::I32], vec![ValType::I32]),
            Type::Func(vec![ValType::I32, ValType::I32], vec![]),
        ],
        functions: vec![Function {
            name: None,
            typeidx: 0,
            locals: vec![],
            body: FunctionBody { opcodes },
        }],
        data_segments: vec![],
        exports: Exports::new(),
        tables: vec![],
        globals: vec![],
        natives: vec![Native {
            module: native.0.to_string(),
            field: native.1.to_string(),
            typeidx,
        }],
    }
}

fn config<'a>(asked: &'a RefCell<Vec<String>>) -> RuntimeConfig<Host<'a>> {
    RuntimeConfig {
        mem_default_size_pages: 1,
        mem_max_size_pages: None,
        resolver: Host { asked },
    }
}

fn two(a: i32, b: i32) -> Vec<Opcode> {
    vec![
        Opcode::I32Const(1000),
        Opcode::I32Const(a),
        Opcode::I32Const(b),
        Opcode::NativeInvoke(0),
        Opcode::I32Add,
        Opcode::Return,
    ]
}

#[test]
fn a_native_function_takes_its_arguments_from_the_stack() {
    let asked = RefCell::new(vec![]);
    let m = module(("host", "sum"), 1, two(4, 2));
    let mut vm = VirtualMachine::new(&m, config(&asked)).unwrap();
    assert_eq!(vm.execute(0, &[]).unwrap(), Some(Value::I32(1042)));
    assert_eq!(vm.get_runtime_info().get_memory()[0], 1);
}

#[test]
fn a_native_function_is_resolved_once() {
    let asked = RefCell::new(vec![]);
    let m = module(("host", "sum"), 1, two(4, 2));
    let mut vm = VirtualMachine::new(&m, config(&asked)).unwrap();
    assert_eq!(asked.borrow().len(), 0);
    for _ in 0..3 {
        vm.execute(0, &[]).unwrap();
    }
    assert_eq!(*asked.borrow(), vec!["host.sum".to_string()]);
    assert_eq!(vm.get_runtime_info().get_memory()[0], 3);
}

#[test]
fn results_of_native_functions_have_to_match_their_type() {
    let asked = RefCell::new(vec![]);
    let none = module(("host", "sum"), 1, two(0, 0));
    assert!(matches!(none.execute(config(&asked), 0), Err(ExecuteError::TypeMismatch)));
    let some = module(("host", "sum"), 2, two(1, 2));
    assert!(matches!(some.execute(config(&asked), 0), Err(ExecuteError::TypeMismatch)));
    let unit = module(
        ("host", "sum"),
        2,
        vec![
            Opcode::I32Const(5),
            Opcode::I32Const(0),
            Opcode::I32Const(0),
            Opcode::NativeInvoke(0),
            Opcode::Return,
        ],
    );
    assert_eq!(unit.execute(config(&asked), 0).unwrap(), Some(Value::I32(5)));
}

#[test]
fn errors_of_native_functions_end_the_run() {
    let asked = RefCell::new(vec![]);
    let m = module(("host", "sum"), 1, two(1, 3));
    match m.execute(config(&asked), 0) {
        Err(ExecuteError::Custom(message)) => assert_eq!(message, "unlucky"),
        _ => panic!("the function fails"),
    }
}

#[test]
fn unknown_native_functions_are_not_found() {
    let asked = RefCell::new(vec![]);
    for name in [("host", "other"), ("env", "other"), ("host", "__wcore_print")] {
        let m = module(name, 1, two(1, 2));
        assert!(matches!(m.execute(config(&asked), 0), Err(ExecuteError::FunctionNotFound)));
    }
}

fn print(ptr: i32, len: i32) -> Vec<Opcode> {
    vec![
        Opcode::I32Const(ptr),
        Opcode::I32Const(len),
        Opcode::NativeInvoke(0),
        Opcode::I32Const(0),
        Opcode::Return,
    ]
}

#[test]
fn the_machine_prints_text_from_memory() {
    let asked = RefCell::new(vec![]);
    let lines = RefCell::new(vec![]);
    let m = module(("env", "__wcore_print"), 2, print(2, 6));
    let mut vm = VirtualMachine::new(&m, config(&asked)).unwrap();
    vm.set_debug_print_hook(Log { lines: &lines, prefix: "> " });
    vm.get_runtime_info_mut().get_memory_mut()[2..8].copy_from_slice("h\u{e9}llo".as_bytes());
    vm.execute(0, &[]).unwrap();
    assert_eq!(*lines.borrow(), vec!["> h\u{e9}llo".to_string()]);
    assert_eq!(*asked.borrow(), vec!["env.__wcore_print".to_string()]);
}

#[test]
fn the_printing_function_keeps_the_hook_of_its_first_call() {
    let asked = RefCell::new(vec![]);
    let lines = RefCell::new(vec![]);
    let m = module(("env", "__wcore_print"), 2, print(0, 1));
    let mut vm = VirtualMachine::new(&m, config(&asked)).unwrap();
    vm.get_runtime_info_mut().get_memory_mut()[0] = b'x';
    vm.set_debug_print_hook(Log { lines: &lines, prefix: "first " });
    vm.execute(0, &[]).unwrap();
    vm.set_debug_print_hook(Log { lines: &lines, prefix: "second " });
    vm.execute(0, &[]).unwrap();
    vm.get_runtime_info().debug_print("direct");
    assert_eq!(
        *lines.borrow(),
        vec!["first x".to_string(), "first x".to_string(), "second direct".to_string()]
    );
}

#[test]
fn printing_without_a_hook_does_nothing() {
    let asked = RefCell::new(vec![]);
    let m = module(("env", "__wcore_print"), 2, print(0, 4));
    assert_eq!(m.execute(config(&asked), 0).unwrap(), Some(Value::I32(0)));
}

#[test]
fn text_to_print_is_checked() {
    let memory = [0x68, 0x69, 0xff, 0xc3, 0xa9];
    let i = |v: i32| Value::I32(v);
    assert_eq!(text_to_print(&memory, &[i(0), i(2)]).unwrap(), "hi");
    assert_eq!(text_to_print(&memory, &[i(3), i(2)]).unwrap(), "\u{e9}");
    assert_eq!(text_to_print(&memory, &[i(4), i(0)]).unwrap(), "");
    match text_to_print(&memory, &[i(1), i(2)]) {
        Err(ExecuteError::Custom(message)) => assert_eq!(message, "Invalid UTF-8"),
        _ => panic!("the bytes are not valid"),
    }
    assert!(matches!(text_to_print(&memory, &[i(0)]), Err(ExecuteError::TypeMismatch)));
    assert!(matches!(
        text_to_print(&memory, &[Value::I64(0), i(0)]),
        Err(ExecuteError::ValueTypeMismatch)
    ));
    assert!(matches!(
        text_to_print(&memory, &[i(5), i(0)]),
        Err(ExecuteError::AddrOutOfBound(5, 0))
    ));
    assert!(matches!(
        text_to_print(&memory, &[i(2), i(4)]),
        Err(ExecuteError::AddrOutOfBound(2, 4))
    ));
    assert!(matches!(
        text_to_print(&memory, &[i(1), i(-1)]),
        Err(ExecuteError::AddrOutOfBound(1, 0xffff_ffff))
    ));
}

#[test]
fn a_function_is_called_directly() {
    let asked = RefCell::new(vec![]);
    let mut rt: RuntimeInfo<Host, Log> = RuntimeInfo::new(config(&asked));
    let mut f: NativeFunction<Sum, Log> =
        NativeFunction::Uninitialized("host".to_string(), "sum".to_string());
    let args = [Value::I32(2), Value::I32(5)];
    assert_eq!(f.invoke(&mut rt, &args).unwrap(), Some(Value::I32(25)));
    assert!(matches!(f, NativeFunction::Ready(_)));
    let mut unknown: NativeFunction<Sum, Log> =
        NativeFunction::Uninitialized("host".to_string(), "none".to_string());
    assert!(matches!(unknown.link(None, None), Err(ExecuteError::FunctionNotFound)));
    assert!(unknown.link(Some(Sum), None).is_ok());
    assert!(unknown.link(None, None).is_ok());
}

#[test]
fn the_host_comes_before_the_machine() {
    let own = || -> NativeFunction<Sum, Log> {
        NativeFunction::Uninitialized("env".to_string(), "__wcore_print".to_string())
    };
    let mut f = own();
    f.link(Some(Sum), None).unwrap();
    assert!(matches!(f, NativeFunction::Ready(NativeTarget::Host(_))));
    let mut f = own();
    f.link(None, None).unwrap();
    assert!(matches!(f, NativeFunction::Ready(NativeTarget::Print(None))));
}

#[test]
fn a_run_keeps_the_native_functions() {
    let asked = RefCell::new(vec![]);
    let mut m = module(("host", "none"), 1, two(4, 2));
    let vm = VirtualMachine::new(&m, config(&asked));
    // A name that is not found is asked for again, under its type.
    let mut vm = vm.unwrap();
    for _ in 0..2 {
        assert!(matches!(vm.execute(0, &[]), Err(ExecuteError::FunctionNotFound)));
    }
    assert_eq!(*asked.borrow(), vec!["host.none".to_string(), "host.none".to_string()]);
    // Without native functions there is nothing to ask for.
    m.natives = vec![];
    assert!(matches!(
        m.execute(config(&asked), 0),
        Err(ExecuteError::FunctionIndexOutOfBound)
    ));
    assert_eq!(asked.borrow().len(), 2);
}
