//! The words in which the effect of single instructions is stated.
use vstd::prelude::*;

use crate::error::ErrorView;
use crate::frame::FrameState;
use crate::machine::{local_step, may_step, Config, Machine, Next};
use crate::module::Module;
use crate::native::NativeResolver;
use crate::opcode::Opcode;
use crate::runtime::RuntimeState;
use crate::semantics::{loading, numeric_i32, numeric_i64};
use crate::value::Value;

verus! {

/// Whether `op` is the instruction that a run comes to next.
pub open spec fn comes_to<R: NativeResolver>(
    module: Module,
    config: Config<R>,
    op: Opcode,
) -> bool {
    let frames = config.machine.frames;
    &&& frames.len() > 0
    &&& frames[frames.len() - 1].func_id < module.functions@.len()
    &&& ({
        let opcodes = module.functions@[frames[frames.len() - 1].func_id as int].body.opcodes@;
        config.ip < opcodes.len() && opcodes[config.ip as int] == op
    })
}

/// The operands of the running function.
pub open spec fn stack<R: NativeResolver>(config: Config<R>) -> Seq<Value> {
    config.machine.frames[config.machine.frames.len() - 1].operands
}

/// The machine of a configuration, but for the operands of the running function.
pub open spec fn with_stack<R: NativeResolver>(config: Config<R>, operands: Seq<Value>) -> Machine<
    R,
> {
    let top = config.machine.frames.len() - 1;
    Machine {
        frames: config.machine.frames.update(
            top,
            FrameState { operands, ..config.machine.frames[top] },
        ),
        ..config.machine
    }
}

/// Whether a step leaves these operands and goes on at `ip`, with everything else as
/// it was.
pub open spec fn goes_on<R: NativeResolver>(
    config: Config<R>,
    next: Next<R>,
    operands: Seq<Value>,
    ip: nat,
) -> bool {
    next == Next::Continue(Config { machine: with_stack(config, operands), ip })
}

/// Whether a step leaves these operands and ends the run with an error, with
/// everything else as it was.
pub open spec fn stops<R: NativeResolver>(
    config: Config<R>,
    next: Next<R>,
    operands: Seq<Value>,
    error: ErrorView,
) -> bool {
    next == Next::Done(with_stack(config, operands), Err(error))
}

/// The operand on top after a step that goes on.
pub open spec fn answer<R: NativeResolver>(next: Next<R>) -> Value {
    let frames = next->Continue_0.machine.frames;
    let operands = frames[frames.len() - 1].operands;
    operands[operands.len() - 1]
}

/// Whether a value is read as a 32-bit integer, and as which: an undefined value is
/// zero.
pub open spec fn is_i32(value: Value, v: i32) -> bool {
    value == Value::I32(v) || value == Value::Undef && v == 0
}

/// Whether a value is read as a 64-bit integer, and as which: an undefined value is
/// zero.
pub open spec fn is_i64(value: Value, v: i64) -> bool {
    value == Value::I64(v) || value == Value::Undef && v == 0
}

/// Whether a value is no 32-bit integer.
pub open spec fn no_i32(value: Value) -> bool {
    value is I64 || value is F32 || value is F64
}

/// Whether a value is no 64-bit integer.
pub open spec fn no_i64(value: Value) -> bool {
    value is I32 || value is F32 || value is F64
}

/// Whether an instruction leaves its function.
pub open spec fn leaves_function(op: Opcode) -> bool {
    op is Call || op is CallIndirect || op is Return || op is NativeInvoke
}

/// A step at an instruction that stays within its function.
pub(crate) proof fn lemma_local<R: NativeResolver>(
    module: Module,
    depth: nat,
    config: Config<R>,
    next: Next<R>,
    op: Opcode,
)
    requires
        comes_to(module, config, op),
        !leaves_function(op),
        may_step(module, depth, config, next),
    ensures
        next == local_step(config.machine, config.ip + 1, op),
{
}

/// A step at a numeric instruction.
#[verifier::rlimit(40)]
#[verifier::spinoff_prover]
pub(crate) proof fn lemma_numeric<R: NativeResolver>(
    module: Module,
    depth: nat,
    config: Config<R>,
    next: Next<R>,
    op: Opcode,
)
    requires
        comes_to(module, config, op),
        may_step(module, depth, config, next),
    ensures
        numeric_i32(op, stack(config)) matches Some((left, Ok(_))) ==> goes_on(
            config,
            next,
            left,
            config.ip + 1,
        ),
        numeric_i32(op, stack(config)) matches Some((left, Err(error))) ==> stops(
            config,
            next,
            left,
            error,
        ),
        numeric_i64(op, stack(config)) matches Some((left, Ok(_))) ==> goes_on(
            config,
            next,
            left,
            config.ip + 1,
        ),
        numeric_i64(op, stack(config)) matches Some((left, Err(error))) ==> stops(
            config,
            next,
            left,
            error,
        ),
{
    if numeric_i32(op, stack(config)) is Some || numeric_i64(op, stack(config)) is Some {
        lemma_local(module, depth, config, next, op);
        let machine = config.machine;
        assert((RuntimeState {
            memory: machine.runtime.memory,
            globals: machine.runtime.globals,
            ..machine.runtime
        }) == machine.runtime);
    }
}

/// A step at a load.
#[verifier::rlimit(40)]
#[verifier::spinoff_prover]
pub(crate) proof fn lemma_loading<R: NativeResolver>(
    module: Module,
    depth: nat,
    config: Config<R>,
    next: Next<R>,
    op: Opcode,
)
    requires
        comes_to(module, config, op),
        may_step(module, depth, config, next),
    ensures
        ({
            let loaded = loading(op, stack(config), config.machine.runtime.memory.bytes);
            &&& loaded matches Some((left, Ok(_))) ==> goes_on(config, next, left, config.ip + 1)
            &&& loaded matches Some((left, Err(error))) ==> stops(config, next, left, error)
        }),
{
    if loading(op, stack(config), config.machine.runtime.memory.bytes) is Some {
        lemma_local(module, depth, config, next, op);
        let machine = config.machine;
        assert((RuntimeState {
            memory: machine.runtime.memory,
            globals: machine.runtime.globals,
            ..machine.runtime
        }) == machine.runtime);
    }
}

} // verus!
