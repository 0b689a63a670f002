//! What machines and their runs do, as mathematics.
use vstd::prelude::*;

use crate::error::ErrorView;
use crate::frame::{undefined, FrameState};
use crate::int_ops::overwritten;
use crate::module::{
    found, DataSegment, Export, Function, Global, Module, Native, Signature,
};
use crate::native::{index_of, may_invoke, Link, NativeResolver};
use crate::opcode::Opcode;
use crate::runtime::{RuntimeConfig, RuntimeState};
use crate::semantics::{copy_overflows, local_effect, read_i32, undefined_operation, Flow, Scope};
use crate::value::Value;

verus! {

/// A native function of a machine.
pub struct NativeState<E, H> {
    pub link: Link<E, H>,
    pub typeidx: nat,
}

/// A machine: its frames, of which the last is the one that runs, its runtime
/// and its native functions.
#[verifier::ext_equal]
pub struct Machine<R: NativeResolver> {
    pub frames: Seq<FrameState>,
    pub runtime: RuntimeState<R, R::Hook>,
    pub natives: Seq<NativeState<R::Entry, R::Hook>>,
}

/// A machine in the middle of a run, with the index of the instruction that
/// comes next.
#[verifier::ext_equal]
pub struct Config<R: NativeResolver> {
    pub machine: Machine<R>,
    pub ip: nat,
}

/// What an instruction leads to.
#[verifier::ext_equal]
pub enum Next<R: NativeResolver> {
    Continue(Config<R>),
    /// The machine that a run leaves, and the result of the run.
    Done(Machine<R>, Result<Option<Value>, ErrorView>),
}

impl<R: NativeResolver> Machine<R> {
    /// The running frame.
    pub open spec fn top(self) -> FrameState {
        self.frames.last()
    }

    /// The machine with another running frame.
    pub open spec fn with_top(self, frame: FrameState) -> Machine<R> {
        Machine { frames: self.frames.update(self.frames.len() - 1, frame), ..self }
    }

    /// The machine with other operands in the running frame.
    pub open spec fn with_operands(self, operands: Seq<Value>) -> Machine<R> {
        self.with_top(self.top().with_operands(operands))
    }

    /// The end of a run with an error.
    pub open spec fn fails(self, error: ErrorView) -> Next<R> {
        Next::Done(self, Err(error))
    }

    /// The middle of a run.
    pub open spec fn at(self, ip: nat) -> Config<R> {
        Config { machine: self, ip }
    }

    /// Whether every frame belongs to a function of the module.
    pub open spec fn belongs_to(self, module: Module) -> bool {
        forall|i: int|
            0 <= i < self.frames.len() ==> (#[trigger] self.frames[i]).func_id
                < module.functions@.len()
    }

    /// Whether the native functions are those of the module, in their order: each has
    /// the type that the module gives it and, until it is resolved, the name.
    pub open spec fn has_natives_of(self, module: Module) -> bool {
        &&& self.natives.len() == module.natives@.len()
        &&& forall|i: int|
            #![trigger self.natives[i]]
            0 <= i < self.natives.len() ==> {
                &&& self.natives[i].typeidx == module.natives@[i].typeidx
                &&& self.natives[i].link matches Link::Unresolved(name, field) ==> {
                    &&& name == module.natives@[i].module@
                    &&& field == module.natives@[i].field@
                }
            }
    }

    /// Whether the machine is in a run that started at a stack of `depth` frames:
    /// all frames of the run but the last one know where to go on.
    pub open spec fn runs_above(self, depth: nat) -> bool {
        &&& depth < self.frames.len()
        &&& forall|i: int|
            depth <= i < self.frames.len() - 1 ==> (#[trigger] self.frames[i]).ip is Some
    }
}

/// The signature of a function, if the module has its type.
pub open spec fn signature(module: Module, typeidx: nat) -> Option<Signature> {
    if typeidx < module.types@.len() {
        Some(module.types@[typeidx as int]@)
    } else {
        None
    }
}

/// The function that a module exports under a name.
pub open spec fn exported(module: Module, name: Seq<char>) -> Result<usize, ErrorView> {
    match found(module.exports@, name) {
        Some(Export::Function(id)) => Ok(id as usize),
        None => Err(ErrorView::FunctionNotFound),
    }
}

/// The function of the last frame.
pub open spec fn running<R: NativeResolver>(module: Module, machine: Machine<R>) -> Option<
    Function,
> {
    if machine.frames.len() > 0 {
        Some(module.functions@[machine.top().func_id as int])
    } else {
        None
    }
}

/// The names of the functions of all frames, the last frame first.
pub open spec fn frame_names<R: NativeResolver>(module: Module, machine: Machine<R>) -> Seq<
    Option<String>,
> {
    Seq::new(
        machine.frames.len(),
        |i: int|
            module.functions@[machine.frames[machine.frames.len() - 1 - i].func_id as int].name,
    )
}

/// The effect of an instruction that stays within its function. `ip` is the
/// index of the instruction behind it.
pub open spec fn local_step<R: NativeResolver>(machine: Machine<R>, ip: nat, op: Opcode) -> Next<
    R,
> {
    let (scope, flow) = local_effect(
        op,
        Scope {
            frame: machine.top(),
            memory: machine.runtime.memory,
            globals: machine.runtime.globals,
        },
    );
    let after = Machine {
        runtime: RuntimeState {
            memory: scope.memory,
            globals: scope.globals,
            ..machine.runtime
        },
        ..machine.with_top(scope.frame)
    };
    match flow {
        Ok(Flow::Next) => Next::Continue(after.at(ip)),
        Ok(Flow::Jump(target)) => Next::Continue(after.at(target as nat)),
        Err(error) => after.fails(error),
    }
}

/// The effect of a call. The arguments move from the operands of the caller to
/// the locals of a new frame, whose other locals are undefined.
pub open spec fn call<R: NativeResolver>(
    module: Module,
    machine: Machine<R>,
    ip: nat,
    idx: nat,
) -> Next<R> {
    let caller = FrameState { ip: Some(ip), ..machine.top() };
    let waiting = machine.with_top(caller);
    if idx >= module.functions@.len() {
        waiting.fails(ErrorView::FunctionIndexOutOfBound)
    } else {
        let function = module.functions@[idx as int];
        match signature(module, function.typeidx as nat) {
            None => waiting.fails(ErrorView::TypeIdxIndexOufOfBound),
            Some(sig) => if caller.operands.len() < sig.params.len() {
                waiting.with_operands(Seq::empty()).fails(ErrorView::OperandStackUnderflow)
            } else {
                let below = caller.operands.len() - sig.params.len();
                let callee = FrameState::fresh(
                    idx,
                    caller.operands.skip(below) + undefined(function.locals@.len()),
                );
                let left = waiting.with_operands(caller.operands.take(below));
                Next::Continue(Machine { frames: left.frames.push(callee), ..left }.at(0))
            },
        }
    }
}

/// The effect of a call through the first table. The operand on top is the
/// index into the table; the function found there has to have the expected type.
pub open spec fn call_indirect<R: NativeResolver>(
    module: Module,
    machine: Machine<R>,
    ip: nat,
    typeidx: nat,
) -> Next<R> {
    if module.tables@.len() == 0 {
        machine.fails(ErrorView::TableIndexOutOfBound)
    } else {
        match signature(module, typeidx) {
            None => machine.fails(ErrorView::TypeIdxIndexOufOfBound),
            Some(expected) => {
                let (rest, index) = read_i32(machine.top().operands);
                let popped = machine.with_operands(rest);
                match index {
                    Err(error) => popped.fails(error),
                    Ok(index) => call_entry(
                        module,
                        popped,
                        ip,
                        module.tables@[0].elements@,
                        index_of(index),
                        expected,
                    ),
                }
            },
        }
    }
}

/// The effect of a call of the function at an index of a table.
pub open spec fn call_entry<R: NativeResolver>(
    module: Module,
    machine: Machine<R>,
    ip: nat,
    elements: Seq<Option<u32>>,
    index: nat,
    expected: Signature,
) -> Next<R> {
    if index >= elements.len() {
        machine.fails(ErrorView::TableIndexOutOfBound)
    } else {
        match elements[index as int] {
            None => machine.fails(ErrorView::UndefinedTableEntry),
            Some(elem) => if elem >= module.functions@.len() {
                machine.fails(ErrorView::FunctionIndexOutOfBound)
            } else {
                match signature(module, module.functions@[elem as int].typeidx as nat) {
                    None => machine.fails(ErrorView::TypeIdxIndexOufOfBound),
                    Some(actual) => if actual != expected {
                        machine.fails(
                            ErrorView::IndirectCallTypeMismatch(elem as usize, expected, actual),
                        )
                    } else {
                        call(module, machine, ip, elem as nat)
                    },
                }
            },
        }
    }
}

/// The effect of `Return`. The frame is removed and has to hold exactly the
/// results of its function. The first frame of a run ends the run; any other
/// hands its results to its caller, which goes on where it called.
pub open spec fn return_from<R: NativeResolver>(
    module: Module,
    depth: nat,
    machine: Machine<R>,
) -> Next<R> {
    let done = machine.top();
    let popped = Machine { frames: machine.frames.drop_last(), ..machine };
    match signature(module, module.functions@[done.func_id as int].typeidx as nat) {
        None => popped.fails(ErrorView::TypeIdxIndexOufOfBound),
        Some(sig) => if done.operands.len() != sig.results.len() {
            popped.fails(ErrorView::ReturnTypeMismatch)
        } else if popped.frames.len() == depth {
            Next::Done(
                popped,
                Ok(
                    if sig.results.len() == 0 {
                        None
                    } else {
                        Some(done.operands[0])
                    },
                ),
            )
        } else {
            let caller = popped.top();
            let resumed = FrameState {
                ip: None,
                operands: caller.operands + done.operands,
                ..caller
            };
            Next::Continue(popped.with_top(resumed).at(caller.ip->0))
        },
    }
}

/// A call of a native function that has passed its checks.
pub struct NativeCall {
    pub id: nat,
    pub sig: Signature,
}

/// A call of a native function, if it passes the checks that come before it.
pub open spec fn native_call<R: NativeResolver>(
    module: Module,
    machine: Machine<R>,
    id: nat,
) -> Result<NativeCall, ErrorView> {
    if id >= machine.natives.len() {
        Err(ErrorView::FunctionIndexOutOfBound)
    } else {
        match signature(module, machine.natives[id as int].typeidx) {
            None => Err(ErrorView::TypeIdxIndexOufOfBound),
            Some(sig) => if sig.params.len() > machine.top().operands.len() {
                Err(ErrorView::OperandStackUnderflow)
            } else {
                Ok(NativeCall { id, sig })
            },
        }
    }
}

/// The arguments of a native function: the operands on top, as many as it has
/// parameters.
pub open spec fn native_args<R: NativeResolver>(machine: Machine<R>, sig: Signature) -> Seq<Value> {
    let operands = machine.top().operands;
    operands.skip(operands.len() - sig.params.len())
}

/// The effect of what a native function comes back with: a value has to be there
/// if and only if the function has a result. It takes the place of the arguments.
pub open spec fn after_native<R: NativeResolver>(
    machine: Machine<R>,
    ip: nat,
    sig: Signature,
    result: Result<Option<Value>, ErrorView>,
) -> Next<R> {
    match result {
        Err(error) => machine.fails(error),
        Ok(value) => if (sig.results.len() != 0) != (value is Some) {
            machine.fails(ErrorView::TypeMismatch)
        } else {
            let operands = machine.top().operands;
            let left = operands.take(operands.len() - sig.params.len());
            Next::Continue(
                machine.with_operands(
                    match value {
                        Some(v) => left.push(v),
                        None => left,
                    },
                ).at(ip),
            )
        },
    }
}

/// The machine after a native function has run.
pub open spec fn with_native_effect<R: NativeResolver>(
    machine: Machine<R>,
    id: nat,
    link: Link<R::Entry, R::Hook>,
    runtime: RuntimeState<R, R::Hook>,
) -> Machine<R> {
    Machine {
        runtime,
        natives: machine.natives.update(
            id as int,
            NativeState { link, typeidx: machine.natives[id as int].typeidx },
        ),
        ..machine
    }
}

/// What a call of a native function may lead to.
pub open spec fn may_call_native<R: NativeResolver>(
    module: Module,
    machine: Machine<R>,
    ip: nat,
    id: nat,
    next: Next<R>,
) -> bool {
    match native_call(module, machine, id) {
        Err(error) => next == machine.fails(error),
        Ok(call) => exists|
            link: Link<R::Entry, R::Hook>,
            runtime: RuntimeState<R, R::Hook>,
            result: Result<Option<Value>, ErrorView>,
        |
            {
                &&& #[trigger] may_invoke::<R>(
                    machine.natives[id as int].link,
                    machine.runtime,
                    native_args(machine, call.sig),
                    link,
                    runtime,
                    result,
                )
                &&& next == after_native(
                    with_native_effect(machine, id, link, runtime),
                    ip,
                    call.sig,
                    result,
                )
            },
    }
}

/// What an instruction leads to that calls no native function. `ip` is the index
/// of the instruction behind it.
pub open spec fn run_plain<R: NativeResolver>(
    module: Module,
    depth: nat,
    machine: Machine<R>,
    ip: nat,
    op: Opcode,
) -> Next<R> {
    match op {
        Opcode::Call(idx) => call(module, machine, ip, idx as nat),
        Opcode::CallIndirect(typeidx) => call_indirect(module, machine, ip, typeidx as nat),
        Opcode::Return => return_from(module, depth, machine),
        _ => local_step(machine, ip, op),
    }
}

/// What an instruction may lead to. Only a native function leaves a choice.
pub open spec fn may_run<R: NativeResolver>(
    module: Module,
    depth: nat,
    machine: Machine<R>,
    ip: nat,
    op: Opcode,
    next: Next<R>,
) -> bool {
    match op {
        Opcode::NativeInvoke(id) => may_call_native(module, machine, ip, id as nat, next),
        _ => next == run_plain(module, depth, machine, ip, op),
    }
}

/// The instruction that comes next, or why there is none.
pub open spec fn fetch<R: NativeResolver>(module: Module, config: Config<R>) -> Result<
    Opcode,
    ErrorView,
> {
    if config.machine.frames.len() == 0 {
        Err(ErrorView::FrameIndexOutOfBound)
    } else {
        let opcodes = module.functions@[config.machine.top().func_id as int].body.opcodes@;
        if config.ip >= opcodes.len() {
            Err(ErrorView::OpcodeIndexOutOfBound)
        } else {
            Ok(opcodes[config.ip as int])
        }
    }
}

/// What one step of a run may lead to. The run started at a stack of `depth`
/// frames.
pub open spec fn may_step<R: NativeResolver>(
    module: Module,
    depth: nat,
    config: Config<R>,
    next: Next<R>,
) -> bool {
    match fetch(module, config) {
        Err(error) => next == config.machine.fails(error),
        Ok(op) => may_run(module, depth, config.machine, config.ip + 1, op, next),
    }
}

/// Whether the next instruction has neither a result nor an error: a division
/// without a quotient, or a copy whose end is not a number of this machine.
pub open spec fn stuck<R: NativeResolver>(module: Module, config: Config<R>) -> bool {
    fetch(module, config) matches Ok(op) && {
        ||| undefined_operation(op, config.machine.top().operands)
        ||| copy_overflows(
            op,
            config.machine.top().operands,
            config.machine.runtime.memory.bytes,
        )
    }
}

/// Whether one step may lead from one configuration to another.
pub open spec fn may_continue<R: NativeResolver>(
    module: Module,
    depth: nat,
    from: Config<R>,
    to: Config<R>,
) -> bool {
    !stuck(module, from) && may_step(module, depth, from, Next::Continue(to))
}

/// Whether `n` steps may lead from one configuration to another.
pub open spec fn reaches<R: NativeResolver>(
    module: Module,
    depth: nat,
    from: Config<R>,
    n: nat,
    to: Config<R>,
) -> bool
    decreases n,
{
    if n == 0 {
        to == from
    } else {
        exists|mid: Config<R>|
            {
                &&& reaches(module, depth, from, (n - 1) as nat, mid)
                &&& #[trigger] may_continue(module, depth, mid, to)
            }
    }
}

/// Whether a run may end with this machine and this result.
pub open spec fn may_end<R: NativeResolver>(
    module: Module,
    depth: nat,
    from: Config<R>,
    machine: Machine<R>,
    result: Result<Option<Value>, ErrorView>,
) -> bool {
    exists|n: nat, last: Config<R>|
        {
            &&& #[trigger] reaches(module, depth, from, n, last)
            &&& !stuck(module, last)
            &&& may_step(module, depth, last, Next::Done(machine, result))
        }
}

/// Whether a run ends within `n` steps and never gets stuck, whatever its native
/// functions do.
pub open spec fn ends_within<R: NativeResolver>(
    module: Module,
    depth: nat,
    config: Config<R>,
    n: nat,
) -> bool
    decreases n,
{
    &&& n > 0
    &&& !stuck(module, config)
    &&& forall|next: Config<R>| #[trigger]
        may_step(module, depth, config, Next::Continue(next)) ==> ends_within(
            module,
            depth,
            next,
            (n - 1) as nat,
        )
}

/// What a machine without native functions comes to within `n` steps: the machine
/// that the run leaves and its result, or `None` if the run is not over by then or
/// gets stuck.
pub open spec fn computed<R: NativeResolver>(
    module: Module,
    depth: nat,
    config: Config<R>,
    n: nat,
) -> Option<(Machine<R>, Result<Option<Value>, ErrorView>)>
    decreases n,
{
    if n == 0 || stuck(module, config) {
        None
    } else {
        match fetch(module, config) {
            Err(error) => Some((config.machine, Err(error))),
            Ok(Opcode::NativeInvoke(_)) => Some(
                (config.machine, Err(ErrorView::FunctionIndexOutOfBound)),
            ),
            Ok(op) => match run_plain(module, depth, config.machine, config.ip + 1, op) {
                Next::Done(machine, result) => Some((machine, result)),
                Next::Continue(next) => computed(module, depth, next, (n - 1) as nat),
            },
        }
    }
}

/// The start of a run: a frame for a function, with the arguments as its first
/// locals and the others undefined.
pub open spec fn entry<R: NativeResolver>(
    module: Module,
    machine: Machine<R>,
    func: nat,
    args: Seq<Value>,
) -> Result<Config<R>, ErrorView> {
    let function = module.functions@[func as int];
    match signature(module, function.typeidx as nat) {
        None => Err(ErrorView::TypeIdxIndexOufOfBound),
        Some(sig) => if args.len() != sig.params.len() {
            Err(ErrorView::TypeMismatch)
        } else {
            let frame = FrameState::fresh(func, args + undefined(function.locals@.len()));
            Ok(Machine { frames: machine.frames.push(frame), ..machine }.at(0))
        },
    }
}

/// Whether a function runs to an end, whatever its native functions do.
pub open spec fn terminates<R: NativeResolver>(
    module: Module,
    machine: Machine<R>,
    func: nat,
    args: Seq<Value>,
) -> bool {
    match entry(module, machine, func, args) {
        Err(_) => true,
        Ok(config) => exists|n: nat| ends_within(module, machine.frames.len(), config, n),
    }
}

/// What running a function may leave, and with which result.
pub open spec fn may_execute<R: NativeResolver>(
    module: Module,
    machine: Machine<R>,
    func: nat,
    args: Seq<Value>,
    after: Machine<R>,
    result: Result<Option<Value>, ErrorView>,
) -> bool {
    match entry(module, machine, func, args) {
        Err(error) => after == machine && result == Err::<Option<Value>, ErrorView>(error),
        Ok(config) => may_end(module, machine.frames.len(), config, after, result),
    }
}

/// Whether memory takes a data segment: it starts and ends within memory.
pub open spec fn segment_fits(segment: DataSegment, len: nat) -> bool {
    segment.offset < len && segment.offset + segment.data@.len() <= len
}

/// Memory after data segments are written to it in their order, or the error of
/// the first that does not fit.
pub open spec fn initialized(segments: Seq<DataSegment>, bytes: Seq<u8>) -> Result<
    Seq<u8>,
    ErrorView,
>
    decreases segments.len(),
{
    if segments.len() == 0 {
        Ok(bytes)
    } else {
        match initialized(segments.drop_last(), bytes) {
            Err(error) => Err(error),
            Ok(before) => {
                let segment = segments.last();
                if segment_fits(segment, before.len()) {
                    Ok(overwritten(before, segment.offset as int, segment.data@))
                } else {
                    Err(
                        ErrorView::AddrOutOfBound(
                            segment.offset,
                            (segment.data@.len() % 0x1_0000_0000) as u32,
                        ),
                    )
                }
            },
        }
    }
}

/// The values that globals start with.
pub open spec fn global_values(globals: Seq<Global>) -> Seq<Value> {
    globals.map_values(|g: Global| g.value)
}

/// Native functions before any of them is called.
pub open spec fn unresolved<E, H>(natives: Seq<Native>) -> Seq<NativeState<E, H>> {
    natives.map_values(
        |n: Native|
            NativeState {
                link: Link::<E, H>::Unresolved(n.module@, n.field@),
                typeidx: n.typeidx as nat,
            },
    )
}

/// A new machine for a module, or why there is none.
pub open spec fn new_machine<R: NativeResolver>(
    module: Module,
    config: RuntimeConfig<R>,
) -> Result<Machine<R>, ErrorView> {
    let runtime = config.initial_runtime::<R::Hook>();
    match initialized(module.data_segments@, runtime.memory.bytes) {
        Err(error) => Err(error),
        Ok(bytes) => Ok(
            Machine {
                frames: Seq::empty(),
                runtime: RuntimeState {
                    globals: global_values(module.globals@),
                    ..runtime.with_bytes(bytes)
                },
                natives: unresolved(module.natives@),
            },
        ),
    }
}

} // verus!
