//! What calls and returns do.
use vstd::prelude::*;

use crate::error::ErrorView;
use crate::frame::FrameState;
use crate::laws::flow::law_index_reading;
use crate::laws::steps::{comes_to, is_i32, no_i32, stack, stops, with_stack};
use crate::machine::{may_step, Config, Machine, NativeState, Next};
use crate::module::{Module, Type, ValType};
use crate::native::{may_invoke, Link, NativeResolver};
use crate::opcode::Opcode;
use crate::runtime::RuntimeState;
use crate::value::Value;

verus! {

/// The machine of a configuration whose running function waits for one that it calls:
/// it has these operands left, and goes on behind the call.
pub open spec fn waiting<R: NativeResolver>(config: Config<R>, operands: Seq<Value>) -> Machine<R> {
    let top = config.machine.frames.len() - 1;
    Machine {
        frames: config.machine.frames.update(
            top,
            FrameState { operands, ip: Some(config.ip + 1), ..config.machine.frames[top] },
        ),
        ..config.machine
    }
}

/// Whether a step calls a function, given the operands of the caller before it takes
/// the arguments.
///
/// The arguments are the operands on top, as many as the function has parameters.
/// Each goes to the local of its place: the lowest to the first. The locals behind
/// them, which the function declares, are undefined. The function starts at its first
/// instruction with no operands, and the caller waits with the operands that are left.
pub open spec fn calls<R: NativeResolver>(
    module: Module,
    config: Config<R>,
    next: Next<R>,
    operands: Seq<Value>,
    idx: nat,
) -> bool {
    let function = module.functions@[idx as int];
    let typeidx = function.typeidx as int;
    let depth = config.machine.frames.len();
    if idx >= module.functions@.len() {
        next == Next::Done(waiting(config, operands), Err(ErrorView::FunctionIndexOutOfBound))
    } else if typeidx >= module.types@.len() {
        next == Next::Done(waiting(config, operands), Err(ErrorView::TypeIdxIndexOufOfBound))
    } else {
        match module.types@[typeidx] {
            Type::Func(params, _) => if operands.len() < params@.len() {
                next == Next::Done(
                    waiting(config, Seq::empty()),
                    Err(ErrorView::OperandStackUnderflow),
                )
            } else {
                let below = operands.len() - params@.len();
                let after = next->Continue_0;
                let callee = after.machine.frames[depth as int];
                &&& next is Continue
                &&& after.ip == 0
                &&& after.machine.runtime == config.machine.runtime
                &&& after.machine.natives == config.machine.natives
                &&& after.machine.frames.len() == depth + 1
                &&& forall|i: int|
                    0 <= i < depth ==> #[trigger] after.machine.frames[i] == waiting(
                        config,
                        operands.subrange(0, below),
                    ).frames[i]
                &&& callee.func_id == idx
                &&& callee.ip is None
                &&& callee.operands.len() == 0
                &&& callee.locals.len() == params@.len() + function.locals@.len()
                &&& forall|i: int|
                    0 <= i < params@.len() ==> #[trigger] callee.locals[i] == operands[below + i]
                &&& forall|i: int|
                    params@.len() <= i < callee.locals.len() ==> #[trigger] callee.locals[i]
                        == Value::Undef
            },
        }
    }
}

/// `Call` calls the function of its index.
pub proof fn law_call<R: NativeResolver>(
    module: Module,
    depth: nat,
    config: Config<R>,
    next: Next<R>,
    idx: u32,
)
    requires
        comes_to(module, config, Opcode::Call(idx)),
        may_step(module, depth, config, next),
    ensures
        calls(module, config, next, stack(config), idx as nat),
{
    let frames = config.machine.frames;
    let top = frames.len() - 1;
    let waits = FrameState { ip: Some(config.ip + 1), ..frames[top] };
    assert(frames.update(top, waits).update(
        top,
        FrameState { operands: Seq::empty(), ..waits },
    ) =~= waiting(config, Seq::empty()).frames);
    if idx < module.functions@.len() && module.functions@[idx as int].typeidx
        < module.types@.len() {
        match module.types@[module.functions@[idx as int].typeidx as int] {
            Type::Func(params, _) => {
                if stack(config).len() >= params@.len() {
                    let below = stack(config).len() - params@.len();
                    let kept = stack(config).subrange(0, below);
                    assert(stack(config).take(below) =~= kept);
                    assert(frames.update(top, waits).update(
                        top,
                        FrameState { operands: kept, ..waits },
                    ) =~= waiting(config, kept).frames);
                }
            },
        }
    }
}

/// Whether two function types are the same.
pub open spec fn same_type(a: Type, b: Type) -> bool {
    match (a, b) {
        (Type::Func(params_a, results_a), Type::Func(params_b, results_b)) => {
            &&& params_a@ == params_b@
            &&& results_a@ == results_b@
        },
    }
}

/// `CallIndirect` takes an index into the first table from the top, and calls the
/// function that the table has there, if it has the type that the instruction asks
/// for. Each other case has its own error.
pub proof fn law_call_indirect<R: NativeResolver>(
    module: Module,
    depth: nat,
    config: Config<R>,
    next: Next<R>,
    typeidx: u32,
)
    requires
        comes_to(module, config, Opcode::CallIndirect(typeidx)),
        may_step(module, depth, config, next),
    ensures
        ({
            let operands = stack(config);
            let left = operands.subrange(0, operands.len() - 1);
            let x = operands[operands.len() - 1];
            if module.tables@.len() == 0 {
                stops(config, next, operands, ErrorView::TableIndexOutOfBound)
            } else if typeidx >= module.types@.len() {
                stops(config, next, operands, ErrorView::TypeIdxIndexOufOfBound)
            } else if operands.len() == 0 {
                stops(config, next, operands, ErrorView::OperandStackUnderflow)
            } else if no_i32(x) {
                stops(config, next, left, ErrorView::ValueTypeMismatch)
            } else {
                forall|v: i32| #[trigger]
                    is_i32(x, v) ==> {
                        let elements = module.tables@[0].elements@;
                        let at = (v as usize) as int;
                        if at >= elements.len() {
                            stops(config, next, left, ErrorView::TableIndexOutOfBound)
                        } else {
                            match elements[at] {
                                None => stops(config, next, left, ErrorView::UndefinedTableEntry),
                                Some(elem) => calls_typed(
                                    module,
                                    config,
                                    next,
                                    left,
                                    elem,
                                    module.types@[typeidx as int],
                                ),
                            }
                        }
                    }
            }
        }),
{
    let operands = stack(config);
    lemma_same_frames(config);
    if operands.len() > 0 {
        let left = operands.subrange(0, operands.len() - 1);
        let x = operands[operands.len() - 1];
        assert(operands.drop_last() =~= left);
        assert forall|v: i32| #[trigger] is_i32(x, v) && module.tables@.len() > 0 && typeidx
            < module.types@.len() implies ({
            let elements = module.tables@[0].elements@;
            let at = (v as usize) as int;
            if at >= elements.len() {
                stops(config, next, left, ErrorView::TableIndexOutOfBound)
            } else {
                match elements[at] {
                    None => stops(config, next, left, ErrorView::UndefinedTableEntry),
                    Some(elem) => calls_typed(
                        module,
                        config,
                        next,
                        left,
                        elem,
                        module.types@[typeidx as int],
                    ),
                }
            }
        }) by {
            law_index_reading(v);
            if 0 <= (v as usize) < module.tables@[0].elements@.len() {
                if let Some(elem) = module.tables@[0].elements@[(v as usize) as int] {
                    lemma_calls(module, config, left, elem as nat);
                }
            }
        }
    }
}

/// Whether a step calls a function that has the expected type, or fails because it
/// has not.
pub open spec fn calls_typed<R: NativeResolver>(
    module: Module,
    config: Config<R>,
    next: Next<R>,
    operands: Seq<Value>,
    elem: u32,
    expected: Type,
) -> bool {
    if elem >= module.functions@.len() {
        stops(config, next, operands, ErrorView::FunctionIndexOutOfBound)
    } else if module.functions@[elem as int].typeidx >= module.types@.len() {
        stops(config, next, operands, ErrorView::TypeIdxIndexOufOfBound)
    } else {
        let actual = module.types@[module.functions@[elem as int].typeidx as int];
        if same_type(actual, expected) {
            calls(module, config, next, operands, elem as nat)
        } else {
            stops(
                config,
                next,
                operands,
                ErrorView::IndirectCallTypeMismatch(elem as usize, expected@, actual@),
            )
        }
    }
}

proof fn lemma_same_frames<R: NativeResolver>(config: Config<R>)
    requires
        config.machine.frames.len() > 0,
    ensures
        with_stack(config, stack(config)) == config.machine,
{
    let top = config.machine.frames.len() - 1;
    let frames = config.machine.frames;
    assert(frames.update(top, FrameState { operands: stack(config), ..frames[top] }) =~= frames);
}

/// A call after operands have been taken.
proof fn lemma_calls<R: NativeResolver>(
    module: Module,
    config: Config<R>,
    operands: Seq<Value>,
    idx: nat,
)
    requires
        config.machine.frames.len() > 0,
    ensures
        calls(
            module,
            config,
            crate::machine::call(module, with_stack(config, operands), config.ip + 1, idx),
            operands,
            idx,
        ),
{
    let machine = with_stack(config, operands);
    let frames = machine.frames;
    let top = frames.len() - 1;
    let waits = FrameState { ip: Some(config.ip + 1), ..frames[top] };
    assert(frames.update(top, waits) =~= waiting(config, operands).frames);
    assert(frames.update(top, waits).update(
        top,
        FrameState { operands: Seq::empty(), ..waits },
    ) =~= waiting(config, Seq::empty()).frames);
    if idx < module.functions@.len() && module.functions@[idx as int].typeidx
        < module.types@.len() {
        match module.types@[module.functions@[idx as int].typeidx as int] {
            Type::Func(params, _) => {
                if operands.len() >= params@.len() {
                    let below = operands.len() - params@.len();
                    let kept = operands.subrange(0, below);
                    assert(operands.take(below) =~= kept);
                    assert(frames.update(top, waits).update(
                        top,
                        FrameState { operands: kept, ..waits },
                    ) =~= waiting(config, kept).frames);
                }
            },
        }
    }
}

/// `Return` removes the frame of its function, which has to have as many operands as
/// the function has results. The frame that the run started with ends the run, with
/// its lowest operand if there is one. Any other hands its operands, in their order,
/// to the function below, which goes on where it was waiting.
pub proof fn law_return<R: NativeResolver>(
    module: Module,
    depth: nat,
    config: Config<R>,
    next: Next<R>,
)
    requires
        comes_to(module, config, Opcode::Return),
        may_step(module, depth, config, next),
        depth < config.machine.frames.len(),
        config.machine.frames.len() - 1 > depth ==> config.machine.frames[
        config.machine.frames.len() - 2].ip is Some,
    ensures
        ({
            let frames = config.machine.frames;
            let last = frames.len() - 1;
            let operands = frames[last].operands;
            let typeidx = module.functions@[frames[last].func_id as int].typeidx as int;
            let removed = Machine { frames: frames.subrange(0, last), ..config.machine };
            if typeidx >= module.types@.len() {
                next == Next::Done(removed, Err(ErrorView::TypeIdxIndexOufOfBound))
            } else {
                match module.types@[typeidx] {
                    Type::Func(_, results) => if operands.len() != results@.len() {
                        next == Next::Done(removed, Err(ErrorView::ReturnTypeMismatch))
                    } else if last == depth {
                        &&& next matches Next::Done(after, Ok(value)) && {
                            &&& after == removed
                            &&& results@.len() == 0 ==> value is None
                            &&& results@.len() > 0 ==> value == Some(operands[0])
                        }
                    } else {
                        let caller = frames[last - 1];
                        next == Next::Continue(
                            Config {
                                machine: Machine {
                                    frames: frames.subrange(0, last - 1).push(
                                        FrameState {
                                            func_id: caller.func_id,
                                            ip: None,
                                            operands: caller.operands + operands,
                                            locals: caller.locals,
                                        },
                                    ),
                                    ..config.machine
                                },
                                ip: caller.ip->0,
                            },
                        )
                    },
                }
            }
        }),
{
    let frames = config.machine.frames;
    let last = frames.len() - 1;
    assert(frames.drop_last() =~= frames.subrange(0, last));
    if last > depth {
        let caller = frames[last - 1];
        let resumed = FrameState {
            func_id: caller.func_id,
            ip: None,
            operands: caller.operands + frames[last].operands,
            locals: caller.locals,
        };
        assert(frames.drop_last().update(last - 1, resumed) =~= frames.subrange(0, last - 1).push(
            resumed,
        ));
    }
}

/// The machine after a native function has run: it has changed the runtime, and may
/// have been resolved.
pub open spec fn after_call_of<R: NativeResolver>(
    config: Config<R>,
    operands: Seq<Value>,
    id: nat,
    link: Link<R::Entry, R::Hook>,
    runtime: RuntimeState<R, R::Hook>,
) -> Machine<R> {
    let natives = config.machine.natives;
    Machine {
        runtime,
        natives: natives.update(
            id as int,
            NativeState { link, typeidx: natives[id as int].typeidx },
        ),
        ..with_stack(config, operands)
    }
}

/// `NativeInvoke` hands the operands on top to a native function, as many as it has
/// parameters and in their order. Its error ends the run. Its value takes the place of
/// the arguments; it has to be there if and only if the function has results.
pub proof fn law_native_invoke<R: NativeResolver>(
    module: Module,
    depth: nat,
    config: Config<R>,
    next: Next<R>,
    id: u32,
)
    requires
        comes_to(module, config, Opcode::NativeInvoke(id)),
        may_step(module, depth, config, next),
    ensures
        ({
            let operands = stack(config);
            let natives = config.machine.natives;
            let typeidx = natives[id as int].typeidx;
            if id >= natives.len() {
                stops(config, next, operands, ErrorView::FunctionIndexOutOfBound)
            } else if typeidx >= module.types@.len() {
                stops(config, next, operands, ErrorView::TypeIdxIndexOufOfBound)
            } else {
                match module.types@[typeidx as int] {
                    Type::Func(params, results) => if params@.len() > operands.len() {
                        stops(config, next, operands, ErrorView::OperandStackUnderflow)
                    } else {
                        invokes(module, config, next, id as nat, params@, results@)
                    },
                }
            }
        }),
{
    let operands = stack(config);
    lemma_same_frames(config);
    let natives = config.machine.natives;
    if id < natives.len() && natives[id as int].typeidx < module.types@.len() {
        match module.types@[natives[id as int].typeidx as int] {
            Type::Func(params, results) => {
                if params@.len() <= operands.len() {
                    let below = operands.len() - params@.len();
                    assert(operands.skip(below) =~= operands.subrange(
                        below,
                        operands.len() as int,
                    ));
                    assert(operands.take(below) =~= operands.subrange(0, below));
                }
            },
        }
    }
}

/// Whether a step calls a native function with the operands on top and does with its
/// answer what `NativeInvoke` does.
pub open spec fn invokes<R: NativeResolver>(
    module: Module,
    config: Config<R>,
    next: Next<R>,
    id: nat,
    params: Seq<ValType>,
    results: Seq<ValType>,
) -> bool {
    let operands = stack(config);
    let below = operands.len() - params.len();
    exists|
        link: Link<R::Entry, R::Hook>,
        runtime: RuntimeState<R, R::Hook>,
        result: Result<Option<Value>, ErrorView>,
    |
        {
            &&& #[trigger] may_invoke::<R>(
                config.machine.natives[id as int].link,
                config.machine.runtime,
                operands.subrange(below, operands.len() as int),
                link,
                runtime,
                result,
            )
            &&& match result {
                Err(error) => next == Next::Done(
                    after_call_of(config, operands, id, link, runtime),
                    Err(error),
                ),
                Ok(None) => if results.len() == 0 {
                    next == Next::Continue(
                        Config {
                            machine: after_call_of(
                                config,
                                operands.subrange(0, below),
                                id,
                                link,
                                runtime,
                            ),
                            ip: config.ip + 1,
                        },
                    )
                } else {
                    next == Next::Done(
                        after_call_of(config, operands, id, link, runtime),
                        Err(ErrorView::TypeMismatch),
                    )
                },
                Ok(Some(value)) => if results.len() > 0 {
                    next == Next::Continue(
                        Config {
                            machine: after_call_of(
                                config,
                                operands.subrange(0, below).push(value),
                                id,
                                link,
                                runtime,
                            ),
                            ip: config.ip + 1,
                        },
                    )
                } else {
                    next == Next::Done(
                        after_call_of(config, operands, id, link, runtime),
                        Err(ErrorView::TypeMismatch),
                    )
                },
            }
        }
}

/// A step where there is no instruction.
pub proof fn law_no_instruction<R: NativeResolver>(
    module: Module,
    depth: nat,
    config: Config<R>,
    next: Next<R>,
)
    requires
        may_step(module, depth, config, next),
    ensures
        ({
            let frames = config.machine.frames;
            let running = module.functions@[frames[frames.len() - 1].func_id as int];
            &&& frames.len() == 0 ==> next == Next::Done(
                config.machine,
                Err(ErrorView::FrameIndexOutOfBound),
            )
            &&& frames.len() > 0 && config.ip >= running.body.opcodes@.len() ==> next == Next::Done(
                config.machine,
                Err(ErrorView::OpcodeIndexOutOfBound),
            )
        }),
{
}

} // verus!
