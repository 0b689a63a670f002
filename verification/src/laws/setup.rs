//! What machines are made of, how runs start, and how they go from step to step.
use vstd::prelude::*;

use crate::error::{outcome, ErrorView, ExecuteError, ExecuteResult};
use crate::executor::{may_halt, Execution, Step};
use crate::frame::{undefined, FrameState};
use crate::laws::steps::{comes_to, is_i32, is_i64, no_i32, no_i64, stack};
use crate::machine::{
    ends_within, entry, exported, frame_names, initialized, may_continue, may_end, may_execute,
    may_step, new_machine, reaches, running, stuck, terminates, Config, Machine, Next,
};
use crate::memory::{page_count, zeros, MemoryState};
use crate::module::{found, DataSegment, Export, Module, Type, ValType};
use crate::native::{Link, NativeFunction, NativeResolver, NativeTarget};
use crate::opcode::Opcode;
use crate::runtime::{shown_by, DebugPrint, RuntimeConfig, RuntimeState};
use crate::semantics::read_copy;
use crate::value::Value;

verus! {

// New machines.

/// Whether a segment covers an address.
pub open spec fn covers(segment: DataSegment, addr: int) -> bool {
    segment.offset <= addr < segment.offset + segment.data@.len()
}

/// Whether a segment starts within memory and does not end behind it.
pub open spec fn lies_within(segment: DataSegment, len: int) -> bool {
    segment.offset < len && segment.offset + segment.data@.len() <= len
}

proof fn lemma_initialized(segments: Seq<DataSegment>, bytes: Seq<u8>)
    ensures
        ({
            let after = initialized(segments, bytes);
            &&& (forall|i: int|
                0 <= i < segments.len() ==> lies_within(#[trigger] segments[i], bytes.len() as int))
                ==> after is Ok
            &&& forall|i: int|
                0 <= i < segments.len() && !lies_within(#[trigger] segments[i], bytes.len() as int)
                    && (forall|j: int|
                    0 <= j < i ==> lies_within(#[trigger] segments[j], bytes.len() as int))
                    ==> after == Err::<Seq<u8>, ErrorView>(
                    ErrorView::AddrOutOfBound(
                        segments[i].offset,
                        (segments[i].data@.len() % 0x1_0000_0000) as u32,
                    ),
                )
            &&& after matches Ok(memory) ==> {
                &&& memory.len() == bytes.len()
                &&& forall|i: int, addr: int|
                    0 <= i < segments.len() && 0 <= addr < memory.len() && covers(segments[i], addr)
                        && (forall|j: int|
                        i < j < segments.len() ==> !covers(#[trigger] segments[j], addr))
                        ==> #[trigger] memory[addr] == (#[trigger] segments[i]).data@[addr
                        - segments[i].offset]
                &&& forall|addr: int|
                    0 <= addr < memory.len() && (forall|j: int|
                        0 <= j < segments.len() ==> !covers(#[trigger] segments[j], addr))
                        ==> #[trigger] memory[addr] == bytes[addr]
            }
        }),
    decreases segments.len(),
{
    if segments.len() > 0 {
        let first = segments.drop_last();
        let last = segments.last();
        let n = first.len() as int;
        lemma_initialized(first, bytes);
        assert forall|j: int| 0 <= j < n implies #[trigger] first[j] == segments[j] by {}
        let after = initialized(segments, bytes);
        assert forall|i: int|
            0 <= i < segments.len() && !lies_within(#[trigger] segments[i], bytes.len() as int) && (
            forall|j: int|
                0 <= j < i ==> lies_within(
                    #[trigger] segments[j],
                    bytes.len() as int,
                )) implies after == Err::<Seq<u8>, ErrorView>(
            ErrorView::AddrOutOfBound(
                segments[i].offset,
                (segments[i].data@.len() % 0x1_0000_0000) as u32,
            ),
        ) by {
            if i < n {
                assert(!lies_within(first[i], bytes.len() as int));
                assert forall|j: int| 0 <= j < i implies lies_within(
                    #[trigger] first[j],
                    bytes.len() as int,
                ) by {
                    assert(lies_within(segments[j], bytes.len() as int));
                }
            } else {
                assert forall|j: int| 0 <= j < n implies lies_within(
                    #[trigger] first[j],
                    bytes.len() as int,
                ) by {
                    assert(lies_within(segments[j], bytes.len() as int));
                }
            }
        }
        if forall|i: int|
            0 <= i < segments.len() ==> lies_within(#[trigger] segments[i], bytes.len() as int) {
            assert forall|j: int| 0 <= j < n implies lies_within(
                #[trigger] first[j],
                bytes.len() as int,
            ) by {
                assert(lies_within(segments[j], bytes.len() as int));
            }
            assert(lies_within(segments[n], bytes.len() as int));
        }
        if let Ok(memory) = after {
            let before = initialized(first, bytes)->Ok_0;
            assert forall|i: int, addr: int|
                0 <= i < segments.len() && 0 <= addr < memory.len() && covers(segments[i], addr)
                    && (forall|j: int|
                    i < j < segments.len() ==> !covers(
                        #[trigger] segments[j],
                        addr,
                    )) implies #[trigger] memory[addr] == (#[trigger] segments[i]).data@[addr
                - segments[i].offset] by {
                if i < n {
                    assert(!covers(segments[n], addr));
                    assert(covers(first[i], addr));
                    assert forall|j: int| i < j < n implies !covers(#[trigger] first[j], addr) by {
                        assert(!covers(segments[j], addr));
                    }
                    assert(before[addr] == first[i].data@[addr - first[i].offset]);
                    assert(memory[addr] == before[addr]);
                } else {
                    assert(segments[i] == last);
                }
            }
            assert forall|addr: int|
                0 <= addr < memory.len() && (forall|j: int|
                    0 <= j < segments.len() ==> !covers(
                        #[trigger] segments[j],
                        addr,
                    )) implies #[trigger] memory[addr] == bytes[addr] by {
                assert(!covers(segments[n], addr));
                assert forall|j: int| 0 <= j < n implies !covers(#[trigger] first[j], addr) by {
                    assert(!covers(segments[j], addr));
                }
                assert(before[addr] == bytes[addr]);
            }
        }
    }
}

/// A new machine has no frames. Its memory has the pages that it is to start with and
/// the limit that it is given, and every byte is that of the last data segment that
/// covers it, or zero. Its globals have their first values, its native functions are
/// those of the module and not resolved, and it has the resolver of the configuration
/// and no hook. There is one if and only if every data segment lies within memory; if
/// not, the error tells of the first that does not.
pub proof fn law_new_machine<R: NativeResolver>(module: Module, config: RuntimeConfig<R>)
    requires
        config.mem_default_size_pages * 65536 <= usize::MAX,
        config.mem_max_size_pages matches Some(pages) ==> pages * 65536 <= usize::MAX,
    ensures
        config.sizes_fit(),
        ({
            let len = config.mem_default_size_pages * 65536;
            let segments = module.data_segments@;
            let made = new_machine(module, config);
            &&& (forall|i: int|
                0 <= i < segments.len() ==> lies_within(#[trigger] segments[i], len)) ==> made is Ok
            &&& forall|i: int|
                0 <= i < segments.len() && !lies_within(#[trigger] segments[i], len) && (forall|
                    j: int,
                |
                    0 <= j < i ==> lies_within(#[trigger] segments[j], len)) ==> made == Err::<
                    Machine<R>,
                    ErrorView,
                >(
                    ErrorView::AddrOutOfBound(
                        segments[i].offset,
                        (segments[i].data@.len() % 0x1_0000_0000) as u32,
                    ),
                )
            &&& made matches Ok(machine) ==> {
                let memory = machine.runtime.memory.bytes;
                &&& machine.frames.len() == 0
                &&& memory.len() == len
                &&& forall|i: int, addr: int|
                    0 <= i < segments.len() && 0 <= addr < len && covers(segments[i], addr) && (
                    forall|j: int|
                        i < j < segments.len() ==> !covers(#[trigger] segments[j], addr))
                        ==> #[trigger] memory[addr] == (#[trigger] segments[i]).data@[addr
                        - segments[i].offset]
                &&& forall|addr: int|
                    0 <= addr < len && (forall|j: int|
                        0 <= j < segments.len() ==> !covers(#[trigger] segments[j], addr))
                        ==> #[trigger] memory[addr] == 0
                &&& match config.mem_max_size_pages {
                    Some(pages) => machine.runtime.memory.max_size matches Some(limit) && limit
                        == pages * 65536,
                    None => machine.runtime.memory.max_size is None,
                }
                &&& machine.runtime.globals.len() == module.globals@.len()
                &&& forall|i: int|
                    0 <= i < module.globals@.len() ==> #[trigger] machine.runtime.globals[i]
                        == module.globals@[i].value
                &&& machine.runtime.resolver == config.resolver
                &&& machine.runtime.debug_print_hook is None
                &&& machine.natives.len() == module.natives@.len()
                &&& forall|i: int|
                    #![trigger machine.natives[i]]
                    0 <= i < module.natives@.len() ==> {
                        &&& machine.natives[i].typeidx == module.natives@[i].typeidx
                        &&& machine.natives[i].link == Link::<R::Entry, R::Hook>::Unresolved(
                            module.natives@[i].module@,
                            module.natives@[i].field@,
                        )
                    }
            }
        }),
{
    let len = (config.mem_default_size_pages * 65536) as nat;
    lemma_initialized(module.data_segments@, zeros(len));
}

// Starts.

/// A function starts above the frames that are there, at its first instruction, with
/// no operands. Its locals are the arguments and, behind them, one that is undefined
/// for each that the function declares. It needs its type, and as many arguments as
/// the type has parameters.
pub proof fn law_start<R: NativeResolver>(
    module: Module,
    machine: Machine<R>,
    func: nat,
    args: Seq<Value>,
)
    requires
        func < module.functions@.len(),
    ensures
        ({
            let function = module.functions@[func as int];
            let typeidx = function.typeidx as int;
            let start = entry(module, machine, func, args);
            if typeidx >= module.types@.len() {
                start == Err::<Config<R>, ErrorView>(ErrorView::TypeIdxIndexOufOfBound)
            } else {
                match module.types@[typeidx] {
                    Type::Func(params, _) => if args.len() != params@.len() {
                        start == Err::<Config<R>, ErrorView>(ErrorView::TypeMismatch)
                    } else {
                        let first = start->Ok_0.machine.frames[machine.frames.len() as int];
                        &&& start matches Ok(config) && {
                            &&& config.ip == 0
                            &&& config.machine.runtime == machine.runtime
                            &&& config.machine.natives == machine.natives
                            &&& config.machine.frames == machine.frames.push(first)
                        }
                        &&& first.func_id == func
                        &&& first.ip is None
                        &&& first.operands.len() == 0
                        &&& first.locals.len() == args.len() + function.locals@.len()
                        &&& forall|i: int|
                            0 <= i < args.len() ==> #[trigger] first.locals[i] == args[i]
                        &&& forall|i: int|
                            args.len() <= i < first.locals.len() ==> #[trigger] first.locals[i]
                                == Value::Undef
                    },
                }
            }
        }),
{
}

// Steps in a row.

/// Whether each configuration of a run leads to the next by a step, and none of them
/// is at an instruction without an effect.
pub open spec fn is_run<R: NativeResolver>(
    module: Module,
    depth: nat,
    run: Seq<Config<R>>,
) -> bool {
    &&& run.len() > 0
    &&& forall|i: int|
        #![trigger run[i]]
        0 <= i < run.len() - 1 ==> !stuck(module, run[i]) && may_step(
            module,
            depth,
            run[i],
            Next::Continue(run[i + 1]),
        )
}

#[verifier::rlimit(40)]
#[verifier::spinoff_prover]
proof fn lemma_run_of<R: NativeResolver>(
    module: Module,
    depth: nat,
    from: Config<R>,
    n: nat,
    to: Config<R>,
) -> (run: Seq<Config<R>>)
    requires
        reaches(module, depth, from, n, to),
    ensures
        is_run(module, depth, run),
        run.len() == n + 1,
        run[0] == from,
        run[n as int] == to,
    decreases n,
{
    if n == 0 {
        seq![from]
    } else {
        let mid = crate::laws::lemma_step_before(module, depth, from, n, to);
        let before = lemma_run_of(module, depth, from, (n - 1) as nat, mid);
        let run = before.push(to);
        assert forall|i: int| #![trigger run[i]] 0 <= i < run.len() - 1 implies !stuck(
            module,
            run[i],
        ) && may_step(module, depth, run[i], Next::Continue(run[i + 1])) by {
            assert(run[i] == before[i]);
            if i < n - 1 {
                assert(run[i + 1] == before[i + 1]);
            }
        }
        run
    }
}

proof fn lemma_reaches_of<R: NativeResolver>(module: Module, depth: nat, run: Seq<Config<R>>)
    requires
        is_run(module, depth, run),
    ensures
        reaches(module, depth, run[0], (run.len() - 1) as nat, run[run.len() - 1]),
    decreases run.len(),
{
    if run.len() > 1 {
        let before = run.drop_last();
        assert forall|i: int| #![trigger before[i]] 0 <= i < before.len() - 1 implies !stuck(
            module,
            before[i],
        ) && may_step(module, depth, before[i], Next::Continue(before[i + 1])) by {
            assert(run[i] == before[i] && run[i + 1] == before[i + 1]);
        }
        lemma_reaches_of(module, depth, before);
        let mid = run[run.len() - 2];
        assert(may_continue(module, depth, mid, run[run.len() - 1]));
        assert(before[before.len() - 1] == mid);
    }
}

/// What running a function may come to is what a row of steps from its start leads to,
/// the last of which ends the run.
pub proof fn law_execution_is_a_run<R: NativeResolver>(
    module: Module,
    machine: Machine<R>,
    func: nat,
    args: Seq<Value>,
    after: Machine<R>,
    result: Result<Option<Value>, ErrorView>,
)
    ensures
        may_execute(module, machine, func, args, after, result) <==> match entry(
            module,
            machine,
            func,
            args,
        ) {
            Err(error) => after == machine && result == Err::<Option<Value>, ErrorView>(error),
            Ok(start) => exists|run: Seq<Config<R>>|
                {
                    &&& #[trigger] is_run(module, machine.frames.len(), run)
                    &&& run[0] == start
                    &&& !stuck(module, run[run.len() - 1])
                    &&& may_step(
                        module,
                        machine.frames.len(),
                        run[run.len() - 1],
                        Next::Done(after, result),
                    )
                },
        },
{
    let depth = machine.frames.len();
    if let Ok(start) = entry(module, machine, func, args) {
        if may_execute(module, machine, func, args, after, result) {
            let (n, last) = crate::laws::lemma_last_step(module, depth, start, after, result);
            let run = lemma_run_of(module, depth, start, n, last);
            assert(is_run(module, depth, run));
        }
        if exists|run: Seq<Config<R>>|
            {
                &&& #[trigger] is_run(module, depth, run)
                &&& run[0] == start
                &&& !stuck(module, run[run.len() - 1])
                &&& may_step(module, depth, run[run.len() - 1], Next::Done(after, result))
            } {
            let run = choose|run: Seq<Config<R>>|
                {
                    &&& #[trigger] is_run(module, depth, run)
                    &&& run[0] == start
                    &&& !stuck(module, run[run.len() - 1])
                    &&& may_step(module, depth, run[run.len() - 1], Next::Done(after, result))
                };
            lemma_reaches_of(module, depth, run);
            assert(may_end(module, depth, start, after, result));
        }
    }
}

/// A run with a limit takes a row of steps from its start. It has completed if one
/// more step, still within the limit, ended it; it is out of steps if it has taken
/// exactly as many as the limit; and it is stuck at an instruction without an effect.
pub proof fn law_limited_execution_is_a_run<R: NativeResolver>(
    module: Module,
    depth: nat,
    start: Config<R>,
    limit: nat,
    after: Machine<R>,
    execution: Execution,
)
    requires
        may_halt(module, depth, start, limit, after, execution),
    ensures
        exists|run: Seq<Config<R>>|
            {
                &&& #[trigger] is_run(module, depth, run)
                &&& run[0] == start
                &&& match execution {
                    Execution::Completed(Ok(value)) => {
                        &&& run.len() <= limit
                        &&& !stuck(module, run[run.len() - 1])
                        &&& may_step(
                            module,
                            depth,
                            run[run.len() - 1],
                            Next::Done(after, Ok(value)),
                        )
                    },
                    Execution::Completed(Err(error)) => {
                        &&& run.len() <= limit
                        &&& !stuck(module, run[run.len() - 1])
                        &&& may_step(
                            module,
                            depth,
                            run[run.len() - 1],
                            Next::Done(after, Err(error@)),
                        )
                    },
                    Execution::OutOfSteps => run.len() == limit + 1 && after == run[run.len()
                        - 1].machine,
                    Execution::Stuck => {
                        &&& run.len() <= limit + 1
                        &&& stuck(module, run[run.len() - 1])
                        &&& after == run[run.len() - 1].machine
                    },
                }
            },
{
    let (n, last) = choose|n: nat, last: Config<R>|
        {
            &&& n <= limit
            &&& #[trigger] reaches(module, depth, start, n, last)
            &&& match execution {
                Execution::Completed(result) => {
                    &&& n < limit
                    &&& !stuck(module, last)
                    &&& may_step(module, depth, last, Next::Done(after, outcome(result)))
                },
                Execution::OutOfSteps => n == limit && after == last.machine,
                Execution::Stuck => stuck(module, last) && after == last.machine,
            }
        };
    let run = lemma_run_of(module, depth, start, n, last);
    assert(is_run(module, depth, run));
}

/// A function ends within `n` steps, whatever its native functions do, if and only if
/// no row of steps from its start has come to more than `n` configurations, and none
/// comes to an instruction without an effect.
pub proof fn law_ending<R: NativeResolver>(
    module: Module,
    depth: nat,
    start: Config<R>,
    n: nat,
)
    ensures
        ends_within(module, depth, start, n) <==> forall|run: Seq<Config<R>>| #[trigger]
            is_run(module, depth, run) && run[0] == start ==> run.len() <= n && !stuck(
                module,
                run[run.len() - 1],
            ),
    decreases n,
{
    if ends_within(module, depth, start, n) {
        assert forall|run: Seq<Config<R>>| #[trigger] is_run(module, depth, run) && run[0]
            == start implies run.len() <= n && !stuck(module, run[run.len() - 1]) by {
            if run.len() > 1 {
                let rest = run.drop_first();
                assert(may_step(module, depth, run[0], Next::Continue(run[1])));
                assert forall|i: int| #![trigger rest[i]] 0 <= i < rest.len() - 1 implies !stuck(
                    module,
                    rest[i],
                ) && may_step(module, depth, rest[i], Next::Continue(rest[i + 1])) by {
                    assert(rest[i] == run[i + 1] && rest[i + 1] == run[i + 2]);
                }
                assert(is_run(module, depth, rest));
                law_ending(module, depth, run[1], (n - 1) as nat);
            }
        }
    }
    if forall|run: Seq<Config<R>>| #[trigger]
        is_run(module, depth, run) && run[0] == start ==> run.len() <= n && !stuck(
            module,
            run[run.len() - 1],
        ) {
        let one = seq![start];
        assert(is_run(module, depth, one));
        assert(one.len() <= n && !stuck(module, one[0]));
        assert forall|next: Config<R>| #[trigger]
            may_step(module, depth, start, Next::Continue(next)) implies ends_within(
            module,
            depth,
            next,
            (n - 1) as nat,
        ) by {
            assert forall|run: Seq<Config<R>>| #[trigger] is_run(module, depth, run) && run[0]
                == next implies run.len() <= n - 1 && !stuck(module, run[run.len() - 1]) by {
                let longer = seq![start] + run;
                assert forall|i: int|
                    #![trigger longer[i]]
                    0 <= i < longer.len() - 1 implies !stuck(module, longer[i]) && may_step(
                    module,
                    depth,
                    longer[i],
                    Next::Continue(longer[i + 1]),
                ) by {
                    if i == 0 {
                        assert(longer[1] == run[0]);
                    } else {
                        assert(longer[i] == run[i - 1] && longer[i + 1] == run[i]);
                    }
                }
                assert(is_run(module, depth, longer));
                assert(longer[longer.len() - 1] == run[run.len() - 1]);
            }
            law_ending(module, depth, next, (n - 1) as nat);
        }
    }
}

/// Running a function is known to end if and only if it does not start, or there is a
/// number of steps within which it ends.
pub proof fn law_termination<R: NativeResolver>(
    module: Module,
    machine: Machine<R>,
    func: nat,
    args: Seq<Value>,
)
    ensures
        terminates(module, machine, func, args) <==> match entry(module, machine, func, args) {
            Err(_) => true,
            Ok(start) => exists|n: nat| ends_within(module, machine.frames.len(), start, n),
        },
{
}

/// The only instructions without an effect are a division by zero, a signed division
/// whose quotient is too large by one, and a copy with a region whose end is not a
/// number of this machine.
pub proof fn law_stuck<R: NativeResolver>(module: Module, config: Config<R>, op: Opcode)
    requires
        comes_to(module, config, op),
    ensures
        ({
            let operands = stack(config);
            let len = operands.len();
            let by_zero_32 = len >= 2 && is_i32(operands[len - 1], 0) && !no_i32(
                operands[len - 2],
            );
            let by_zero_64 = len >= 2 && is_i64(operands[len - 1], 0) && !no_i64(
                operands[len - 2],
            );
            let too_large_32 = len >= 2 && operands[len - 1] == Value::I32((-1) as i32)
                && operands[len - 2] == Value::I32(i32::MIN);
            let too_large_64 = len >= 2 && operands[len - 1] == Value::I64((-1) as i64)
                && operands[len - 2] == Value::I64(i64::MIN);
            &&& op is I32DivU || op is I32RemU || op is I32RemS ==> stuck(module, config)
                == by_zero_32
            &&& op is I64DivU || op is I64RemU || op is I64RemS ==> stuck(module, config)
                == by_zero_64
            &&& op is I32DivS ==> stuck(module, config) == (by_zero_32 || too_large_32)
            &&& op is I64DivS ==> stuck(module, config) == (by_zero_64 || too_large_64)
            &&& op is Memcpy && (len < 3 || no_i32(operands[len - 1]) || no_i32(operands[len - 2])
                || no_i32(operands[len - 3])) ==> !stuck(module, config)
            &&& !(op is I32DivU || op is I32RemU || op is I32RemS || op is I64DivU || op is I64RemU
                || op is I64RemS || op is I32DivS || op is I64DivS || op is Memcpy) ==> !stuck(
                module,
                config,
            )
        }),
{
}

/// A run that has no instruction to come to is not stuck.
pub proof fn law_no_instruction_is_not_stuck<R: NativeResolver>(module: Module, config: Config<R>)
    requires
        ({
            let frames = config.machine.frames;
            frames.len() == 0 || config.ip
                >= module.functions@[frames[frames.len() - 1].func_id as int].body.opcodes@.len()
        }),
    ensures
        !stuck(module, config),
{
}

/// A copy has no effect if and only if the end of its destination is not a number of
/// this machine, or that of its source, where the destination is within memory.
pub proof fn law_copy_stuck<R: NativeResolver>(
    module: Module,
    config: Config<R>,
    rest: Seq<Value>,
    x: Value,
    y: Value,
    z: Value,
    dest: i32,
    src: i32,
    n: i32,
)
    requires
        comes_to(module, config, Opcode::Memcpy),
        stack(config) == rest.push(x).push(y).push(z),
        is_i32(x, dest),
        is_i32(y, src),
        is_i32(z, n),
    ensures
        ({
            let len = config.machine.runtime.memory.bytes.len();
            let d = (dest as usize) + (n as usize);
            let s = (src as usize) + (n as usize);
            stuck(module, config) <==> d > usize::MAX || d < len && s > usize::MAX
        }),
{
    crate::laws::flow::law_index_reading(dest);
    crate::laws::flow::law_index_reading(src);
    crate::laws::flow::law_index_reading(n);
    let operands = stack(config);
    assert(operands.drop_last() =~= rest.push(x).push(y));
    assert(rest.push(x).push(y).drop_last() =~= rest.push(x));
    assert(rest.push(x).drop_last() =~= rest);
    assert(read_copy(operands) == (rest, Ok::<(i32, i32, i32), ErrorView>((n, src, dest))));
}

// What a machine tells of itself.

/// A name that is exported anew is found with its new export, and every other name as
/// before. Nothing is found where nothing is exported. A function is looked up by the
/// export of its name.
pub proof fn law_exports(
    module: Module,
    exports: Map<Seq<char>, Export>,
    name: Seq<char>,
    other: Seq<char>,
    export: Export,
)
    ensures
        found(exports.insert(name, export), name) == Some(export),
        other != name ==> found(exports.insert(name, export), other) == found(exports, other),
        found(Map::empty(), name) is None,
        found(module.exports@, name) matches Some(Export::Function(id)) ==> (exported(
            module,
            name,
        ) matches Ok(func) && func == id),
        found(module.exports@, name) is None ==> exported(module, name) == Err::<usize, ErrorView>(
            ErrorView::FunctionNotFound,
        ),
{
}

/// A machine without frames runs nothing and has no names to tell. With one more frame
/// it runs the function of that frame, and tells its name before all others.
pub proof fn law_backtrace<R: NativeResolver>(
    module: Module,
    machine: Machine<R>,
    frame: FrameState,
)
    ensures
        machine.frames.len() == 0 ==> {
            &&& running(module, machine) is None
            &&& frame_names(module, machine).len() == 0
        },
        ({
            let deeper = Machine { frames: machine.frames.push(frame), ..machine };
            let function = module.functions@[frame.func_id as int];
            &&& running(module, deeper) == Some(function)
            &&& frame_names(module, deeper) == seq![function.name] + frame_names(module, machine)
        }),
{
    let deeper = Machine { frames: machine.frames.push(frame), ..machine };
    assert(frame_names(module, deeper) =~= seq![module.functions@[frame.func_id as int].name]
        + frame_names(module, machine));
}

// Parts.

/// Values are read as the integers that they are, and an undefined value as zero.
pub proof fn law_values_as_integers(a: i32, b: i64, c: u32, d: u64)
    ensures
        Value::Undef.as_i32() == Some(0i32),
        Value::I32(a).as_i32() == Some(a),
        Value::I64(b).as_i32() is None,
        Value::F32(c).as_i32() is None,
        Value::F64(d).as_i32() is None,
        Value::Undef.as_i64() == Some(0i64),
        Value::I32(a).as_i64() is None,
        Value::I64(b).as_i64() == Some(b),
        Value::F32(c).as_i64() is None,
        Value::F64(d).as_i64() is None,
        Value::Undef.to_i64() == 0,
        Value::I32(a).to_i64() == a,
        Value::I64(b).to_i64() == b,
{
}

/// A new frame is at the start of its function and has the locals that it is given.
pub proof fn law_new_frame(func_id: nat, locals: Seq<Value>, n: nat)
    ensures
        FrameState::fresh(func_id, locals).func_id == func_id,
        FrameState::fresh(func_id, locals).ip is None,
        FrameState::fresh(func_id, locals).operands.len() == 0,
        FrameState::fresh(func_id, locals).locals == locals,
        undefined(n).len() == n,
        forall|i: int| 0 <= i < n ==> #[trigger] undefined(n)[i] == Value::Undef,
{
}

/// The operands of a frame are a stack: a push adds one on top, a pop takes the top
/// away, and nothing else of the frame changes. There is nothing to pop from an empty
/// one.
pub proof fn law_frame_operands(frame: FrameState, value: Value)
    ensures
        frame.pushed(value) == (FrameState { operands: frame.operands.push(value), ..frame }),
        frame.operands.len() > 0 ==> {
            &&& frame.top() == Ok::<Value, ErrorView>(frame.operands[frame.operands.len() - 1])
            &&& frame.popped() == (FrameState {
                operands: frame.operands.subrange(0, frame.operands.len() - 1),
                ..frame
            })
        },
        frame.operands.len() == 0 ==> {
            &&& frame.top() == Err::<Value, ErrorView>(ErrorView::OperandStackUnderflow)
            &&& frame.popped() == frame
        },
{
}

/// A local is found by its index and changed alone.
pub proof fn law_frame_locals(frame: FrameState, idx: u32, value: Value)
    ensures
        idx < frame.locals.len() ==> {
            &&& frame.local(idx) == Ok::<Value, ErrorView>(frame.locals[idx as int])
            &&& frame.with_local(idx, value) == (FrameState {
                locals: frame.locals.subrange(0, idx as int).push(value) + frame.locals.subrange(
                    idx + 1,
                    frame.locals.len() as int,
                ),
                ..frame
            })
        },
        idx >= frame.locals.len() ==> {
            &&& frame.local(idx) == Err::<Value, ErrorView>(
                ErrorView::LocalIndexOutOfBound(idx as usize),
            )
            &&& frame.with_local(idx, value) == frame
        },
{
    if idx < frame.locals.len() {
        assert(frame.locals.update(idx as int, value) =~= frame.locals.subrange(0, idx as int).push(
            value,
        ) + frame.locals.subrange(idx + 1, frame.locals.len() as int));
    }
}

/// Memory that is asked for more pages of 65536 bytes grows by them, with zeros, if
/// they are at most 16384 and it stays within its limit and within what an address can
/// tell. It answers with its pages before, or with minus one.
pub proof fn law_growth(memory: MemoryState, n: i32)
    requires
        memory.bytes.len() < 65536 * 0x8000_0000,
    ensures
        ({
            let len = memory.bytes.len();
            let (after, answer) = memory.grown(n);
            let granted = 0 < n <= 16384 && len + 65536 * n <= usize::MAX && (memory.max_size
                matches Some(most) ==> len + 65536 * n <= most);
            &&& after.max_size == memory.max_size
            &&& !granted ==> after == memory && answer == Value::I32((-1) as i32)
            &&& granted ==> {
                &&& answer matches Value::I32(pages) && 65536 * pages <= len < 65536 * pages + 65536
                &&& after.bytes.len() == len + 65536 * n
                &&& forall|i: int| 0 <= i < len ==> #[trigger] after.bytes[i] == memory.bytes[i]
                &&& forall|i: int| len <= i < after.bytes.len() ==> #[trigger] after.bytes[i] == 0
            }
            &&& page_count(len) matches Value::I32(pages) && 65536 * pages <= len < 65536 * pages
                + 65536
        }),
{
}

/// Bytes of zero are all zero.
pub proof fn law_zeros(n: nat)
    ensures
        zeros(n).len() == n,
        forall|i: int| 0 <= i < n ==> #[trigger] zeros(n)[i] == 0,
{
}

/// A runtime with other bytes or another hook is otherwise the same. A text reaches
/// the hook, if there is one.
pub proof fn law_runtime_parts<R, H: DebugPrint>(
    rt: RuntimeState<R, H>,
    bytes: Seq<u8>,
    hook: H,
    text: Seq<char>,
)
    ensures
        rt.with_bytes(bytes).memory.bytes == bytes,
        rt.with_bytes(bytes).memory.max_size == rt.memory.max_size,
        rt.with_bytes(bytes).globals == rt.globals,
        rt.with_bytes(bytes).resolver == rt.resolver,
        rt.with_bytes(bytes).debug_print_hook == rt.debug_print_hook,
        rt.with_hook(hook).debug_print_hook == Some(hook),
        shown_by(Some(hook), text) <==> hook.shown(text),
        shown_by(None::<H>, text),
{
}

/// A new runtime has memory of zeros, no globals, the resolver that it is given, and no
/// hook.
pub proof fn law_new_runtime<R, H>(config: RuntimeConfig<R>)
    requires
        config.mem_default_size_pages * 65536 <= usize::MAX,
        config.mem_max_size_pages matches Some(pages) ==> pages * 65536 <= usize::MAX,
    ensures
        ({
            let rt = config.initial_runtime::<H>();
            &&& rt.memory.bytes.len() == config.mem_default_size_pages * 65536
            &&& forall|i: int|
                0 <= i < rt.memory.bytes.len() ==> #[trigger] rt.memory.bytes[i] == 0
            &&& match config.mem_max_size_pages {
                Some(pages) => rt.memory.max_size matches Some(limit) && limit == pages * 65536,
                None => rt.memory.max_size is None,
            }
            &&& rt.globals.len() == 0
            &&& rt.resolver == config.resolver
            &&& rt.debug_print_hook is None
        }),
{
}

/// What a view, a result and a step tell is what they are made of.
pub proof fn law_views<R: NativeResolver>(
    params: Vec<ValType>,
    results: Vec<ValType>,
    name: String,
    field: String,
    target: NativeTarget<R::Entry, R::Hook>,
    machine: Machine<R>,
    ip: usize,
    result: ExecuteResult<Option<Value>>,
)
    ensures
        Type::Func(params, results)@.params == params@,
        Type::Func(params, results)@.results == results@,
        NativeFunction::<R::Entry, R::Hook>::Uninitialized(name, field)@ == Link::<
            R::Entry,
            R::Hook,
        >::Unresolved(name@, field@),
        NativeFunction::<R::Entry, R::Hook>::Ready(target)@ == Link::<
            R::Entry,
            R::Hook,
        >::Resolved(target),
        Step::Continue(ip).leaving(machine) == Next::Continue(Config { machine, ip: ip as nat }),
        result matches Ok(value) ==> {
            &&& outcome(result) == Ok::<Option<Value>, ErrorView>(value)
            &&& Step::Done(result).leaving(machine) == Next::Done(machine, Ok(value))
        },
        result matches Err(error) ==> {
            &&& outcome(result) == Err::<Option<Value>, ErrorView>(error@)
            &&& Step::Done(result).leaving(machine) == Next::Done(machine, Err(error@))
        },
{
}

/// Errors are seen as what they are.
pub proof fn law_error_views(
    message: String,
    idx: usize,
    addr: u32,
    len: u32,
    expected: Type,
    actual: Type,
)
    ensures
        ExecuteError::Custom(message)@ == ErrorView::Custom(message@),
        ExecuteError::OperandStackUnderflow@ == ErrorView::OperandStackUnderflow,
        ExecuteError::NotImplemented@ == ErrorView::NotImplemented,
        ExecuteError::TableIndexOutOfBound@ == ErrorView::TableIndexOutOfBound,
        ExecuteError::TypeIdxIndexOufOfBound@ == ErrorView::TypeIdxIndexOufOfBound,
        ExecuteError::FunctionIndexOutOfBound@ == ErrorView::FunctionIndexOutOfBound,
        ExecuteError::OpcodeIndexOutOfBound@ == ErrorView::OpcodeIndexOutOfBound,
        ExecuteError::FrameIndexOutOfBound@ == ErrorView::FrameIndexOutOfBound,
        ExecuteError::LocalIndexOutOfBound(idx)@ == ErrorView::LocalIndexOutOfBound(idx),
        ExecuteError::GlobalIndexOutOfBound@ == ErrorView::GlobalIndexOutOfBound,
        ExecuteError::UnreachableExecuted@ == ErrorView::UnreachableExecuted,
        ExecuteError::AddrOutOfBound(addr, len)@ == ErrorView::AddrOutOfBound(addr, len),
        ExecuteError::TypeMismatch@ == ErrorView::TypeMismatch,
        ExecuteError::ValueTypeMismatch@ == ErrorView::ValueTypeMismatch,
        ExecuteError::ReturnTypeMismatch@ == ErrorView::ReturnTypeMismatch,
        ExecuteError::UndefinedTableEntry@ == ErrorView::UndefinedTableEntry,
        ExecuteError::FunctionNotFound@ == ErrorView::FunctionNotFound,
        ExecuteError::ExportEntryNotFound@ == ErrorView::ExportEntryNotFound,
        ExecuteError::InvalidMemoryOperation@ == ErrorView::InvalidMemoryOperation,
        ExecuteError::FloatingPointException@ == ErrorView::FloatingPointException,
        ExecuteError::IndirectCallTypeMismatch(idx, expected, actual)@
            == ErrorView::IndirectCallTypeMismatch(idx, expected@, actual@),
{
}

} // verus!
