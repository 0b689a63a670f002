//! What the instructions do that direct a function, its variables and its memory.
use vstd::prelude::*;

use crate::error::ErrorView;
use crate::frame::FrameState;
use crate::laws::access::{memory_after, memory_of, writes};
use crate::laws::steps::{
    answer, comes_to, goes_on, is_i32, lemma_local, no_i32, stack, stops, with_stack,
};
use crate::machine::{may_step, Config, Machine, Next};
use crate::module::Module;
use crate::native::{index_of, NativeResolver};
use crate::opcode::Opcode;
use crate::runtime::RuntimeState;
use crate::semantics::{copied, read_copy};
use crate::value::Value;

verus! {

/// An integer operand as an index: the sign is kept, so that a negative number is
/// beyond every length that fits.
pub proof fn law_index_reading(v: i32)
    ensures
        index_of(v) == v as usize,
        v >= 0 ==> index_of(v) == v,
        v < 0 ==> index_of(v) == usize::MAX + 1 + v,
{
    let max = usize::MAX;
    assert(max <= !0usize && (v >= 0 ==> v as usize == v) && (v < 0 ==> v as usize == v + (!0usize)
        + 1)) by (bit_vector);
}

/// Nothing but the operands of the running function is touched by an instruction
/// that leaves them as they are.
proof fn lemma_same_stack<R: NativeResolver>(config: Config<R>)
    requires
        config.machine.frames.len() > 0,
    ensures
        with_stack(config, stack(config)) == config.machine,
{
    let top = config.machine.frames.len() - 1;
    let frames = config.machine.frames;
    assert(frames.update(top, FrameState { operands: stack(config), ..frames[top] }) =~= frames);
}

/// A runtime is what it is made of.
proof fn lemma_same_runtime<R: NativeResolver>(config: Config<R>)
    ensures
        ({
            let runtime = config.machine.runtime;
            (RuntimeState { memory: runtime.memory, globals: runtime.globals, ..runtime })
                == runtime
        }),
{
}

// Direction.

/// `Drop` removes the operand on top, `Nop` does nothing, and the constants of
/// floating-point numbers are pushed with the bits that they have.
pub proof fn law_simple_instructions<R: NativeResolver>(
    module: Module,
    depth: nat,
    config: Config<R>,
    next: Next<R>,
    op: Opcode,
)
    requires
        comes_to(module, config, op),
        may_step(module, depth, config, next),
    ensures
        op is Drop && stack(config).len() > 0 ==> goes_on(
            config,
            next,
            stack(config).subrange(0, stack(config).len() - 1),
            config.ip + 1,
        ),
        op is Drop && stack(config).len() == 0 ==> stops(
            config,
            next,
            Seq::empty(),
            ErrorView::OperandStackUnderflow,
        ),
        op is Nop ==> goes_on(config, next, stack(config), config.ip + 1),
        op matches Opcode::F32Const(bits) ==> goes_on(
            config,
            next,
            stack(config).push(Value::F32(bits)),
            config.ip + 1,
        ),
        op matches Opcode::F64Const(bits) ==> goes_on(
            config,
            next,
            stack(config).push(Value::F64(bits)),
            config.ip + 1,
        ),
        op is Unreachable ==> stops(config, next, stack(config), ErrorView::UnreachableExecuted),
        op matches Opcode::NotImplemented(what) ==> stops(
            config,
            next,
            stack(config),
            ErrorView::Custom("Not implemented: "@ + what@),
        ),
{
    if op is Drop || op is Nop || op is F32Const || op is F64Const || op is Unreachable
        || op is NotImplemented {
        lemma_local(module, depth, config, next, op);
        lemma_same_stack(config);
        lemma_same_runtime(config);
        if stack(config).len() == 0 {
            assert(stack(config) =~= Seq::empty());
        }
    }
}

/// `Select` takes a condition from the top and two values below it. It leaves the
/// lower value if the condition is not zero, and the upper one if it is.
pub proof fn law_select<R: NativeResolver>(
    module: Module,
    depth: nat,
    config: Config<R>,
    next: Next<R>,
    rest: Seq<Value>,
    lower: Value,
    upper: Value,
    condition: Value,
    v: i32,
)
    requires
        comes_to(module, config, Opcode::Select),
        may_step(module, depth, config, next),
        stack(config) == rest.push(lower).push(upper).push(condition),
        is_i32(condition, v),
    ensures
        v != 0 ==> goes_on(config, next, rest.push(lower), config.ip + 1),
        v == 0 ==> goes_on(config, next, rest.push(upper), config.ip + 1),
{
    lemma_local(module, depth, config, next, Opcode::Select);
    lemma_same_runtime(config);
    let operands = stack(config);
    assert(operands.drop_last() =~= rest.push(lower).push(upper));
    assert(operands.drop_last().take(operands.len() - 3) =~= rest);
}

/// `Jmp` goes to its target. `JmpIf` does so if its operand is not zero, and goes on
/// otherwise. `JmpEither` has a target for every operand but zero and one for zero.
/// `JmpTable` has a target for each of the first indices and one for all others.
pub proof fn law_jumps<R: NativeResolver>(
    module: Module,
    depth: nat,
    config: Config<R>,
    next: Next<R>,
    op: Opcode,
    rest: Seq<Value>,
    x: Value,
    v: i32,
)
    requires
        comes_to(module, config, op),
        may_step(module, depth, config, next),
        stack(config) == rest.push(x),
        is_i32(x, v),
    ensures
        op matches Opcode::JmpIf(target) ==> {
            &&& v != 0 ==> goes_on(config, next, rest, target as nat)
            &&& v == 0 ==> goes_on(config, next, rest, config.ip + 1)
        },
        op matches Opcode::JmpEither(if_true, if_false) ==> {
            &&& v != 0 ==> goes_on(config, next, rest, if_true as nat)
            &&& v == 0 ==> goes_on(config, next, rest, if_false as nat)
        },
        op matches Opcode::JmpTable(table, otherwise) ==> {
            &&& (v as usize) < table@.len() ==> goes_on(
                config,
                next,
                rest,
                table@[(v as usize) as int] as nat,
            )
            &&& (v as usize) >= table@.len() ==> goes_on(config, next, rest, otherwise as nat)
            &&& 0 <= v < table@.len() ==> goes_on(config, next, rest, table@[v as int] as nat)
        },
{
    law_index_reading(v);
    if op is JmpIf || op is JmpEither || op is JmpTable {
        lemma_local(module, depth, config, next, op);
        lemma_same_runtime(config);
        assert(stack(config).drop_last() =~= rest);
    }
}

/// `Jmp` goes to its target and leaves all operands.
pub proof fn law_jmp<R: NativeResolver>(
    module: Module,
    depth: nat,
    config: Config<R>,
    next: Next<R>,
    target: u32,
)
    requires
        comes_to(module, config, Opcode::Jmp(target)),
        may_step(module, depth, config, next),
    ensures
        goes_on(config, next, stack(config), target as nat),
{
    lemma_local(module, depth, config, next, Opcode::Jmp(target));
    lemma_same_stack(config);
    lemma_same_runtime(config);
}

/// The instructions that read an integer from the top first: without an operand, and
/// with one that is no 32-bit integer.
pub proof fn law_condition_operands<R: NativeResolver>(
    module: Module,
    depth: nat,
    config: Config<R>,
    next: Next<R>,
    op: Opcode,
)
    requires
        comes_to(module, config, op),
        may_step(module, depth, config, next),
        op is JmpIf || op is JmpEither || op is JmpTable || op is Select || op is GrowMemory
            || op is Memcpy,
    ensures
        stack(config).len() == 0 ==> stops(
            config,
            next,
            Seq::empty(),
            ErrorView::OperandStackUnderflow,
        ),
        stack(config).len() > 0 && no_i32(stack(config)[stack(config).len() - 1]) ==> stops(
            config,
            next,
            stack(config).subrange(0, stack(config).len() - 1),
            ErrorView::ValueTypeMismatch,
        ),
        op is Select && 0 < stack(config).len() < 3 && !no_i32(
            stack(config)[stack(config).len() - 1],
        ) ==> stops(config, next, Seq::empty(), ErrorView::OperandStackUnderflow),
{
    lemma_local(module, depth, config, next, op);
    lemma_same_runtime(config);
    if stack(config).len() == 0 {
        assert(stack(config) =~= Seq::empty());
    }
}

// Variables.

/// Whether a step leaves these operands and these locals in the running function and
/// goes on behind its instruction, with everything else as it was.
pub open spec fn sets_locals<R: NativeResolver>(
    config: Config<R>,
    next: Next<R>,
    operands: Seq<Value>,
    locals: Seq<Value>,
) -> bool {
    let top = config.machine.frames.len() - 1;
    next == Next::Continue(
        Config {
            machine: Machine {
                frames: config.machine.frames.update(
                    top,
                    FrameState { operands, locals, ..config.machine.frames[top] },
                ),
                ..config.machine
            },
            ip: config.ip + 1,
        },
    )
}

/// The locals of the running function.
pub open spec fn locals_of<R: NativeResolver>(config: Config<R>) -> Seq<Value> {
    config.machine.frames[config.machine.frames.len() - 1].locals
}

/// The locals of the running function after a step that goes on.
pub open spec fn locals_after<R: NativeResolver>(next: Next<R>) -> Seq<Value> {
    locals_of(next->Continue_0)
}

/// Whether one of several variables has a new value and the others have the old ones.
pub open spec fn sets_one(before: Seq<Value>, after: Seq<Value>, idx: int, value: Value) -> bool {
    &&& after.len() == before.len()
    &&& after[idx] == value
    &&& forall|i: int| 0 <= i < before.len() && i != idx ==> #[trigger] after[i] == before[i]
}

/// `GetLocal` pushes the value of its local. `SetLocal` gives the operand on top to
/// its local and removes it; `TeeLocal` keeps it. No other local changes.
pub proof fn law_local_instructions<R: NativeResolver>(
    module: Module,
    depth: nat,
    config: Config<R>,
    next: Next<R>,
    op: Opcode,
)
    requires
        comes_to(module, config, op),
        may_step(module, depth, config, next),
    ensures
        op matches Opcode::GetLocal(idx) ==> {
            &&& idx < locals_of(config).len() ==> goes_on(
                config,
                next,
                stack(config).push(locals_of(config)[idx as int]),
                config.ip + 1,
            )
            &&& idx >= locals_of(config).len() ==> stops(
                config,
                next,
                stack(config),
                ErrorView::LocalIndexOutOfBound(idx as usize),
            )
        },
        op matches Opcode::SetLocal(idx) ==> {
            let operands = stack(config);
            let left = operands.subrange(0, operands.len() - 1);
            &&& operands.len() == 0 ==> stops(
                config,
                next,
                Seq::empty(),
                ErrorView::OperandStackUnderflow,
            )
            &&& operands.len() > 0 && idx >= locals_of(config).len() ==> stops(
                config,
                next,
                left,
                ErrorView::LocalIndexOutOfBound(idx as usize),
            )
            &&& operands.len() > 0 && idx < locals_of(config).len() ==> {
                &&& sets_locals(config, next, left, locals_after(next))
                &&& sets_one(
                    locals_of(config),
                    locals_after(next),
                    idx as int,
                    operands[operands.len() - 1],
                )
            }
        },
        op matches Opcode::TeeLocal(idx) ==> {
            let operands = stack(config);
            &&& operands.len() == 0 ==> stops(
                config,
                next,
                Seq::empty(),
                ErrorView::OperandStackUnderflow,
            )
            &&& operands.len() > 0 && idx >= locals_of(config).len() ==> stops(
                config,
                next,
                operands,
                ErrorView::LocalIndexOutOfBound(idx as usize),
            )
            &&& operands.len() > 0 && idx < locals_of(config).len() ==> {
                &&& sets_locals(config, next, operands, locals_after(next))
                &&& sets_one(
                    locals_of(config),
                    locals_after(next),
                    idx as int,
                    operands[operands.len() - 1],
                )
            }
        },
{
    if op is GetLocal || op is SetLocal || op is TeeLocal {
        lemma_local(module, depth, config, next, op);
        lemma_same_stack(config);
        lemma_same_runtime(config);
        if stack(config).len() == 0 {
            assert(stack(config) =~= Seq::empty());
        }
    }
}

/// Whether a step leaves these operands and these globals and goes on behind its
/// instruction, with everything else as it was.
pub open spec fn sets_globals<R: NativeResolver>(
    config: Config<R>,
    next: Next<R>,
    operands: Seq<Value>,
    globals: Seq<Value>,
) -> bool {
    next == Next::Continue(
        Config {
            machine: Machine {
                runtime: RuntimeState { globals, ..config.machine.runtime },
                ..with_stack(config, operands)
            },
            ip: config.ip + 1,
        },
    )
}

/// `GetGlobal` pushes the value of its global. `SetGlobal` gives the operand on top to
/// its global and removes it. No other global changes.
pub proof fn law_global_instructions<R: NativeResolver>(
    module: Module,
    depth: nat,
    config: Config<R>,
    next: Next<R>,
    op: Opcode,
)
    requires
        comes_to(module, config, op),
        may_step(module, depth, config, next),
    ensures
        op matches Opcode::GetGlobal(idx) ==> {
            let globals = config.machine.runtime.globals;
            &&& idx < globals.len() ==> goes_on(
                config,
                next,
                stack(config).push(globals[idx as int]),
                config.ip + 1,
            )
            &&& idx >= globals.len() ==> stops(
                config,
                next,
                stack(config),
                ErrorView::GlobalIndexOutOfBound,
            )
        },
        op matches Opcode::SetGlobal(idx) ==> {
            let globals = config.machine.runtime.globals;
            let after = next->Continue_0.machine.runtime.globals;
            let operands = stack(config);
            &&& idx >= globals.len() ==> stops(
                config,
                next,
                operands,
                ErrorView::GlobalIndexOutOfBound,
            )
            &&& idx < globals.len() && operands.len() == 0 ==> stops(
                config,
                next,
                Seq::empty(),
                ErrorView::OperandStackUnderflow,
            )
            &&& idx < globals.len() && operands.len() > 0 ==> {
                &&& sets_globals(config, next, operands.subrange(0, operands.len() - 1), after)
                &&& sets_one(globals, after, idx as int, operands[operands.len() - 1])
            }
        },
{
    if op is GetGlobal || op is SetGlobal {
        lemma_local(module, depth, config, next, op);
        lemma_same_stack(config);
        lemma_same_runtime(config);
        if stack(config).len() == 0 {
            assert(stack(config) =~= Seq::empty());
        }
    }
}

// Memory as a whole.

/// `CurrentMemory` pushes the number of whole pages of 65536 bytes.
pub proof fn law_current_memory<R: NativeResolver>(
    module: Module,
    depth: nat,
    config: Config<R>,
    next: Next<R>,
)
    requires
        comes_to(module, config, Opcode::CurrentMemory),
        may_step(module, depth, config, next),
        memory_of(config).len() < 65536 * 0x8000_0000,
    ensures
        goes_on(config, next, stack(config).push(answer(next)), config.ip + 1),
        answer(next) matches Value::I32(pages) && 65536 * pages <= memory_of(config).len() < 65536
            * pages + 65536,
{
    lemma_local(module, depth, config, next, Opcode::CurrentMemory);
    lemma_same_runtime(config);
}

/// `GrowMemory` adds as many pages of zeros as its operand asks for, and answers with
/// the number of pages before. It answers with minus one, and adds nothing, if it is
/// asked for no page or for more than 16384, or if memory would become larger than it
/// may be or than an address can tell.
pub proof fn law_grow_memory<R: NativeResolver>(
    module: Module,
    depth: nat,
    config: Config<R>,
    next: Next<R>,
    rest: Seq<Value>,
    x: Value,
    n: i32,
)
    requires
        comes_to(module, config, Opcode::GrowMemory),
        may_step(module, depth, config, next),
        stack(config) == rest.push(x),
        is_i32(x, n),
        memory_of(config).len() < 65536 * 0x8000_0000,
    ensures
        ({
            let len = memory_of(config).len();
            let limit = config.machine.runtime.memory.max_size;
            let granted = 0 < n <= 16384 && len + 65536 * n <= usize::MAX && (
            limit matches Some(most) ==> len + 65536 * n <= most);
            let refusal = Value::I32((-1) as i32);
            &&& !granted ==> goes_on(config, next, rest.push(refusal), config.ip + 1)
            &&& granted ==> {
                let after = memory_after(next);
                &&& writes(config, next, rest.push(answer(next)), after)
                &&& answer(next) matches Value::I32(pages) && 65536 * pages <= len < 65536 * pages
                    + 65536
                &&& after.len() == len + 65536 * n
                &&& forall|i: int| 0 <= i < len ==> #[trigger] after[i] == memory_of(config)[i]
                &&& forall|i: int| len <= i < len + 65536 * n ==> #[trigger] after[i] == 0
            }
        }),
{
    lemma_local(module, depth, config, next, Opcode::GrowMemory);
    lemma_same_runtime(config);
    assert(stack(config).drop_last() =~= rest);
}

/// The bytes of a copy, one by one: where a byte to be copied lies in the part of the
/// destination that is already written, it is the byte written there.
proof fn lemma_copied(memory: Seq<u8>, dest: int, src: int, n: nat)
    requires
        0 <= dest,
        0 <= src,
        dest + n <= memory.len(),
        src + n <= memory.len(),
    ensures
        ({
            let after = copied(memory, dest, src, n);
            &&& after.len() == memory.len()
            &&& forall|i: int|
                #![trigger after[i]]
                0 <= i < memory.len() && !(dest <= i < dest + n) ==> after[i] == memory[i]
            &&& forall|i: int|
                #![trigger after[dest + i]]
                0 <= i < n ==> after[dest + i] == (if dest <= src + i < dest + i {
                    after[src + i]
                } else {
                    memory[src + i]
                })
        }),
    decreases n,
{
    if n > 0 {
        let less = (n - 1) as nat;
        lemma_copied(memory, dest, src, less);
        let before = copied(memory, dest, src, less);
        let after = copied(memory, dest, src, n);
        assert(after == before.update(dest + less, before[src + less]));
        assert forall|i: int| #![trigger after[dest + i]] 0 <= i < n implies after[dest + i] == (
        if dest <= src + i < dest + i {
            after[src + i]
        } else {
            memory[src + i]
        }) by {
            if i < less {
                assert(before[dest + i] == after[dest + i]);
                assert(before[dest + i] == (if dest <= src + i < dest + i {
                    before[src + i]
                } else {
                    memory[src + i]
                }));
            } else if dest <= src + i < dest + i {
                assert(after[src + i] == before[src + i]);
            } else {
                assert(before[src + i] == memory[src + i]);
            }
        }
    }
}

/// `Memcpy` takes a length from the top, a source below it and a destination below
/// that. It copies so many bytes, the lowest first, and touches no others. It is
/// refused if the destination, or the source, does not end before the last byte of
/// memory.
pub proof fn law_memcpy<R: NativeResolver>(
    module: Module,
    depth: nat,
    config: Config<R>,
    next: Next<R>,
    rest: Seq<Value>,
    x: Value,
    y: Value,
    z: Value,
    dest: i32,
    src: i32,
    n: i32,
)
    requires
        comes_to(module, config, Opcode::Memcpy),
        may_step(module, depth, config, next),
        stack(config) == rest.push(x).push(y).push(z),
        is_i32(x, dest),
        is_i32(y, src),
        is_i32(z, n),
    ensures
        ({
            let before = memory_of(config);
            let after = memory_after(next);
            let d = (dest as usize) as int;
            let s = (src as usize) as int;
            let len = (n as usize) as int;
            if d + len >= before.len() {
                stops(config, next, rest, ErrorView::AddrOutOfBound(dest as u32, n as u32))
            } else if s + len >= before.len() {
                stops(config, next, rest, ErrorView::AddrOutOfBound(src as u32, n as u32))
            } else {
                &&& writes(config, next, rest, after)
                &&& after.len() == before.len()
                &&& forall|i: int|
                    #![trigger after[i]]
                    0 <= i < before.len() && !(d <= i < d + len) ==> after[i] == before[i]
                &&& forall|i: int|
                    #![trigger after[d + i]]
                    0 <= i < len ==> after[d + i] == (if d <= s + i < d + i {
                        after[s + i]
                    } else {
                        before[s + i]
                    })
            }
        }),
{
    law_index_reading(dest);
    law_index_reading(src);
    law_index_reading(n);
    crate::laws::integers::law_readings_32(dest, 0);
    crate::laws::integers::law_readings_32(src, 0);
    crate::laws::integers::law_readings_32(n, 0);
    lemma_local(module, depth, config, next, Opcode::Memcpy);
    lemma_same_runtime(config);
    let operands = stack(config);
    assert(operands.drop_last() =~= rest.push(x).push(y));
    assert(rest.push(x).push(y).drop_last() =~= rest.push(x));
    assert(rest.push(x).drop_last() =~= rest);
    assert(read_copy(operands) == (rest, Ok::<(i32, i32, i32), ErrorView>((n, src, dest))));
    let bytes = memory_of(config);
    if index_of(dest) + index_of(n) < bytes.len() && index_of(src) + index_of(n) < bytes.len() {
        lemma_copied(bytes, index_of(dest) as int, index_of(src) as int, index_of(n));
    }
}

/// `Memcpy` without one of its operands, or with one of another type, takes those
/// above it and fails.
pub proof fn law_memcpy_operands<R: NativeResolver>(
    module: Module,
    depth: nat,
    config: Config<R>,
    next: Next<R>,
)
    requires
        comes_to(module, config, Opcode::Memcpy),
        may_step(module, depth, config, next),
    ensures
        ({
            let operands = stack(config);
            let len = operands.len();
            &&& len > 0 && !no_i32(operands[len - 1]) ==> {
                &&& len == 1 ==> stops(config, next, Seq::empty(), ErrorView::OperandStackUnderflow)
                &&& len > 1 && no_i32(operands[len - 2]) ==> stops(
                    config,
                    next,
                    operands.subrange(0, len - 2),
                    ErrorView::ValueTypeMismatch,
                )
                &&& len > 1 && !no_i32(operands[len - 2]) ==> {
                    &&& len == 2 ==> stops(
                        config,
                        next,
                        Seq::empty(),
                        ErrorView::OperandStackUnderflow,
                    )
                    &&& len > 2 && no_i32(operands[len - 3]) ==> stops(
                        config,
                        next,
                        operands.subrange(0, len - 3),
                        ErrorView::ValueTypeMismatch,
                    )
                }
            }
        }),
{
    lemma_local(module, depth, config, next, Opcode::Memcpy);
    lemma_same_runtime(config);
    let operands = stack(config);
    let len = operands.len();
    if len > 0 {
        let one = operands.drop_last();
        assert(one =~= operands.subrange(0, len - 1));
        if len == 1 {
            assert(one =~= Seq::empty());
        } else {
            let two = one.drop_last();
            assert(two =~= operands.subrange(0, len - 2));
            if len == 2 {
                assert(two =~= Seq::empty());
            } else {
                assert(two.drop_last() =~= operands.subrange(0, len - 3));
            }
        }
    }
}

} // verus!
