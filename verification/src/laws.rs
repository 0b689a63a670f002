//! What holds of programs as a whole.
//!
//! * [`steps`] has the words in which single instructions are spoken of.
//! * [`integers`], [`floats`], [`access`] and [`flow`] say what instructions compute,
//!   load and store, and where they lead.
//! * [`calls`] and [`natives`] say what calls and returns do.
//! * [`setup`] says what machines and runs start with and how runs go on.
use vstd::prelude::*;
use vstd::utf8::{encode_utf8, encode_utf8_decode_utf8, encode_utf8_valid_utf8};

use crate::error::{outcome, ErrorView};
use crate::executor::{may_halt, Execution};
use crate::frame::FrameState;
use crate::int_ops::{
    accessed, accessible, byte_range, divisible_32, divisible_64, effective_address, i32_loaded,
    i32_stored, i64_loaded, i64_stored, le_bytes, le_value, lemma_byte_range, lemma_le_bytes_len,
    lemma_quotient_bounds, lemma_remainder_bounds, loaded_s, loaded_u, overwritten, places_32,
    places_64, quotient, remainder, rotated_left_32, rotated_left_64, rotated_right_32,
    rotated_right_64, sign_extended, signed_32, signed_64, spec_i32_add, spec_i32_div_s,
    spec_i32_div_u, spec_i32_rem_s, spec_i32_rem_u, spec_i32_rotl, spec_i32_rotr, spec_i32_sub,
    spec_i64_add, spec_i64_div_s, spec_i64_div_u, spec_i64_rem_s, spec_i64_rem_u, spec_i64_rotl,
    spec_i64_rotr, spec_i64_sub, stored, unsigned_32, unsigned_64,
};
use crate::machine::{
    call, computed, ends_within, entry, fetch, initialized, may_continue, may_end, may_execute,
    may_step, reaches, return_from, run_plain, segment_fits, signature, stuck, Config, Machine,
    NativeState, Next,
};
use crate::memory::{page_count, MemoryState, PAGE_SIZE};
use crate::module::{DataSegment, Module};
use crate::native::{
    index_of, is_builtin, linked, may_invoke, printed, Link, NativeEntry, NativeResolver,
    NativeTarget,
};
use crate::opcode::{Memarg, Opcode};
use crate::runtime::{shown_by, DebugPrint, RuntimeState};
use crate::semantics::{copied, local_effect, read_copy, storing, Scope};
use crate::value::Value;

pub mod access;
pub mod calls;
pub mod flow;
pub mod floats;
pub mod integers;
pub mod natives;
pub mod setup;
pub mod steps;

verus! {

// Runs.

/// The last step of a run of `n` steps.
proof fn lemma_step_before<R: NativeResolver>(
    module: Module,
    depth: nat,
    from: Config<R>,
    n: nat,
    to: Config<R>,
) -> (mid: Config<R>)
    requires
        n > 0,
        reaches(module, depth, from, n, to),
    ensures
        reaches(module, depth, from, (n - 1) as nat, mid),
        may_continue(module, depth, mid, to),
{
    choose|mid: Config<R>|
        {
            &&& reaches(module, depth, from, (n - 1) as nat, mid)
            &&& #[trigger] may_continue(module, depth, mid, to)
        }
}

/// The step that ends a run, with the number of steps before it.
proof fn lemma_last_step<R: NativeResolver>(
    module: Module,
    depth: nat,
    from: Config<R>,
    after: Machine<R>,
    result: Result<Option<Value>, ErrorView>,
) -> (end: (nat, Config<R>))
    requires
        may_end(module, depth, from, after, result),
    ensures
        reaches(module, depth, from, end.0, end.1),
        !stuck(module, end.1),
        may_step(module, depth, end.1, Next::Done(after, result)),
{
    choose|n: nat, last: Config<R>|
        {
            &&& #[trigger] reaches(module, depth, from, n, last)
            &&& !stuck(module, last)
            &&& may_step(module, depth, last, Next::Done(after, result))
        }
}

/// A step of a run leaves the frames below the run as they are, and keeps the
/// frames of the run in order. A run that ends with a value has removed all its
/// frames.
#[verifier::rlimit(40)]
#[verifier::spinoff_prover]
pub proof fn law_step_keeps_stack<R: NativeResolver>(
    module: Module,
    depth: nat,
    config: Config<R>,
    next: Next<R>,
)
    requires
        config.machine.belongs_to(module),
        config.machine.runs_above(depth),
        may_step(module, depth, config, next),
    ensures
        match next {
            Next::Continue(after) => {
                &&& after.machine.belongs_to(module)
                &&& after.machine.runs_above(depth)
                &&& after.machine.frames.take(depth as int) == config.machine.frames.take(
                    depth as int,
                )
            },
            Next::Done(after, result) => {
                &&& after.belongs_to(module)
                &&& after.frames.len() >= depth
                &&& after.frames.take(depth as int) == config.machine.frames.take(depth as int)
                &&& result is Ok ==> after.frames.len() == depth
            },
        },
{
}

/// However many steps a run takes, the frames below it stay as they are.
pub proof fn law_run_keeps_stack<R: NativeResolver>(
    module: Module,
    depth: nat,
    from: Config<R>,
    n: nat,
    to: Config<R>,
)
    requires
        from.machine.belongs_to(module),
        from.machine.runs_above(depth),
        reaches(module, depth, from, n, to),
    ensures
        to.machine.belongs_to(module),
        to.machine.runs_above(depth),
        to.machine.frames.take(depth as int) == from.machine.frames.take(depth as int),
    decreases n,
{
    if n > 0 {
        let mid = lemma_step_before(module, depth, from, n, to);
        law_run_keeps_stack(module, depth, from, (n - 1) as nat, mid);
        law_step_keeps_stack(module, depth, mid, Next::Continue(to));
    }
}

/// Whether the functions of the host always do the same on the same input, and
/// names always stand for the same functions.
pub open spec fn host_is_functional<R: NativeResolver>() -> bool {
    &&& forall|
        entry: R::Entry,
        before: RuntimeState<R, R::Hook>,
        args: Seq<Value>,
        after1: RuntimeState<R, R::Hook>,
        result1: Result<Option<Value>, ErrorView>,
        after2: RuntimeState<R, R::Hook>,
        result2: Result<Option<Value>, ErrorView>,
    |
        #[trigger] entry.allows(before, args, after1, result1) && #[trigger] entry.allows(
            before,
            args,
            after2,
            result2,
        ) ==> after1 == after2 && result1 == result2
    &&& forall|
        resolver: R,
        module: Seq<char>,
        field: Seq<char>,
        entry1: Option<R::Entry>,
        entry2: Option<R::Entry>,
    |
        #[trigger] resolver.offers(module, field, entry1) && #[trigger] resolver.offers(
            module,
            field,
            entry2,
        ) ==> entry1 == entry2
}

/// Whether nothing of what a machine does is left to the choice of the host.
pub open spec fn self_contained<R: NativeResolver>(machine: Machine<R>) -> bool {
    machine.natives.len() == 0 || host_is_functional::<R>()
}

/// A step of a machine that leaves nothing to the host has one outcome only.
#[verifier::rlimit(40)]
#[verifier::spinoff_prover]
pub proof fn law_step_is_deterministic<R: NativeResolver>(
    module: Module,
    depth: nat,
    config: Config<R>,
    next1: Next<R>,
    next2: Next<R>,
)
    requires
        self_contained(config.machine),
        may_step(module, depth, config, next1),
        may_step(module, depth, config, next2),
    ensures
        next1 == next2,
        next1 matches Next::Continue(after) ==> self_contained(after.machine),
{
}

/// The configuration that a run has come to after a number of steps is the only
/// one, if nothing is left to the host.
pub proof fn law_run_is_deterministic<R: NativeResolver>(
    module: Module,
    depth: nat,
    from: Config<R>,
    n: nat,
    to1: Config<R>,
    to2: Config<R>,
)
    requires
        self_contained(from.machine),
        reaches(module, depth, from, n, to1),
        reaches(module, depth, from, n, to2),
    ensures
        to1 == to2,
        self_contained(to1.machine),
    decreases n,
{
    if n > 0 {
        let mid1 = lemma_step_before(module, depth, from, n, to1);
        let mid2 = lemma_step_before(module, depth, from, n, to2);
        law_run_is_deterministic(module, depth, from, (n - 1) as nat, mid1, mid2);
        law_step_is_deterministic(
            module,
            depth,
            mid1,
            Next::Continue(to1),
            Next::Continue(to2),
        );
    }
}

/// A run of `n` steps goes through configurations after fewer steps, and does not
/// stop at them.
proof fn lemma_run_passes<R: NativeResolver>(
    module: Module,
    depth: nat,
    from: Config<R>,
    k: nat,
    n: nat,
    to: Config<R>,
) -> (mid: (Config<R>, Config<R>))
    requires
        k < n,
        reaches(module, depth, from, n, to),
    ensures
        reaches(module, depth, from, k, mid.0),
        may_continue(module, depth, mid.0, mid.1),
    decreases n,
{
    let last = lemma_step_before(module, depth, from, n, to);
    if k == n - 1 {
        (last, to)
    } else {
        lemma_run_passes(module, depth, from, k, (n - 1) as nat, last)
    }
}

/// A run has one end only, if nothing is left to the host.
proof fn lemma_one_end<R: NativeResolver>(
    module: Module,
    depth: nat,
    from: Config<R>,
    after1: Machine<R>,
    result1: Result<Option<Value>, ErrorView>,
    after2: Machine<R>,
    result2: Result<Option<Value>, ErrorView>,
)
    requires
        self_contained(from.machine),
        may_end(module, depth, from, after1, result1),
        may_end(module, depth, from, after2, result2),
    ensures
        after1 == after2,
        result1 == result2,
{
    let (n1, last1) = lemma_last_step(module, depth, from, after1, result1);
    let (n2, last2) = lemma_last_step(module, depth, from, after2, result2);
    if n1 < n2 {
        let (mid, after) = lemma_run_passes(module, depth, from, n1, n2, last2);
        law_run_is_deterministic(module, depth, from, n1, mid, last1);
        law_step_is_deterministic(
            module,
            depth,
            mid,
            Next::Continue(after),
            Next::Done(after1, result1),
        );
    } else if n2 < n1 {
        let (mid, after) = lemma_run_passes(module, depth, from, n2, n1, last1);
        law_run_is_deterministic(module, depth, from, n2, mid, last2);
        law_step_is_deterministic(
            module,
            depth,
            mid,
            Next::Continue(after),
            Next::Done(after2, result2),
        );
    } else {
        law_run_is_deterministic(module, depth, from, n1, last1, last2);
        law_step_is_deterministic(
            module,
            depth,
            last1,
            Next::Done(after1, result1),
            Next::Done(after2, result2),
        );
    }
}

/// Running a function twice on the same machine gives the same result and leaves
/// the same machine, if nothing is left to the host.
pub proof fn law_execution_is_deterministic<R: NativeResolver>(
    module: Module,
    machine: Machine<R>,
    func: nat,
    args: Seq<Value>,
    after1: Machine<R>,
    result1: Result<Option<Value>, ErrorView>,
    after2: Machine<R>,
    result2: Result<Option<Value>, ErrorView>,
)
    requires
        self_contained(machine),
        may_execute(module, machine, func, args, after1, result1),
        may_execute(module, machine, func, args, after2, result2),
    ensures
        after1 == after2,
        result1 == result2,
{
    if let Ok(from) = entry(module, machine, func, args) {
        lemma_one_end(
            module,
            machine.frames.len(),
            from,
            after1,
            result1,
            after2,
            result2,
        );
    }
}

/// A run that ends within some steps ends within any greater number of steps.
pub proof fn law_more_steps_suffice<R: NativeResolver>(
    module: Module,
    depth: nat,
    config: Config<R>,
    n: nat,
    m: nat,
)
    requires
        n <= m,
        ends_within(module, depth, config, n),
    ensures
        ends_within(module, depth, config, m),
    decreases n,
{
    assert forall|next: Config<R>| #[trigger]
        may_step(module, depth, config, Next::Continue(next)) implies ends_within(
        module,
        depth,
        next,
        (m - 1) as nat,
    ) by {
        law_more_steps_suffice(module, depth, next, (n - 1) as nat, (m - 1) as nat);
    }
}

/// A run without native functions that is computed to an end does end, with what
/// was computed and nothing else.
pub proof fn law_computed_run_is_the_run<R: NativeResolver>(
    module: Module,
    depth: nat,
    from: Config<R>,
    n: nat,
    after: Machine<R>,
    result: Result<Option<Value>, ErrorView>,
)
    requires
        from.machine.natives.len() == 0,
        computed(module, depth, from, n) == Some((after, result)),
    ensures
        ends_within(module, depth, from, n),
        may_end(module, depth, from, after, result),
        forall|other: Machine<R>, other_result: Result<Option<Value>, ErrorView>| #[trigger]
            may_end(module, depth, from, other, other_result) ==> other == after && other_result
                == result,
{
    lemma_computed_ends(module, depth, from, n);
    lemma_computed_from(module, depth, from, 0, from, n);
    assert forall|other: Machine<R>, other_result: Result<Option<Value>, ErrorView>| #[trigger]
        may_end(module, depth, from, other, other_result) implies other == after && other_result
        == result by {
        lemma_one_end(module, depth, from, after, result, other, other_result);
    }
}

/// A computed run ends within its steps.
proof fn lemma_computed_ends<R: NativeResolver>(
    module: Module,
    depth: nat,
    from: Config<R>,
    n: nat,
)
    requires
        from.machine.natives.len() == 0,
        computed(module, depth, from, n) is Some,
    ensures
        ends_within(module, depth, from, n),
    decreases n,
{
    assert forall|next: Config<R>| #[trigger]
        may_step(module, depth, from, Next::Continue(next)) implies ends_within(
        module,
        depth,
        next,
        (n - 1) as nat,
    ) by {
        law_step_keeps_sizes(module, depth, from, Next::Continue(next));
        lemma_computed_ends(module, depth, next, (n - 1) as nat);
    }
}

/// What is computed from a configuration on the way of a run is an end of the run.
proof fn lemma_computed_from<R: NativeResolver>(
    module: Module,
    depth: nat,
    from: Config<R>,
    k: nat,
    at: Config<R>,
    n: nat,
)
    requires
        at.machine.natives.len() == 0,
        reaches(module, depth, from, k, at),
    ensures
        computed(module, depth, at, n) matches Some((after, result)) ==> may_end(
            module,
            depth,
            from,
            after,
            result,
        ),
    decreases n,
{
    if n > 0 && !stuck(module, at) {
        if let Ok(op) = fetch(module, at) {
            if !(op is NativeInvoke) {
                let next = run_plain(module, depth, at.machine, at.ip + 1, op);
                assert(may_step(module, depth, at, next));
                if let Next::Continue(to) = next {
                    law_step_keeps_sizes(module, depth, at, next);
                    assert(may_continue(module, depth, at, to));
                    assert(reaches(module, depth, from, k + 1, to));
                    lemma_computed_from(module, depth, from, k + 1, to, (n - 1) as nat);
                }
            } else {
                assert(may_step(
                    module,
                    depth,
                    at,
                    at.machine.fails(ErrorView::FunctionIndexOutOfBound),
                ));
            }
        } else {
            assert(may_step(module, depth, at, at.machine.fails(fetch(module, at)->Err_0)));
        }
    }
}

/// A limit on the number of steps changes nothing for a run that completes
/// within it.
pub proof fn law_limited_run_is_a_run<R: NativeResolver>(
    module: Module,
    depth: nat,
    start: Config<R>,
    limit: nat,
    after: Machine<R>,
    execution: Execution,
)
    requires
        may_halt(module, depth, start, limit, after, execution),
    ensures
        execution matches Execution::Completed(result) ==> may_end(
            module,
            depth,
            start,
            after,
            outcome(result),
        ),
{
}

/// A copy keeps the size of memory.
proof fn lemma_copied_len(memory: Seq<u8>, dest: int, src: int, n: nat)
    requires
        0 <= dest,
        dest + n <= memory.len(),
    ensures
        copied(memory, dest, src, n).len() == memory.len(),
    decreases n,
{
    if n > 0 {
        lemma_copied_len(memory, dest, src, (n - 1) as nat);
    }
}

/// A store keeps the size of memory.
proof fn lemma_storing_len(op: Opcode, operands: Seq<Value>, memory: Seq<u8>)
    ensures
        storing(op, operands, memory) matches Some((rest, Ok(bytes))) ==> bytes.len()
            == memory.len(),
{
}

/// What an instruction changes within a function has the size that it had, but
/// for memory, which may grow by whole pages.
#[verifier::rlimit(40)]
#[verifier::spinoff_prover]
proof fn lemma_local_effect_sizes(op: Opcode, s: Scope)
    ensures
        ({
            let after = local_effect(op, s).0;
            &&& after.globals.len() == s.globals.len()
            &&& after.memory.max_size == s.memory.max_size
            &&& after.memory.bytes.len() >= s.memory.bytes.len()
            &&& (after.memory.bytes.len() - s.memory.bytes.len()) % PAGE_SIZE as int == 0
            &&& s.memory.within_limit() ==> after.memory.within_limit()
        }),
{
    let operands = s.frame.operands;
    match op {
        Opcode::Memcpy => {
            if let Ok((n_bytes, src, dest)) = read_copy(operands).1 {
                if index_of(dest) + index_of(n_bytes) < s.memory.bytes.len() {
                    lemma_copied_len(
                        s.memory.bytes,
                        index_of(dest) as int,
                        index_of(src) as int,
                        index_of(n_bytes),
                    );
                }
            }
        },
        _ => {
            lemma_storing_len(op, operands, s.memory.bytes);
        },
    }
}

/// Whether a machine has the native functions, the number of globals and the limit
/// of memory that it had before, and its memory has not shrunk, has grown by whole
/// pages only, and has not outgrown its limit.
pub open spec fn sizes_kept<R: NativeResolver>(before: Machine<R>, after: Machine<R>) -> bool {
    &&& after.natives == before.natives
    &&& after.runtime.globals.len() == before.runtime.globals.len()
    &&& after.runtime.memory.max_size == before.runtime.memory.max_size
    &&& after.runtime.memory.bytes.len() >= before.runtime.memory.bytes.len()
    &&& (after.runtime.memory.bytes.len() - before.runtime.memory.bytes.len()) % PAGE_SIZE as int
        == 0
    &&& before.runtime.memory.within_limit() ==> after.runtime.memory.within_limit()
}

/// Sizes that are kept twice in a row are kept.
proof fn lemma_sizes_kept_twice<R: NativeResolver>(a: Machine<R>, b: Machine<R>, c: Machine<R>)
    requires
        sizes_kept(a, b),
        sizes_kept(b, c),
    ensures
        sizes_kept(a, c),
{
}

/// A step that calls no native function leaves the number of globals and the limit
/// of memory as they are. Memory does not shrink, grows by whole pages only, and
/// does not outgrow its limit.
#[verifier::rlimit(40)]
#[verifier::spinoff_prover]
pub proof fn law_step_keeps_sizes<R: NativeResolver>(
    module: Module,
    depth: nat,
    config: Config<R>,
    next: Next<R>,
)
    requires
        config.machine.natives.len() == 0 || !(fetch(module, config) matches Ok(
            Opcode::NativeInvoke(_),
        )),
        may_step(module, depth, config, next),
    ensures
        ({
            let before = config.machine;
            let after = match next {
                Next::Continue(after) => after.machine,
                Next::Done(after, _) => after,
            };
            sizes_kept(before, after)
        }),
{
    if let Ok(op) = fetch(module, config) {
        lemma_local_effect_sizes(
            op,
            Scope {
                frame: config.machine.top(),
                memory: config.machine.runtime.memory,
                globals: config.machine.runtime.globals,
            },
        );
    }
}

/// However many steps a machine without native functions takes, it keeps the
/// number of its globals and the limit of its memory. Its memory does not shrink,
/// grows by whole pages only, and does not outgrow its limit.
#[verifier::rlimit(40)]
#[verifier::spinoff_prover]
pub proof fn law_run_keeps_sizes<R: NativeResolver>(
    module: Module,
    depth: nat,
    from: Config<R>,
    n: nat,
    to: Config<R>,
)
    requires
        from.machine.natives.len() == 0,
        reaches(module, depth, from, n, to),
    ensures
        sizes_kept(from.machine, to.machine),
    decreases n,
{
    if n > 0 {
        let mid = lemma_step_before(module, depth, from, n, to);
        law_run_keeps_sizes(module, depth, from, (n - 1) as nat, mid);
        law_step_keeps_sizes(module, depth, mid, Next::Continue(to));
        lemma_sizes_kept_twice(from.machine, mid.machine, to.machine);
    }
}

/// Whatever a function of a machine without native functions comes to, a value or
/// an error, it leaves the number of globals and the limit of memory as they were.
/// Memory has not shrunk, has grown by whole pages only, and has not outgrown its
/// limit.
#[verifier::rlimit(40)]
#[verifier::spinoff_prover]
pub proof fn law_execution_keeps_sizes<R: NativeResolver>(
    module: Module,
    machine: Machine<R>,
    func: nat,
    args: Seq<Value>,
    after: Machine<R>,
    result: Result<Option<Value>, ErrorView>,
)
    requires
        machine.natives.len() == 0,
        may_execute(module, machine, func, args, after, result),
    ensures
        sizes_kept(machine, after),
{
    if let Ok(from) = entry(module, machine, func, args) {
        let depth = machine.frames.len();
        let (n, last) = lemma_last_step(module, depth, from, after, result);
        law_run_keeps_sizes(module, depth, from, n, last);
        law_step_keeps_sizes(module, depth, last, Next::Done(after, result));
        lemma_sizes_kept_twice(from.machine, last.machine, after);
    }
}

/// Whatever a function comes to, the frames that were there before it are still
/// there as they were. If it ends without an error, there are no others.
pub proof fn law_execution_keeps_stack<R: NativeResolver>(
    module: Module,
    machine: Machine<R>,
    func: nat,
    args: Seq<Value>,
    after: Machine<R>,
    result: Result<Option<Value>, ErrorView>,
)
    requires
        machine.belongs_to(module),
        func < module.functions@.len(),
        may_execute(module, machine, func, args, after, result),
    ensures
        after.belongs_to(module),
        machine.frames.is_prefix_of(after.frames),
        result is Ok ==> after.frames == machine.frames,
{
    if let Ok(from) = entry(module, machine, func, args) {
        let depth = machine.frames.len();
        let (n, last) = lemma_last_step(module, depth, from, after, result);
        law_run_keeps_stack(module, depth, from, n, last);
        law_step_keeps_stack(module, depth, last, Next::Done(after, result));
        assert(from.machine.frames.take(depth as int) =~= machine.frames);
        assert(after.frames.take(depth as int) == machine.frames);
        if result is Ok {
            assert(after.frames.take(depth as int) =~= after.frames);
        }
    }
}

/// Whether a frame has a local for every parameter of its function and for every
/// local that the function declares.
pub open spec fn has_its_locals(module: Module, frame: FrameState) -> bool {
    let function = module.functions@[frame.func_id as int];
    signature(module, function.typeidx as nat) matches Some(sig) && frame.locals.len()
        == sig.params.len() + function.locals@.len()
}

/// Whether all frames of a run have their locals. The run started at a stack of
/// `depth` frames.
pub open spec fn locals_in_place<R: NativeResolver>(
    module: Module,
    depth: nat,
    machine: Machine<R>,
) -> bool {
    forall|i: int|
        depth <= i < machine.frames.len() ==> has_its_locals(module, #[trigger] machine.frames[i])
}

/// An instruction that stays within its function keeps the function of the frame
/// and the number of its locals.
#[verifier::rlimit(40)]
#[verifier::spinoff_prover]
proof fn lemma_local_effect_locals(op: Opcode, s: Scope)
    ensures
        local_effect(op, s).0.frame.func_id == s.frame.func_id,
        local_effect(op, s).0.frame.locals.len() == s.frame.locals.len(),
{
}

/// A step keeps the locals of all frames of its run in place, and gives a new frame
/// its own.
#[verifier::rlimit(40)]
#[verifier::spinoff_prover]
pub proof fn law_step_keeps_locals<R: NativeResolver>(
    module: Module,
    depth: nat,
    config: Config<R>,
    next: Next<R>,
)
    requires
        config.machine.belongs_to(module),
        config.machine.runs_above(depth),
        locals_in_place(module, depth, config.machine),
        may_step(module, depth, config, next),
    ensures
        match next {
            Next::Continue(after) => locals_in_place(module, depth, after.machine),
            Next::Done(after, _) => locals_in_place(module, depth, after),
        },
{
    let before = config.machine;
    let after = match next {
        Next::Continue(after) => after.machine,
        Next::Done(after, _) => after,
    };
    if let Ok(op) = fetch(module, config) {
        lemma_local_effect_locals(
            op,
            Scope {
                frame: before.top(),
                memory: before.runtime.memory,
                globals: before.runtime.globals,
            },
        );
        assert forall|i: int| depth <= i < after.frames.len() implies has_its_locals(
            module,
            #[trigger] after.frames[i],
        ) by {
            if i < before.frames.len() {
                assert(has_its_locals(module, before.frames[i]));
                assert(after.frames[i].func_id == before.frames[i].func_id);
                assert(after.frames[i].locals.len() == before.frames[i].locals.len());
            }
        }
    }
}

/// Whatever a function does from its start on, all frames of its run have their
/// locals.
pub proof fn law_run_keeps_locals<R: NativeResolver>(
    module: Module,
    machine: Machine<R>,
    func: nat,
    args: Seq<Value>,
    from: Config<R>,
    n: nat,
    to: Config<R>,
)
    requires
        machine.belongs_to(module),
        func < module.functions@.len(),
        entry(module, machine, func, args) == Ok::<Config<R>, ErrorView>(from),
        reaches(module, machine.frames.len(), from, n, to),
    ensures
        locals_in_place(module, machine.frames.len(), to.machine),
    decreases n,
{
    if n > 0 {
        let depth = machine.frames.len();
        let mid = lemma_step_before(module, depth, from, n, to);
        law_run_keeps_locals(module, machine, func, args, from, (n - 1) as nat, mid);
        law_run_keeps_stack(module, depth, from, (n - 1) as nat, mid);
        law_step_keeps_locals(module, depth, mid, Next::Continue(to));
    }
}

/// A step keeps the function that the first frame of its run belongs to.
#[verifier::rlimit(40)]
#[verifier::spinoff_prover]
proof fn lemma_step_keeps_function<R: NativeResolver>(
    module: Module,
    depth: nat,
    config: Config<R>,
    to: Config<R>,
)
    requires
        config.machine.belongs_to(module),
        config.machine.runs_above(depth),
        may_step(module, depth, config, Next::Continue(to)),
    ensures
        to.machine.frames[depth as int].func_id == config.machine.frames[depth as int].func_id,
{
    if let Ok(op) = fetch(module, config) {
        lemma_local_effect_locals(
            op,
            Scope {
                frame: config.machine.top(),
                memory: config.machine.runtime.memory,
                globals: config.machine.runtime.globals,
            },
        );
    }
}

/// The first frame of a run belongs to the function that the run started with.
#[verifier::rlimit(40)]
#[verifier::spinoff_prover]
proof fn lemma_run_keeps_function<R: NativeResolver>(
    module: Module,
    depth: nat,
    from: Config<R>,
    n: nat,
    to: Config<R>,
)
    requires
        from.machine.belongs_to(module),
        from.machine.runs_above(depth),
        reaches(module, depth, from, n, to),
    ensures
        to.machine.runs_above(depth),
        to.machine.frames[depth as int].func_id == from.machine.frames[depth as int].func_id,
    decreases n,
{
    if n > 0 {
        let mid = lemma_step_before(module, depth, from, n, to);
        lemma_run_keeps_function(module, depth, from, (n - 1) as nat, mid);
        law_run_keeps_stack(module, depth, from, (n - 1) as nat, mid);
        law_step_keeps_stack(module, depth, mid, Next::Continue(to));
        lemma_step_keeps_function(module, depth, mid, to);
    }
}

/// A function that ends without an error gives a value if and only if its type has
/// results.
#[verifier::rlimit(40)]
#[verifier::spinoff_prover]
pub proof fn law_result_matches_type<R: NativeResolver>(
    module: Module,
    machine: Machine<R>,
    func: nat,
    args: Seq<Value>,
    after: Machine<R>,
    result: Result<Option<Value>, ErrorView>,
)
    requires
        machine.belongs_to(module),
        func < module.functions@.len(),
        may_execute(module, machine, func, args, after, result),
    ensures
        result matches Ok(value) ==> signature(
            module,
            module.functions@[func as int].typeidx as nat,
        ) matches Some(sig) && (value is Some) == (sig.results.len() > 0),
{
    if let Ok(from) = entry(module, machine, func, args) {
        let depth = machine.frames.len();
        let (n, last) = lemma_last_step(module, depth, from, after, result);
        lemma_run_keeps_function(module, depth, from, n, last);
    }
}

/// Whether a native function has the type that it had before and stands for what it
/// stood for; one that was not resolved may have been.
pub open spec fn native_kept<E, H>(before: NativeState<E, H>, after: NativeState<E, H>) -> bool {
    &&& after.typeidx == before.typeidx
    &&& after.link == before.link || before.link is Unresolved && after.link is Resolved
}

/// Whether a machine has the native functions that it had before.
pub open spec fn natives_kept<R: NativeResolver>(before: Machine<R>, after: Machine<R>) -> bool {
    &&& after.natives.len() == before.natives.len()
    &&& forall|i: int|
        #![trigger after.natives[i]]
        #![trigger before.natives[i]]
        0 <= i < before.natives.len() ==> native_kept(before.natives[i], after.natives[i])
}

/// A step neither adds nor removes a native function, and keeps the type of each.
/// What is resolved stays resolved to the same. So the native functions stay those
/// of the module.
#[verifier::rlimit(40)]
#[verifier::spinoff_prover]
pub proof fn law_step_keeps_natives<R: NativeResolver>(
    module: Module,
    depth: nat,
    config: Config<R>,
    next: Next<R>,
)
    requires
        may_step(module, depth, config, next),
    ensures
        ({
            let before = config.machine;
            let after = match next {
                Next::Continue(after) => after.machine,
                Next::Done(after, _) => after,
            };
            &&& natives_kept(before, after)
            &&& before.has_natives_of(module) ==> after.has_natives_of(module)
        }),
{
}

/// However many steps a run takes, it neither adds nor removes a native function,
/// and keeps the type of each.
pub proof fn law_run_keeps_natives<R: NativeResolver>(
    module: Module,
    depth: nat,
    from: Config<R>,
    n: nat,
    to: Config<R>,
)
    requires
        reaches(module, depth, from, n, to),
    ensures
        natives_kept(from.machine, to.machine),
        from.machine.has_natives_of(module) ==> to.machine.has_natives_of(module),
    decreases n,
{
    if n > 0 {
        let mid = lemma_step_before(module, depth, from, n, to);
        law_run_keeps_natives(module, depth, from, (n - 1) as nat, mid);
        law_step_keeps_natives(module, depth, mid, Next::Continue(to));
    }
}

/// Whatever a function comes to, it leaves the machine with the native functions
/// that it had, each with its type.
pub proof fn law_execution_keeps_natives<R: NativeResolver>(
    module: Module,
    machine: Machine<R>,
    func: nat,
    args: Seq<Value>,
    after: Machine<R>,
    result: Result<Option<Value>, ErrorView>,
)
    requires
        may_execute(module, machine, func, args, after, result),
    ensures
        natives_kept(machine, after),
        machine.has_natives_of(module) ==> after.has_natives_of(module),
{
    if let Ok(from) = entry(module, machine, func, args) {
        let depth = machine.frames.len();
        let (n, last) = lemma_last_step(module, depth, from, after, result);
        law_run_keeps_natives(module, depth, from, n, last);
        law_step_keeps_natives(module, depth, last, Next::Done(after, result));
    }
}

/// A native function that is resolved stays what it is.
pub proof fn law_native_stays_resolved<R: NativeResolver>(
    module: Module,
    depth: nat,
    from: Config<R>,
    n: nat,
    to: Config<R>,
    id: int,
)
    requires
        0 <= id < from.machine.natives.len(),
        from.machine.natives[id].link is Resolved,
        reaches(module, depth, from, n, to),
    ensures
        to.machine.natives[id] == from.machine.natives[id],
{
    law_run_keeps_natives(module, depth, from, n, to);
}

/// A call and the return from it leave the caller as it was, behind the call, with
/// the results of the function in place of its arguments.
pub proof fn law_return_undoes_call<R: NativeResolver>(
    module: Module,
    depth: nat,
    machine: Machine<R>,
    ip: nat,
    idx: nat,
    called: Config<R>,
    done: Machine<R>,
)
    requires
        machine.frames.len() > depth,
        machine.top().ip is None,
        call(module, machine, ip, idx) == Next::Continue(called),
        done.frames.len() == machine.frames.len() + 1,
        done.frames.drop_last() == called.machine.frames.drop_last(),
        done.top().func_id == idx,
        signature(module, module.functions@[idx as int].typeidx as nat) matches Some(sig)
            && done.top().operands.len() == sig.results.len(),
    ensures
        ({
            let sig = signature(module, module.functions@[idx as int].typeidx as nat)->0;
            let operands = machine.top().operands;
            let kept = operands.take(operands.len() - sig.params.len());
            return_from(module, depth, done) == Next::Continue(
                Machine {
                    frames: machine.with_operands(kept + done.top().operands).frames,
                    ..done
                }.at(ip),
            )
        }),
{
}

// Memory.

/// The bytes of a number stand for the number, as far as they go.
proof fn lemma_le_round_trip(x: nat, n: nat)
    ensures
        le_value(le_bytes(x, n)) == x % byte_range(n),
        byte_range(n) > 0,
    decreases n,
{
    if n == 0 {
        assert(x % 1 == 0);
    } else {
        let rest = (n - 1) as nat;
        lemma_le_round_trip(x / 256, rest);
        let bytes = le_bytes(x, n);
        assert(bytes.drop_first() =~= le_bytes(x / 256, rest));
        vstd::arithmetic::div_mod::lemma_mod_breakdown(x as int, 256, byte_range(rest) as int);
    }
}

/// What was stored is what a load of the same bytes gives back, as far as the
/// number of bytes goes: unsigned, the remainder, and signed, the number with that
/// remainder that the bytes can hold.
pub proof fn law_load_gives_back_store(memory: Seq<u8>, index: u32, m: Memarg, n: u32, x: nat)
    requires
        accessible(memory, index, m, n as nat),
    ensures
        stored(memory, index, m, n, x) matches Ok(after) && {
            &&& loaded_u(after, index, m, n) == Ok::<int, ErrorView>(
                (x % byte_range(n as nat)) as int,
            )
            &&& loaded_s(after, index, m, n) == Ok::<int, ErrorView>(
                sign_extended(x % byte_range(n as nat), n as nat),
            )
        },
{
    let bytes = le_bytes(x, n as nat);
    lemma_le_bytes_len(x, n as nat);
    lemma_le_round_trip(x, n as nat);
    let after = overwritten(memory, effective_address(index, m) as int, bytes);
    assert(accessed(after, index, m, n as nat) =~= bytes);
}

/// A 32-bit value that is stored whole is loaded as it was.
pub proof fn law_i32_load_gives_back_store(memory: Seq<u8>, index: u32, m: Memarg, v: i32)
    requires
        accessible(memory, index, m, 4),
    ensures
        i32_stored(memory, index, Value::I32(v), m, 4) matches Ok(after) && i32_loaded(
            loaded_u(after, index, m, 4),
        ) == Ok::<Value, ErrorView>(Value::I32(v)),
{
    law_load_gives_back_store(memory, index, m, 4, unsigned_32(v));
    lemma_byte_range();
}

/// A 64-bit value that is stored whole is loaded as it was.
pub proof fn law_i64_load_gives_back_store(memory: Seq<u8>, index: u32, m: Memarg, v: i64)
    requires
        accessible(memory, index, m, 8),
    ensures
        i64_stored(memory, index, Value::I64(v), m, 8) matches Ok(after) && i64_loaded(
            loaded_u(after, index, m, 8),
        ) == Ok::<Value, ErrorView>(Value::I64(v)),
{
    law_load_gives_back_store(memory, index, m, 8, unsigned_64(v));
    lemma_byte_range();
}

/// A store changes none of the bytes beside it, and neither does it change what
/// any load beside it gives.
pub proof fn law_store_keeps_other_bytes(
    memory: Seq<u8>,
    index: u32,
    m: Memarg,
    n: u32,
    x: nat,
    other: u32,
    other_m: Memarg,
    other_n: u32,
)
    requires
        accessible(memory, index, m, n as nat),
        effective_address(other, other_m) + other_n <= effective_address(index, m)
            || effective_address(index, m) + n <= effective_address(other, other_m),
    ensures
        stored(memory, index, m, n, x) matches Ok(after) && {
            &&& after.len() == memory.len()
            &&& forall|i: int|
                0 <= i < memory.len() && !(effective_address(index, m) <= i < effective_address(
                    index,
                    m,
                ) + n) ==> #[trigger] after[i] == memory[i]
            &&& loaded_u(after, other, other_m, other_n) == loaded_u(
                memory,
                other,
                other_m,
                other_n,
            )
            &&& loaded_s(after, other, other_m, other_n) == loaded_s(
                memory,
                other,
                other_m,
                other_n,
            )
        },
{
    lemma_le_bytes_len(x, n as nat);
    let after = overwritten(memory, effective_address(index, m) as int, le_bytes(x, n as nat));
    if accessible(memory, other, other_m, other_n as nat) {
        assert(accessed(after, other, other_m, other_n as nat) =~= accessed(
            memory,
            other,
            other_m,
            other_n as nat,
        ));
    }
}

/// A copy moves a region to its destination and changes nothing else, if the
/// destination does not lie within the region behind its start.
pub proof fn law_copy_moves_region(memory: Seq<u8>, dest: int, src: int, n: nat)
    requires
        0 <= dest,
        0 <= src,
        dest + n <= memory.len(),
        src + n <= memory.len(),
        dest <= src || src + n <= dest,
    ensures
        copied(memory, dest, src, n) == overwritten(memory, dest, memory.subrange(src, src + n)),
    decreases n,
{
    if n > 0 {
        let less = (n - 1) as nat;
        law_copy_moves_region(memory, dest, src, less);
        let before = copied(memory, dest, src, less);
        assert(before[src + less] == memory[src + less]);
        assert(copied(memory, dest, src, n) =~= overwritten(
            memory,
            dest,
            memory.subrange(src, src + n),
        ));
    } else {
        assert(copied(memory, dest, src, n) =~= overwritten(
            memory,
            dest,
            memory.subrange(src, src + n),
        ));
    }
}

/// A copy to a destination behind the start of its region repeats the bytes
/// between the two, and changes nothing outside the destination.
pub proof fn law_copy_repeats_region(memory: Seq<u8>, dest: int, src: int, n: nat)
    requires
        0 <= src < dest,
        dest + n <= memory.len(),
    ensures
        copied(memory, dest, src, n) == Seq::new(
            memory.len(),
            |i: int|
                if dest <= i < dest + n {
                    memory[src + (i - dest) % (dest - src)]
                } else {
                    memory[i]
                },
        ),
    decreases n,
{
    let after = Seq::new(
        memory.len(),
        |i: int|
            if dest <= i < dest + n {
                memory[src + (i - dest) % (dest - src)]
            } else {
                memory[i]
            },
    );
    if n > 0 {
        let less = (n - 1) as nat;
        law_copy_repeats_region(memory, dest, src, less);
        let before = copied(memory, dest, src, less);
        let period = dest - src;
        if less < period {
            vstd::arithmetic::div_mod::lemma_small_mod(less, period as nat);
        } else {
            vstd::arithmetic::div_mod::lemma_mod_sub_multiples_vanish(less as int, period);
        }
        assert(before[src + less] == memory[src + less as int % period]);
    }
    assert(copied(memory, dest, src, n) =~= after);
}

/// Memory that grows keeps its bytes, has zeros behind them, and stays within its
/// limit; memory that does not grow stays as it is.
pub proof fn law_growth_keeps_bytes(memory: MemoryState, n_pages: i32)
    ensures
        ({
            let (after, answer) = memory.grown(n_pages);
            &&& after.max_size == memory.max_size
            &&& memory.bytes.is_prefix_of(after.bytes)
            &&& forall|i: int|
                memory.bytes.len() <= i < after.bytes.len() ==> #[trigger] after.bytes[i] == 0
            &&& !memory.can_grow(n_pages) ==> after == memory && answer == Value::I32((-1) as i32)
            &&& memory.can_grow(n_pages) ==> {
                &&& answer == page_count(memory.bytes.len())
                &&& after.bytes.len() == memory.bytes.len() + n_pages * PAGE_SIZE
                &&& after.max_size matches Some(limit) ==> after.bytes.len() <= limit
            }
        }),
{
}

/// The size in pages after a growth is the size before it and what was asked for,
/// as long as it is a number that an instruction can see.
pub proof fn law_growth_adds_pages(memory: MemoryState, n_pages: i32)
    requires
        memory.can_grow(n_pages),
        memory.bytes.len() / PAGE_SIZE as nat + n_pages <= i32::MAX,
    ensures
        ({
            let (after, before) = memory.grown(n_pages);
            &&& before matches Value::I32(pages) && page_count(after.bytes.len()) == Value::I32(
                (pages + n_pages) as i32,
            )
        }),
{
    let len = memory.bytes.len() as int;
    assert((len + n_pages * 65536) / 65536 == len / 65536 + n_pages) by (nonlinear_arith);
}

/// A data segment is in memory when a machine starts, unless a later segment lies
/// over it.
pub proof fn law_segment_is_loaded(segments: Seq<DataSegment>, bytes: Seq<u8>, i: int)
    requires
        0 <= i < segments.len(),
        initialized(segments, bytes) is Ok,
        forall|j: int|
            i < j < segments.len() ==> {
                ||| (#[trigger] segments[j]).offset + segments[j].data@.len() <= segments[i].offset
                ||| segments[i].offset + segments[i].data@.len() <= segments[j].offset
            },
    ensures
        ({
            let after = initialized(segments, bytes)->Ok_0;
            let start = segments[i].offset as int;
            &&& after.len() == bytes.len()
            &&& segment_fits(segments[i], bytes.len())
            &&& after.subrange(start, start + segments[i].data@.len()) == segments[i].data@
        }),
    decreases segments.len(),
{
    let last = segments.last();
    let before = initialized(segments.drop_last(), bytes)->Ok_0;
    lemma_initialized_len(segments.drop_last(), bytes);
    let after = overwritten(before, last.offset as int, last.data@);
    let start = segments[i].offset as int;
    let end = start + segments[i].data@.len();
    if i == segments.len() - 1 {
        assert(after.subrange(start, end) =~= segments[i].data@);
    } else {
        assert forall|j: int| i < j < segments.drop_last().len() implies {
            ||| (#[trigger] segments.drop_last()[j]).offset + segments.drop_last()[j].data@.len()
                <= segments.drop_last()[i].offset
            ||| segments.drop_last()[i].offset + segments.drop_last()[i].data@.len()
                <= segments.drop_last()[j].offset
        } by {
            assert(segments.drop_last()[j] == segments[j]);
        }
        law_segment_is_loaded(segments.drop_last(), bytes, i);
        assert(segments[segments.len() - 1] == last);
        assert(after.subrange(start, end) =~= before.subrange(start, end));
    }
}

/// Data segments keep the size of memory.
proof fn lemma_initialized_len(segments: Seq<DataSegment>, bytes: Seq<u8>)
    ensures
        initialized(segments, bytes) matches Ok(after) ==> after.len() == bytes.len(),
    decreases segments.len(),
{
    if segments.len() > 0 {
        lemma_initialized_len(segments.drop_last(), bytes);
    }
}

// Native functions.

/// The printing function shows the text whose encoding its arguments point to.
pub proof fn law_print_shows_text(memory: Seq<u8>, ptr: i32, len: i32, text: Seq<char>)
    requires
        0 <= ptr < memory.len(),
        0 <= len,
        ptr + len <= memory.len(),
        memory.subrange(ptr as int, ptr + len) == encode_utf8(text),
    ensures
        printed(memory, seq![Value::I32(ptr), Value::I32(len)]) == Ok::<Seq<char>, ErrorView>(text),
{
    encode_utf8_valid_utf8(text);
    encode_utf8_decode_utf8(text);
}

/// A host comes before the machine's own function, which is found under its name
/// and no other.
pub proof fn law_host_comes_first<E, H>(
    offer: Option<E>,
    module: Seq<char>,
    field: Seq<char>,
    hook: Option<H>,
)
    ensures
        linked(offer, module, field, hook) matches Some(NativeTarget::Host(entry)) ==> offer
            == Some(entry),
        offer is Some ==> linked(offer, module, field, hook) is Some,
        linked(offer, module, field, hook) is None <==> offer is None && !is_builtin(
            module,
            field,
        ),
        linked(offer, module, field, hook) matches Some(NativeTarget::Print(kept)) ==> {
            &&& offer is None
            &&& is_builtin(module, field)
            &&& kept == hook
        },
{
}

/// The printing function shows its text to the hook that was set when its name was
/// resolved, whatever hook is set when it is called, and stays resolved to it.
pub proof fn law_print_keeps_its_hook<R: NativeResolver>(
    hook: Option<R::Hook>,
    before: RuntimeState<R, R::Hook>,
    later: Option<R::Hook>,
    args: Seq<Value>,
    link_after: Link<R::Entry, R::Hook>,
    after: RuntimeState<R, R::Hook>,
    result: Result<Option<Value>, ErrorView>,
)
    requires
        may_invoke::<R>(
            Link::Resolved(NativeTarget::Print(hook)),
            RuntimeState { debug_print_hook: later, ..before },
            args,
            link_after,
            after,
            result,
        ),
    ensures
        link_after == Link::<R::Entry, R::Hook>::Resolved(NativeTarget::Print(hook)),
        after == (RuntimeState { debug_print_hook: later, ..before }),
        result is Ok ==> {
            &&& result == Ok::<Option<Value>, ErrorView>(None)
            &&& printed(before.memory.bytes, args) matches Ok(text) && shown_by(hook, text)
        },
{
}

/// A name that is resolved to the printing function in one call prints, in a later
/// one, to the hook that was set at the first, whatever hook has been set since.
pub proof fn law_print_uses_hook_of_first_call<R: NativeResolver>(
    module: Seq<char>,
    field: Seq<char>,
    kept: Option<R::Hook>,
    before1: RuntimeState<R, R::Hook>,
    args1: Seq<Value>,
    after1: RuntimeState<R, R::Hook>,
    result1: Result<Option<Value>, ErrorView>,
    before2: RuntimeState<R, R::Hook>,
    args2: Seq<Value>,
    link2: Link<R::Entry, R::Hook>,
    after2: RuntimeState<R, R::Hook>,
    result2: Result<Option<Value>, ErrorView>,
)
    requires
        may_invoke::<R>(
            Link::Unresolved(module, field),
            before1,
            args1,
            Link::Resolved(NativeTarget::Print(kept)),
            after1,
            result1,
        ),
        may_invoke::<R>(
            Link::Resolved(NativeTarget::Print(kept)),
            before2,
            args2,
            link2,
            after2,
            result2,
        ),
    ensures
        is_builtin(module, field),
        kept == before1.debug_print_hook,
        link2 == Link::<R::Entry, R::Hook>::Resolved(NativeTarget::Print(kept)),
        after2 == before2,
        result2 is Ok ==> {
            &&& result2 == Ok::<Option<Value>, ErrorView>(None)
            &&& printed(before2.memory.bytes, args2) matches Ok(text) && shown_by(
                before1.debug_print_hook,
                text,
            )
        },
{
}

/// Debug output goes to the hook that was set last, whatever was set before it, and
/// setting a hook changes nothing else.
pub proof fn law_last_hook_counts<R, H: DebugPrint>(
    rt: RuntimeState<R, H>,
    earlier: H,
    hook: H,
    text: Seq<char>,
)
    ensures
        rt.with_hook(earlier).with_hook(hook) == rt.with_hook(hook),
        shown_by(rt.with_hook(hook).debug_print_hook, text) <==> hook.shown(text),
        rt.with_hook(hook).memory == rt.memory,
        rt.with_hook(hook).globals == rt.globals,
        rt.with_hook(hook).resolver == rt.resolver,
{
}

// Frames.

/// What is pushed is what is popped next, and leaves the frame as it was.
pub proof fn law_pop_undoes_push(frame: FrameState, value: Value)
    ensures
        frame.pushed(value).top() == Ok::<Value, ErrorView>(value),
        frame.pushed(value).popped() == frame,
{
    assert(frame.operands.push(value).drop_last() =~= frame.operands);
}

/// A local has the value that it was given last, and no other local changes.
pub proof fn law_local_holds_its_value(frame: FrameState, idx: u32, value: Value, other: u32)
    requires
        idx < frame.locals.len(),
    ensures
        frame.with_local(idx, value).local(idx) == Ok::<Value, ErrorView>(value),
        other != idx ==> frame.with_local(idx, value).local(other) == frame.local(other),
{
}

// Arithmetic.

/// Quotient and remainder make up the dividend.
proof fn lemma_quotient_and_remainder(a: int, b: int)
    requires
        b != 0,
    ensures
        a == b * quotient(a, b) + remainder(a, b),
{
    let x = if a >= 0 {
        a
    } else {
        -a
    };
    let d = if b >= 0 {
        b
    } else {
        -b
    };
    vstd::arithmetic::div_mod::lemma_fundamental_div_mod(x, d);
    assert(b * quotient(a, b) == (if a >= 0 {
        d * (x / d)
    } else {
        -(d * (x / d))
    })) by (nonlinear_arith)
        requires
            x == (if a >= 0 {
                a
            } else {
                -a
            }),
            d == (if b >= 0 {
                b
            } else {
                -b
            }),
            quotient(a, b) == (if (a >= 0) == (b >= 0) {
                x / d
            } else {
                -(x / d)
            }),
    ;
}

/// A 32-bit subtraction undoes an addition.
pub proof fn law_i32_sub_undoes_add(a: i32, b: i32)
    ensures
        spec_i32_sub(spec_i32_add(a, b), b) == a,
{
}

/// A dividend is its divisor times the quotient, and the remainder; the remainder
/// is closer to zero than the divisor and has the sign of the dividend.
pub proof fn law_i32_signed_division(a: i32, b: i32)
    requires
        divisible_32(a, b),
    ensures
        a == b * spec_i32_div_s(a, b) + spec_i32_rem_s(a, b),
        a >= 0 ==> spec_i32_rem_s(a, b) >= 0,
        a <= 0 ==> spec_i32_rem_s(a, b) <= 0,
        b > 0 ==> -b < spec_i32_rem_s(a, b) < b,
        b < 0 ==> b < spec_i32_rem_s(a, b) < -b,
{
    lemma_quotient_bounds(a as int, b as int);
    lemma_remainder_bounds(a as int, b as int);
    lemma_quotient_and_remainder(a as int, b as int);
    assert(signed_32(quotient(a as int, b as int)) == quotient(a as int, b as int));
    assert(signed_32(remainder(a as int, b as int)) == remainder(a as int, b as int));
}

/// The same for unsigned numbers.
pub proof fn law_i32_unsigned_division(a: i32, b: i32)
    requires
        b != 0,
    ensures
        unsigned_32(a) == unsigned_32(b) * unsigned_32(spec_i32_div_u(a, b)) + unsigned_32(
            spec_i32_rem_u(a, b),
        ),
        unsigned_32(spec_i32_rem_u(a, b)) < unsigned_32(b),
{
    let x = unsigned_32(a) as int;
    let d = unsigned_32(b) as int;
    lemma_quotient_bounds(x, d);
    lemma_remainder_bounds(x, d);
    lemma_quotient_and_remainder(x, d);
}

/// A 32-bit rotation to the right undoes one to the left, and the other way round.
pub proof fn law_i32_rotations_undo_each_other(a: i32, b: i32)
    ensures
        spec_i32_rotr(spec_i32_rotl(a, b), b) == a,
        spec_i32_rotl(spec_i32_rotr(a, b), b) == a,
{
    let x = unsigned_32(a) as u32;
    let k = places_32(b);
    let back = (32 - k) as u32;
    let left = rotated_left_32(x, k);
    let right = rotated_right_32(x, k);
    assert(((((x << k) | (x >> back)) >> k) | (((x << k) | (x >> back)) << back)) == x)
        by (bit_vector)
        requires
            k < 32,
            back == 32 - k,
    ;
    assert(((((x >> k) | (x << back)) << k) | (((x >> k) | (x << back)) >> back)) == x)
        by (bit_vector)
        requires
            k < 32,
            back == 32 - k,
    ;
    assert(unsigned_32(signed_32(left as int)) == left);
    assert(unsigned_32(signed_32(right as int)) == right);
}

/// A 64-bit subtraction undoes an addition.
pub proof fn law_i64_sub_undoes_add(a: i64, b: i64)
    ensures
        spec_i64_sub(spec_i64_add(a, b), b) == a,
{
}

/// A dividend is its divisor times the quotient, and the remainder; the remainder
/// is closer to zero than the divisor and has the sign of the dividend.
pub proof fn law_i64_signed_division(a: i64, b: i64)
    requires
        divisible_64(a, b),
    ensures
        a == b * spec_i64_div_s(a, b) + spec_i64_rem_s(a, b),
        a >= 0 ==> spec_i64_rem_s(a, b) >= 0,
        a <= 0 ==> spec_i64_rem_s(a, b) <= 0,
        b > 0 ==> -b < spec_i64_rem_s(a, b) < b,
        b < 0 ==> b < spec_i64_rem_s(a, b) < -b,
{
    lemma_quotient_bounds(a as int, b as int);
    lemma_remainder_bounds(a as int, b as int);
    lemma_quotient_and_remainder(a as int, b as int);
    assert(signed_64(quotient(a as int, b as int)) == quotient(a as int, b as int));
    assert(signed_64(remainder(a as int, b as int)) == remainder(a as int, b as int));
}

/// The same for unsigned numbers.
pub proof fn law_i64_unsigned_division(a: i64, b: i64)
    requires
        b != 0,
    ensures
        unsigned_64(a) == unsigned_64(b) * unsigned_64(spec_i64_div_u(a, b)) + unsigned_64(
            spec_i64_rem_u(a, b),
        ),
        unsigned_64(spec_i64_rem_u(a, b)) < unsigned_64(b),
{
    let x = unsigned_64(a) as int;
    let d = unsigned_64(b) as int;
    lemma_quotient_bounds(x, d);
    lemma_remainder_bounds(x, d);
    lemma_quotient_and_remainder(x, d);
}

/// A 64-bit rotation to the right undoes one to the left, and the other way round.
pub proof fn law_i64_rotations_undo_each_other(a: i64, b: i64)
    ensures
        spec_i64_rotr(spec_i64_rotl(a, b), b) == a,
        spec_i64_rotl(spec_i64_rotr(a, b), b) == a,
{
    let x = unsigned_64(a) as u64;
    let k = places_64(b);
    let back = (64 - k) as u64;
    let left = rotated_left_64(x, k);
    let right = rotated_right_64(x, k);
    assert(((((x << k) | (x >> back)) >> k) | (((x << k) | (x >> back)) << back)) == x)
        by (bit_vector)
        requires
            k < 64,
            back == 64 - k,
    ;
    assert(((((x >> k) | (x << back)) << k) | (((x >> k) | (x << back)) >> back)) == x)
        by (bit_vector)
        requires
            k < 64,
            back == 64 - k,
    ;
    assert(unsigned_64(signed_64(left as int)) == left);
    assert(unsigned_64(signed_64(right as int)) == right);
}

/// Cutting a number down to 32 bits undoes its extension to 64 bits, with the sign
/// and without it.
pub proof fn law_wrap_undoes_extension(v: i32)
    ensures
        signed_32(unsigned_32(v) as i64 as int) == v,
        signed_32(v as i64 as int) == v,
{
}

} // verus!
