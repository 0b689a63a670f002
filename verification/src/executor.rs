//! The machine that runs a module.
use vstd::prelude::*;

use crate::error::{outcome, ErrorView, ExecuteError, ExecuteResult};
use crate::frame::{undefined, Frame, FrameState};
use crate::instructions::{has_no_effect, pop_i32, run_local};
use crate::int_ops::overwritten;
use crate::laws::{law_run_keeps_stack, law_step_keeps_natives, law_step_keeps_stack};
use crate::machine::{
    after_native, call, call_indirect, ends_within, entry, exported, frame_names, global_values,
    initialized, local_step, may_call_native, may_continue, may_end, may_execute, may_step,
    native_args, new_machine, reaches, return_from, running, signature, stuck, terminates,
    unresolved, with_native_effect, Config, Machine, NativeState, Next,
};
use crate::memory::{Memory, MemoryState};
use crate::module::{DataSegment, Export, Function, Module, Native, Table, Type};
use crate::native::{to_index, NativeFunction, NativeResolver};
use crate::opcode::Opcode;
use crate::runtime::{RuntimeConfig, RuntimeInfo, RuntimeState};
use crate::semantics::{copy_overflows, read_i32, undefined_operation, Flow};
use crate::value::Value;

verus! {

/// Whether a global may be changed.
#[derive(Copy, Clone, Debug, PartialEq, Eq, Structural)]
pub enum Mutable {
    Const,
    Mut,
}

/// A native function of a machine, with the index of its type.
pub struct NativeFunctionInfo<E, H> {
    f: NativeFunction<E, H>,
    typeidx: usize,
}

impl<E, H> View for NativeFunctionInfo<E, H> {
    type V = NativeState<E, H>;

    closed spec fn view(&self) -> NativeState<E, H> {
        NativeState { link: self.f@, typeidx: self.typeidx as nat }
    }
}

/// A machine that runs the functions of a module.
pub struct VirtualMachine<'a, R: NativeResolver> {
    module: &'a Module,
    rt: RuntimeInfo<R, R::Hook>,
    frames: Vec<Frame>,
    native_functions: Vec<NativeFunctionInfo<R::Entry, R::Hook>>,
}

impl<'a, R: NativeResolver> View for VirtualMachine<'a, R> {
    type V = Machine<R>;

    closed spec fn view(&self) -> Machine<R> {
        Machine {
            frames: self.frames@.map_values(|f: Frame| f@),
            runtime: self.rt@,
            natives: self.native_functions@.map_values(
                |f: NativeFunctionInfo<R::Entry, R::Hook>| f@,
            ),
        }
    }
}

/// What one instruction leads to.
pub enum Step {
    /// The index of the instruction that comes next.
    Continue(usize),
    /// The result of the run.
    Done(ExecuteResult<Option<Value>>),
}

impl Step {
    /// The step together with the machine that it leaves.
    pub open spec fn leaving<R: NativeResolver>(self, machine: Machine<R>) -> Next<R> {
        match self {
            Step::Continue(ip) => Next::Continue(machine.at(ip as nat)),
            Step::Done(result) => Next::Done(machine, outcome(result)),
        }
    }
}

/// How a run of a limited number of steps came to a halt.
pub enum Execution {
    /// The run ended with this result.
    Completed(ExecuteResult<Option<Value>>),
    /// The steps were used up.
    OutOfSteps,
    /// The next instruction has neither a result nor an error.
    Stuck,
}

/// The names of the functions that were running, the innermost first.
#[derive(Clone, Debug)]
pub struct Backtrace {
    pub frames: Vec<BtFrame>,
}

#[derive(Clone, Debug)]
pub struct BtFrame {
    pub name: Option<String>,
}

impl<'a, R: NativeResolver> VirtualMachine<'a, R> {
    /// The module that the machine runs.
    pub closed spec fn program(self) -> Module {
        *self.module
    }

    /// Whether the frames and the native functions of the machine are those of its
    /// module.
    pub open spec fn wf(self) -> bool {
        &&& self@.belongs_to(self.program())
        &&& self@.has_natives_of(self.program())
    }

    /// Prepares the call of a function: takes its arguments from the operands of
    /// the caller and makes its frame.
    fn prep_invoke(module: &Module, frame: &mut Frame, idx: usize) -> (result: ExecuteResult<Frame>)
        ensures
            idx >= module.functions@.len() ==> {
                &&& result matches Err(e) && e@ == ErrorView::FunctionIndexOutOfBound
                &&& final(frame)@ == old(frame)@
            },
            idx < module.functions@.len() ==> match signature(
                *module,
                module.functions@[idx as int].typeidx as nat,
            ) {
                None => {
                    &&& result matches Err(e) && e@ == ErrorView::TypeIdxIndexOufOfBound
                    &&& final(frame)@ == old(frame)@
                },
                Some(sig) => if old(frame)@.operands.len() < sig.params.len() {
                    &&& result matches Err(e) && e@ == ErrorView::OperandStackUnderflow
                    &&& final(frame)@ == old(frame)@.with_operands(Seq::empty())
                } else {
                    let below = old(frame)@.operands.len() - sig.params.len();
                    &&& result matches Ok(callee) && callee@ == FrameState::fresh(
                        idx as nat,
                        old(frame)@.operands.skip(below) + undefined(
                            module.functions@[idx as int].locals@.len(),
                        ),
                    )
                    &&& final(frame)@ == old(frame)@.with_operands(
                        old(frame)@.operands.take(below),
                    )
                },
            },
    {
        if idx >= module.functions.len() {
            return Err(ExecuteError::FunctionIndexOutOfBound);
        }
        let func: &Function = &module.functions[idx];
        let typeidx: usize = func.typeidx as usize;
        if typeidx >= module.types.len() {
            return Err(ExecuteError::TypeIdxIndexOufOfBound);
        }
        let n_args: usize = module.types[typeidx].n_params();
        let args: Vec<Value> = frame.pop_operands(n_args)?;
        Ok(Frame::for_call(idx, args, func.locals.len()))
    }

    /// Calls a function. `ip` is where the caller is to go on.
    fn call_function(&mut self, ip: usize, idx: usize) -> (step: Step)
        requires
            old(self)@.frames.len() > 0,
        ensures
            final(self).program() == old(self).program(),
            step.leaving(final(self)@) == call(
                old(self).program(),
                old(self)@,
                ip as nat,
                idx as nat,
            ),
    {
        let top: usize = self.frames.len() - 1;
        let frame: &mut Frame = &mut self.frames[top];
        frame.save_ip(ip);
        match Self::prep_invoke(self.module, frame, idx) {
            Err(error) => Step::Done(Err(error)),
            Ok(callee) => {
                self.frames.push(callee);
                Step::Continue(0)
            },
        }
    }

    /// Calls the function that the first table has at the index on top of the
    /// stack.
    fn call_indirect(&mut self, ip: usize, typeidx: usize) -> (step: Step)
        requires
            old(self)@.frames.len() > 0,
        ensures
            final(self).program() == old(self).program(),
            step.leaving(final(self)@) == call_indirect(
                old(self).program(),
                old(self)@,
                ip as nat,
                typeidx as nat,
            ),
    {
        let module: &'a Module = self.module;
        if module.tables.len() == 0 {
            return Step::Done(Err(ExecuteError::TableIndexOutOfBound));
        }
        let table: &Table = &module.tables[0];
        if typeidx >= module.types.len() {
            return Step::Done(Err(ExecuteError::TypeIdxIndexOufOfBound));
        }
        let expected: &Type = &module.types[typeidx];
        let top: usize = self.frames.len() - 1;
        let frame: &mut Frame = &mut self.frames[top];
        let index: usize = match pop_i32(frame) {
            Ok(index) => to_index(index),
            Err(error) => return Step::Done(Err(error)),
        };
        if index >= table.elements.len() {
            return Step::Done(Err(ExecuteError::TableIndexOutOfBound));
        }
        let elem: u32 = match table.elements[index] {
            Some(elem) => elem,
            None => return Step::Done(Err(ExecuteError::UndefinedTableEntry)),
        };
        if elem as usize >= module.functions.len() {
            return Step::Done(Err(ExecuteError::FunctionIndexOutOfBound));
        }
        let actual_typeidx: usize = module.functions[elem as usize].typeidx as usize;
        if actual_typeidx >= module.types.len() {
            return Step::Done(Err(ExecuteError::TypeIdxIndexOufOfBound));
        }
        let actual: &Type = &module.types[actual_typeidx];
        if !actual.same_as(expected) {
            return Step::Done(
                Err(
                    ExecuteError::IndirectCallTypeMismatch(
                        elem as usize,
                        expected.clone(),
                        actual.clone(),
                    ),
                ),
            );
        }
        proof {
            let rest = read_i32(old(self)@.top().operands).0;
            assert(self@ =~= old(self)@.with_operands(rest));
        }
        self.call_function(ip, elem as usize)
    }

    /// Returns from the running function.
    fn return_from(&mut self, depth: usize) -> (step: Step)
        requires
            old(self).wf(),
            old(self)@.runs_above(depth as nat),
        ensures
            final(self).program() == old(self).program(),
            step.leaving(final(self)@) == return_from(
                old(self).program(),
                depth as nat,
                old(self)@,
            ),
    {
        let module: &'a Module = self.module;
        let done: Frame = self.frames.pop().unwrap();
        let ghost popped = Machine { frames: old(self)@.frames.drop_last(), ..old(self)@ };
        assert(self@ =~= popped);
        assert(done@ == old(self)@.top());
        let func: &Function = &module.functions[done.func_id()];
        let typeidx: usize = func.typeidx as usize;
        if typeidx >= module.types.len() {
            return Step::Done(Err(ExecuteError::TypeIdxIndexOufOfBound));
        }
        let n_rets: usize = module.types[typeidx].n_results();
        let results: Vec<Value> = done.into_operands();
        if results.len() != n_rets {
            return Step::Done(Err(ExecuteError::ReturnTypeMismatch));
        }
        if self.frames.len() == depth {
            return Step::Done(
                Ok(
                    if n_rets == 0 {
                        None
                    } else {
                        Some(results[0])
                    },
                ),
            );
        }
        let top: usize = self.frames.len() - 1;
        assert(self@.frames[top as int] == old(self)@.frames[top as int]);
        let caller: &mut Frame = &mut self.frames[top];
        let ip: usize = caller.take_ip().unwrap();
        caller.push_operands(&results);
        Step::Continue(ip)
    }

    /// Goes on after a native function has come back with a result.
    fn finish_native(
        &mut self,
        ip: usize,
        ty: &Type,
        result: ExecuteResult<Option<Value>>,
    ) -> (step: Step)
        requires
            old(self)@.frames.len() > 0,
            ty@.params.len() <= old(self)@.top().operands.len(),
        ensures
            final(self).program() == old(self).program(),
            step.leaving(final(self)@) == after_native(
                old(self)@,
                ip as nat,
                ty@,
                outcome(result),
            ),
    {
        let value: Option<Value> = match result {
            Ok(value) => value,
            Err(error) => return Step::Done(Err(error)),
        };
        if (ty.n_results() != 0) != value.is_some() {
            return Step::Done(Err(ExecuteError::TypeMismatch));
        }
        let top: usize = self.frames.len() - 1;
        let frame: &mut Frame = &mut self.frames[top];
        let left: usize = frame.operands().len() - ty.n_params();
        frame.truncate_operands(left);
        if let Some(v) = value {
            frame.push_operand(v);
        }
        Step::Continue(ip)
    }

    /// Calls a native function.
    fn call_native(&mut self, ip: usize, id: usize) -> (step: Step)
        requires
            old(self)@.frames.len() > 0,
        ensures
            final(self).program() == old(self).program(),
            may_call_native(
                old(self).program(),
                old(self)@,
                ip as nat,
                id as nat,
                step.leaving(final(self)@),
            ),
    {
        let module: &'a Module = self.module;
        if id >= self.native_functions.len() {
            return Step::Done(Err(ExecuteError::FunctionIndexOutOfBound));
        }
        let typeidx: usize = self.native_functions[id].typeidx;
        if typeidx >= module.types.len() {
            return Step::Done(Err(ExecuteError::TypeIdxIndexOufOfBound));
        }
        let ty: &Type = &module.types[typeidx];
        let top: usize = self.frames.len() - 1;
        let operands: &[Value] = self.frames[top].operands();
        let n_args: usize = ty.n_params();
        let n: usize = operands.len();
        if n_args > n {
            return Step::Done(Err(ExecuteError::OperandStackUnderflow));
        }
        let args: &[Value] = vstd::slice::slice_subrange(operands, n - n_args, n);
        proof {
            assert(native_args(old(self)@, ty@) =~= args@);
        }
        let native: &mut NativeFunctionInfo<R::Entry, R::Hook> = &mut self.native_functions[id];
        let result: ExecuteResult<Option<Value>> = native.f.invoke(&mut self.rt, args);
        proof {
            let after = with_native_effect(
                old(self)@,
                id as nat,
                self.native_functions@[id as int].f@,
                self.rt@,
            );
            assert(self@ =~= after);
        }
        self.finish_native(ip, ty, result)
    }

    /// Carries out an instruction that stays within the running function.
    fn run_within(&mut self, ip: usize, op: &Opcode) -> (step: Step)
        requires
            old(self)@.frames.len() > 0,
            !undefined_operation(*op, old(self)@.top().operands),
            !copy_overflows(
                *op,
                old(self)@.top().operands,
                old(self)@.runtime.memory.bytes,
            ),
        ensures
            final(self).program() == old(self).program(),
            step.leaving(final(self)@) == local_step(old(self)@, ip as nat, *op),
    {
        let top: usize = self.frames.len() - 1;
        let frame: &mut Frame = &mut self.frames[top];
        match run_local(op, frame, &mut self.rt) {
            Ok(Flow::Next) => Step::Continue(ip),
            Ok(Flow::Jump(target)) => Step::Continue(target as usize),
            Err(error) => Step::Done(Err(error)),
        }
    }

    /// Carries out the instruction at `ip` of the running function. The run
    /// started at a stack of `depth` frames.
    pub fn step(&mut self, depth: usize, ip: usize) -> (step: Step)
        requires
            old(self).wf(),
            old(self)@.runs_above(depth as nat),
            !stuck(old(self).program(), old(self)@.at(ip as nat)),
        ensures
            final(self).program() == old(self).program(),
            may_step(
                old(self).program(),
                depth as nat,
                old(self)@.at(ip as nat),
                step.leaving(final(self)@),
            ),
            final(self).wf(),
    {
        let module: &'a Module = self.module;
        let top: usize = self.frames.len() - 1;
        assert(self@.frames[top as int] == self.frames@[top as int]@);
        let func: &Function = &module.functions[self.frames[top].func_id()];
        if ip >= func.body.opcodes.len() {
            return Step::Done(Err(ExecuteError::OpcodeIndexOutOfBound));
        }
        let op: &Opcode = &func.body.opcodes[ip];
        let step: Step = match op {
            Opcode::Call(idx) => self.call_function(ip + 1, *idx as usize),
            Opcode::CallIndirect(typeidx) => self.call_indirect(ip + 1, *typeidx as usize),
            Opcode::NativeInvoke(id) => self.call_native(ip + 1, *id as usize),
            Opcode::Return => self.return_from(depth),
            _ => self.run_within(ip + 1, op),
        };
        proof {
            let next = step.leaving(self@);
            assert(may_step(old(self).program(), depth as nat, old(self)@.at(ip as nat), next));
            law_step_keeps_stack(
                old(self).program(),
                depth as nat,
                old(self)@.at(ip as nat),
                next,
            );
            law_step_keeps_natives(
                old(self).program(),
                depth as nat,
                old(self)@.at(ip as nat),
                next,
            );
        }
        step
    }

    /// Whether the instruction at `ip` of the running function has neither a
    /// result nor an error.
    pub fn is_stuck(&self, ip: usize) -> (result: bool)
        requires
            self.wf(),
            self@.frames.len() > 0,
        ensures
            result == stuck(self.program(), self@.at(ip as nat)),
    {
        let top: usize = self.frames.len() - 1;
        assert(self@.frames[top as int] == self.frames@[top as int]@);
        let frame: &Frame = &self.frames[top];
        let func: &Function = &self.module.functions[frame.func_id()];
        if ip >= func.body.opcodes.len() {
            return false;
        }
        has_no_effect(&func.body.opcodes[ip], frame, self.rt.mem())
    }

    /// Makes the first frame of a run.
    fn enter(&mut self, initial_func: usize, args: &[Value]) -> (result: ExecuteResult<()>)
        requires
            old(self).wf(),
            initial_func < old(self).program().functions@.len(),
        ensures
            final(self).program() == old(self).program(),
            final(self).wf(),
            match entry(old(self).program(), old(self)@, initial_func as nat, args@) {
                Err(error) => {
                    &&& result matches Err(e) && e@ == error
                    &&& final(self)@ == old(self)@
                },
                Ok(config) => result is Ok && final(self)@.at(0) == config,
            },
    {
        let func: &Function = &self.module.functions[initial_func];
        let typeidx: usize = func.typeidx as usize;
        if typeidx >= self.module.types.len() {
            return Err(ExecuteError::TypeIdxIndexOufOfBound);
        }
        if args.len() != self.module.types[typeidx].n_params() {
            return Err(ExecuteError::TypeMismatch);
        }
        let locals: Vec<Value> = vstd::slice::slice_to_vec(args);
        self.frames.push(Frame::for_call(initial_func, locals, func.locals.len()));
        proof {
            let frame = self.frames@.last()@;
            assert(self@.frames =~= old(self)@.frames.push(frame));
        }
        Ok(())
    }

    /// Runs a function to its end.
    ///
    /// The frames that a run was in when it failed stay on the stack, where
    /// [`VirtualMachine::backtrace`] finds them.
    pub fn execute(&mut self, initial_func: usize, args: &[Value]) -> (result: ExecuteResult<
        Option<Value>,
    >)
        requires
            old(self).wf(),
            initial_func < old(self).program().functions@.len(),
            terminates(old(self).program(), old(self)@, initial_func as nat, args@),
        ensures
            final(self).program() == old(self).program(),
            final(self).wf(),
            may_execute(
                old(self).program(),
                old(self)@,
                initial_func as nat,
                args@,
                final(self)@,
                outcome(result),
            ),
            old(self)@.frames.is_prefix_of(final(self)@.frames),
            result is Ok ==> final(self)@.frames == old(self)@.frames,
    {
        let depth: usize = self.frames.len();
        self.enter(initial_func, args)?;
        let ghost program = self.program();
        let ghost start = self@.at(0);
        let ghost mut taken: nat = 0;
        let ghost mut left: nat = choose|n: nat| ends_within(program, depth as nat, start, n);
        let mut ip: usize = 0;
        loop
            invariant
                program == self.program(),
                program == old(self).program(),
                self.wf(),
                depth == old(self)@.frames.len(),
                entry(program, old(self)@, initial_func as nat, args@) == Ok::<
                    Config<R>,
                    ErrorView,
                >(start),
                start.machine.belongs_to(program),
                start.machine.runs_above(depth as nat),
                start.machine.frames.take(depth as int) == old(self)@.frames,
                reaches(program, depth as nat, start, taken, self@.at(ip as nat)),
                ends_within(program, depth as nat, self@.at(ip as nat), left),
            decreases left,
        {
            let ghost before = self@.at(ip as nat);
            proof {
                law_run_keeps_stack(program, depth as nat, start, taken, before);
            }
            let step: Step = self.step(depth, ip);
            proof {
                law_step_keeps_stack(program, depth as nat, before, step.leaving(self@));
            }
            match step {
                Step::Continue(next) => {
                    proof {
                        assert(may_continue(program, depth as nat, before, self@.at(next as nat)));
                        taken = taken + 1;
                        left = (left - 1) as nat;
                    }
                    ip = next;
                },
                Step::Done(result) => {
                    proof {
                        assert(may_end(program, depth as nat, start, self@, outcome(result)));
                        assert(self@.frames.take(depth as int) =~= old(self)@.frames);
                        if result is Ok {
                            assert(self@.frames.take(depth as int) =~= self@.frames);
                        }
                    }
                    return result;
                },
            }
        }
    }

    /// Runs a function for at most `limit` instructions.
    ///
    /// A run that is cut short leaves its frames on the stack.
    pub fn execute_bounded(
        &mut self,
        initial_func: usize,
        args: &[Value],
        limit: u64,
    ) -> (execution: Execution)
        requires
            old(self).wf(),
            initial_func < old(self).program().functions@.len(),
        ensures
            final(self).program() == old(self).program(),
            final(self).wf(),
            match entry(old(self).program(), old(self)@, initial_func as nat, args@) {
                Err(error) => {
                    &&& execution matches Execution::Completed(Err(e)) && e@ == error
                    &&& final(self)@ == old(self)@
                },
                Ok(start) => {
                    let depth = old(self)@.frames.len();
                    &&& may_halt(
                        old(self).program(),
                        depth,
                        start,
                        limit as nat,
                        final(self)@,
                        execution,
                    )
                    &&& ends_within(old(self).program(), depth, start, limit as nat)
                        ==> execution is Completed
                },
            },
            old(self)@.frames.is_prefix_of(final(self)@.frames),
            execution matches Execution::Completed(Ok(_)) ==> final(self)@.frames == old(
                self,
            )@.frames,
    {
        let depth: usize = self.frames.len();
        if let Err(error) = self.enter(initial_func, args) {
            return Execution::Completed(Err(error));
        }
        let ghost program = self.program();
        let ghost start = self@.at(0);
        let mut taken: u64 = 0;
        let mut ip: usize = 0;
        while taken < limit
            invariant
                program == self.program(),
                program == old(self).program(),
                self.wf(),
                depth == old(self)@.frames.len(),
                entry(program, old(self)@, initial_func as nat, args@) == Ok::<
                    Config<R>,
                    ErrorView,
                >(start),
                start.machine.belongs_to(program),
                start.machine.runs_above(depth as nat),
                start.machine.frames.take(depth as int) == old(self)@.frames,
                taken <= limit,
                reaches(program, depth as nat, start, taken as nat, self@.at(ip as nat)),
                ends_within(program, depth as nat, start, limit as nat) ==> ends_within(
                    program,
                    depth as nat,
                    self@.at(ip as nat),
                    (limit - taken) as nat,
                ),
            decreases limit - taken,
        {
            let ghost before = self@.at(ip as nat);
            proof {
                law_run_keeps_stack(program, depth as nat, start, taken as nat, before);
                assert(self@.frames.take(depth as int) =~= old(self)@.frames);
            }
            if self.is_stuck(ip) {
                return Execution::Stuck;
            }
            let step: Step = self.step(depth, ip);
            proof {
                law_step_keeps_stack(program, depth as nat, before, step.leaving(self@));
            }
            match step {
                Step::Continue(next) => {
                    assert(may_continue(program, depth as nat, before, self@.at(next as nat)));
                    taken = taken + 1;
                    ip = next;
                },
                Step::Done(result) => {
                    proof {
                        assert(self@.frames.take(depth as int) =~= old(self)@.frames);
                        if result is Ok {
                            assert(self@.frames.take(depth as int) =~= self@.frames);
                        }
                    }
                    return Execution::Completed(result);
                },
            }
        }
        proof {
            law_run_keeps_stack(
                program,
                depth as nat,
                start,
                taken as nat,
                self@.at(ip as nat),
            );
        }
        Execution::OutOfSteps
    }
}

impl<'a, R: NativeResolver> VirtualMachine<'a, R> {
    /// A machine for a module: its memory holds the data segments, its globals
    /// have their first values, and its native functions are still to be resolved.
    pub fn new(module: &'a Module, rt_config: RuntimeConfig<R>) -> (result: ExecuteResult<
        VirtualMachine<'a, R>,
    >)
        requires
            rt_config.sizes_fit(),
        ensures
            match new_machine(*module, rt_config) {
                Ok(machine) => {
                    &&& result matches Ok(vm) && {
                        &&& vm@ == machine
                        &&& vm.program() == *module
                        &&& vm.wf()
                    }
                },
                Err(error) => result matches Err(e) && e@ == error,
            },
    {
        let mut rt: RuntimeInfo<R, R::Hook> = RuntimeInfo::new(rt_config);
        load_segments(rt.mem_mut(), &module.data_segments)?;
        let mut i: usize = 0;
        let ghost loaded = rt@;
        while i < module.globals.len()
            invariant
                i <= module.globals@.len(),
                rt@ == (RuntimeState {
                    globals: global_values(module.globals@.take(i as int)),
                    ..loaded
                }),
            decreases module.globals@.len() - i,
        {
            rt.push_global(module.globals[i].value);
            i = i + 1;
            proof {
                let globals = module.globals@;
                assert(global_values(globals.take(i as int)) =~= global_values(
                    globals.take(i - 1),
                ).push(globals[i - 1].value));
            }
        }
        assert(module.globals@.take(i as int) =~= module.globals@);
        let native_functions = unresolved_functions(&module.natives);
        let vm = VirtualMachine { module, rt, frames: Vec::new(), native_functions };
        proof {
            assert(vm@.frames =~= Seq::<FrameState>::empty());
            assert(vm@ =~= new_machine(*module, rt_config)->Ok_0);
        }
        Ok(vm)
    }

    pub fn get_runtime_info(&self) -> (rt: &RuntimeInfo<R, R::Hook>)
        ensures
            rt@ == self@.runtime,
    {
        &self.rt
    }

    pub fn get_runtime_info_mut(&mut self) -> (rt: &mut RuntimeInfo<R, R::Hook>)
        ensures
            rt@ == old(self)@.runtime,
            final(self)@ == (Machine { runtime: final(rt)@, ..old(self)@ }),
            final(self).program() == old(self).program(),
    {
        &mut self.rt
    }

    /// The function that the module exports under a name.
    pub fn lookup_exported_func(&self, name: &str) -> (result: ExecuteResult<usize>)
        ensures
            outcome(result) == (if self.program().exports@.contains_key(name@) {
                match self.program().exports@[name@] {
                    Export::Function(id) => Ok(id as usize),
                }
            } else {
                Err(ErrorView::FunctionNotFound)
            }),
            outcome(result) == exported(self.program(), name@),
    {
        match self.module.exports.get(name) {
            Some(Export::Function(id)) => Ok(id as usize),
            None => Err(ExecuteError::FunctionNotFound),
        }
    }

    /// The running function.
    pub fn last_function(&self) -> (function: Option<&Function>)
        requires
            self.wf(),
        ensures
            match function {
                Some(function) => {
                    &&& self@.frames.len() > 0
                    &&& *function == self.program().functions@[self@.top().func_id as int]
                },
                None => self@.frames.len() == 0,
            },
            match running(self.program(), self@) {
                Some(expected) => function matches Some(f) && *f == expected,
                None => function is None,
            },
    {
        match self.frames.last() {
            Some(frame) => {
                assert(frame@ == self@.frames.last());
                Some(&self.module.functions[frame.func_id()])
            },
            None => None,
        }
    }

    /// The names of the functions that have a frame, the innermost first.
    pub fn backtrace(&self) -> (backtrace: Backtrace)
        requires
            self.wf(),
        ensures
            backtrace.frames@.len() == self@.frames.len(),
            forall|i: int|
                0 <= i < self@.frames.len() ==> (#[trigger] backtrace.frames@[i]).name
                    == self.program().functions@[self@.frames[self@.frames.len() - 1
                    - i].func_id as int].name,
            backtrace.frames@.map_values(|f: BtFrame| f.name) == frame_names(
                self.program(),
                self@,
            ),
    {
        let mut bt_frames: Vec<BtFrame> = Vec::new();
        let mut left: usize = self.frames.len();
        while left > 0
            invariant
                self.wf(),
                left <= self.frames@.len() == self@.frames.len(),
                bt_frames@.len() == self@.frames.len() - left,
                forall|i: int|
                    0 <= i < bt_frames@.len() ==> (#[trigger] bt_frames@[i]).name
                        == self.program().functions@[self@.frames[self@.frames.len() - 1
                        - i].func_id as int].name,
            decreases left,
        {
            left = left - 1;
            assert(self@.frames[left as int] == self.frames@[left as int]@);
            let func: &Function = &self.module.functions[self.frames[left].func_id()];
            bt_frames.push(BtFrame { name: func.name.clone() });
        }
        assert(bt_frames@.map_values(|f: BtFrame| f.name) =~= frame_names(self.program(), self@));
        Backtrace { frames: bt_frames }
    }

    /// Sets where the debug output of the program goes.
    pub fn set_debug_print_hook(&mut self, f: R::Hook)
        ensures
            final(self)@ == (Machine {
                runtime: old(self)@.runtime.with_hook(f),
                ..old(self)@
            }),
            final(self).program() == old(self).program(),
    {
        self.rt.set_debug_print_hook(f);
    }
}

/// Writes data segments to memory, in their order.
fn load_segments(memory: &mut Memory, segments: &Vec<DataSegment>) -> (result: ExecuteResult<()>)
    ensures
        match initialized(segments@, old(memory)@.bytes) {
            Ok(bytes) => {
                &&& result is Ok
                &&& final(memory)@ == (MemoryState { bytes, max_size: old(memory)@.max_size })
            },
            Err(error) => result matches Err(e) && e@ == error,
        },
{
    let mut i: usize = 0;
    assert(segments@.take(0).len() == 0);
    while i < segments.len()
        invariant
            i <= segments@.len(),
            initialized(segments@.take(i as int), old(memory)@.bytes) == Ok::<Seq<u8>, ErrorView>(
                memory@.bytes,
            ),
            memory@.max_size == old(memory)@.max_size,
        decreases segments@.len() - i,
    {
        let segment: &DataSegment = &segments[i];
        proof {
            let next = segments@.take(i + 1);
            assert(next.drop_last() =~= segments@.take(i as int));
            assert(next.last() == *segment);
            lemma_initialized_fails(segments@, old(memory)@.bytes, i + 1);
        }
        let len: u64 = (segment.data.len() as u64) % 0x1_0000_0000;
        let offset: usize = segment.offset as usize;
        if offset >= memory.len() || segment.data.len() > memory.len() - offset {
            return Err(ExecuteError::AddrOutOfBound(segment.offset, len as u32));
        }
        write_bytes(memory, offset, &segment.data);
        i = i + 1;
    }
    assert(segments@.take(i as int) =~= segments@);
    Ok(())
}

/// The error of a segment is the error of all segments.
proof fn lemma_initialized_fails(segments: Seq<DataSegment>, bytes: Seq<u8>, n: int)
    requires
        0 <= n <= segments.len(),
    ensures
        initialized(segments.take(n), bytes) matches Err(error) ==> initialized(segments, bytes)
            == Err::<Seq<u8>, ErrorView>(error),
    decreases segments.len(),
{
    if n < segments.len() {
        lemma_initialized_fails(segments.drop_last(), bytes, n);
        assert(segments.drop_last().take(n) =~= segments.take(n));
    } else {
        assert(segments.take(n) =~= segments);
    }
}

/// Writes bytes to memory.
fn write_bytes(memory: &mut Memory, addr: usize, bytes: &Vec<u8>)
    requires
        addr + bytes@.len() <= old(memory)@.bytes.len(),
    ensures
        final(memory)@ == (MemoryState {
            bytes: overwritten(old(memory)@.bytes, addr as int, bytes@),
            max_size: old(memory)@.max_size,
        }),
{
    let len: usize = memory.len();
    let mut i: usize = 0;
    while i < bytes.len()
        invariant
            i <= bytes@.len(),
            addr + bytes@.len() <= len,
            len == memory@.bytes.len(),
            memory@.max_size == old(memory)@.max_size,
            memory@.bytes == overwritten(old(memory)@.bytes, addr as int, bytes@.take(i as int)),
        decreases bytes@.len() - i,
    {
        memory.write(addr + i, bytes[i]);
        i = i + 1;
        assert(memory@.bytes =~= overwritten(
            old(memory)@.bytes,
            addr as int,
            bytes@.take(i as int),
        ));
    }
    assert(bytes@.take(i as int) =~= bytes@);
}

/// The native functions of a module, still to be resolved.
fn unresolved_functions<E, H>(natives: &Vec<Native>) -> (functions: Vec<NativeFunctionInfo<E, H>>)
    ensures
        functions@.map_values(|f: NativeFunctionInfo<E, H>| f@) == unresolved::<E, H>(natives@),
{
    let mut functions: Vec<NativeFunctionInfo<E, H>> = Vec::new();
    let mut i: usize = 0;
    while i < natives.len()
        invariant
            i <= natives@.len(),
            functions@.len() == i,
            forall|j: int|
                0 <= j < i ==> (#[trigger] functions@[j])@ == unresolved::<E, H>(natives@)[j],
        decreases natives@.len() - i,
    {
        let native: &Native = &natives[i];
        functions.push(
            NativeFunctionInfo {
                f: NativeFunction::Uninitialized(native.module.clone(), native.field.clone()),
                typeidx: native.typeidx as usize,
            },
        );
        i = i + 1;
    }
    assert(functions@.map_values(|f: NativeFunctionInfo<E, H>| f@) =~= unresolved::<E, H>(
        natives@,
    ));
    functions
}

impl Module {
    /// Runs a function without arguments on a new machine.
    pub fn execute<R: NativeResolver>(
        &self,
        rt_config: RuntimeConfig<R>,
        initial_func: usize,
    ) -> (result: ExecuteResult<Option<Value>>)
        requires
            rt_config.sizes_fit(),
            new_machine(*self, rt_config) matches Ok(machine) ==> {
                &&& initial_func < self.functions@.len()
                &&& terminates(*self, machine, initial_func as nat, Seq::empty())
            },
        ensures
            match new_machine(*self, rt_config) {
                Err(error) => outcome(result) == Err::<Option<Value>, ErrorView>(error),
                Ok(machine) => exists|after: Machine<R>| #[trigger]
                    may_execute(
                        *self,
                        machine,
                        initial_func as nat,
                        Seq::empty(),
                        after,
                        outcome(result),
                    ),
            },
    {
        let mut vm: VirtualMachine<R> = VirtualMachine::new(self, rt_config)?;
        let no_args: Vec<Value> = Vec::new();
        vm.execute(initial_func, no_args.as_slice())
    }
}

/// How a run of at most `limit` steps may come to a halt.
pub open spec fn may_halt<R: NativeResolver>(
    module: Module,
    depth: nat,
    start: Config<R>,
    limit: nat,
    after: Machine<R>,
    execution: Execution,
) -> bool {
    exists|n: nat, last: Config<R>|
        {
            &&& n <= limit
            &&& #[trigger] reaches(module, depth, start, n, last)
            &&& match execution {
                Execution::Completed(result) => {
                    &&& n < limit
                    &&& !stuck(module, last)
                    &&& may_step(module, depth, last, Next::Done(after, outcome(result)))
                },
                Execution::OutOfSteps => n == limit && after == last.machine,
                Execution::Stuck => stuck(module, last) && after == last.machine,
            }
        }
}

} // verus!
