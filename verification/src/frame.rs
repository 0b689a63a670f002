//! The activation of one function.
use vstd::prelude::*;

use crate::error::{outcome, ErrorView, ExecuteError, ExecuteResult};
use crate::module::Function;
use crate::value::Value;

verus! {

pub struct Frame {
    func_id: usize,
    /// Where to go on, while a function that this one called is running.
    ip: Option<usize>,
    operands: Vec<Value>,
    locals: Vec<Value>,
}

/// A frame as mathematics. The top of the operand stack is its last element.
#[verifier::ext_equal]
pub struct FrameState {
    pub func_id: nat,
    pub ip: Option<nat>,
    pub operands: Seq<Value>,
    pub locals: Seq<Value>,
}

impl View for Frame {
    type V = FrameState;

    closed spec fn view(&self) -> FrameState {
        FrameState {
            func_id: self.func_id as nat,
            ip: match self.ip {
                Some(ip) => Some(ip as nat),
                None => None,
            },
            operands: self.operands@,
            locals: self.locals@,
        }
    }
}

/// `n` undefined values.
pub open spec fn undefined(n: nat) -> Seq<Value> {
    Seq::new(n, |i: int| Value::Undef)
}

impl FrameState {
    /// A frame at the start of a function, with nothing on its stack.
    pub open spec fn fresh(func_id: nat, locals: Seq<Value>) -> FrameState {
        FrameState { func_id, ip: None, operands: Seq::empty(), locals }
    }

    /// The frame with other operands.
    pub open spec fn with_operands(self, operands: Seq<Value>) -> FrameState {
        FrameState { operands, ..self }
    }

    /// The frame with one more operand.
    pub open spec fn pushed(self, operand: Value) -> FrameState {
        self.with_operands(self.operands.push(operand))
    }

    /// The frame without its top operand.
    pub open spec fn popped(self) -> FrameState {
        if self.operands.len() > 0 {
            self.with_operands(self.operands.drop_last())
        } else {
            self
        }
    }

    /// The top operand.
    pub open spec fn top(self) -> Result<Value, ErrorView> {
        if self.operands.len() > 0 {
            Ok(self.operands.last())
        } else {
            Err(ErrorView::OperandStackUnderflow)
        }
    }

    /// The local with a given index.
    pub open spec fn local(self, idx: u32) -> Result<Value, ErrorView> {
        if idx < self.locals.len() {
            Ok(self.locals[idx as int])
        } else {
            Err(ErrorView::LocalIndexOutOfBound(idx as usize))
        }
    }

    /// The frame after a local is given a value; a local that does not exist
    /// changes nothing.
    pub open spec fn with_local(self, idx: u32, value: Value) -> FrameState {
        if idx < self.locals.len() {
            FrameState { locals: self.locals.update(idx as int, value), ..self }
        } else {
            self
        }
    }
}

/// A vector of `n` undefined values.
fn undefined_values(n: usize) -> (values: Vec<Value>)
    ensures
        values@ == undefined(n as nat),
{
    let values: Vec<Value> = vec![Value::Undef; n];
    assert(values@ =~= undefined(n as nat));
    values
}

impl Frame {
    /// A frame whose locals are those that the function declares, undefined.
    pub fn setup(func_id: usize, func: &Function) -> (frame: Frame)
        ensures
            frame@ == FrameState::fresh(func_id as nat, undefined(func.locals@.len())),
    {
        Frame {
            func_id,
            ip: None,
            operands: Vec::new(),
            locals: undefined_values(func.locals.len()),
        }
    }

    pub fn setup_no_locals(func_id: usize) -> (frame: Frame)
        ensures
            frame@ == FrameState::fresh(func_id as nat, Seq::empty()),
    {
        Frame { func_id, ip: None, operands: Vec::new(), locals: Vec::new() }
    }

    pub fn top_operand(&self) -> (result: ExecuteResult<Value>)
        ensures
            outcome(result) == self@.top(),
    {
        match self.operands.last() {
            Some(v) => Ok(*v),
            None => Err(ExecuteError::OperandStackUnderflow),
        }
    }

    pub fn pop_operand(&mut self) -> (result: ExecuteResult<Value>)
        ensures
            outcome(result) == old(self)@.top(),
            final(self)@ == old(self)@.popped(),
    {
        match self.operands.pop() {
            Some(v) => {
                assert(self.operands@ =~= old(self).operands@.drop_last());
                Ok(v)
            },
            None => Err(ExecuteError::OperandStackUnderflow),
        }
    }

    pub fn push_operand(&mut self, operand: Value)
        ensures
            final(self)@ == old(self)@.pushed(operand),
    {
        self.operands.push(operand);
    }

    pub fn set_local(&mut self, idx: u32, val: Value) -> (result: ExecuteResult<()>)
        ensures
            outcome(result) == (match old(self)@.local(idx) {
                Ok(_) => Ok(()),
                Err(error) => Err(error),
            }),
            final(self)@ == old(self)@.with_local(idx, val),
    {
        let idx: usize = idx as usize;
        if idx >= self.locals.len() {
            Err(ExecuteError::LocalIndexOutOfBound(idx))
        } else {
            self.locals.set(idx, val);
            Ok(())
        }
    }

    pub fn get_local(&mut self, idx: u32) -> (result: ExecuteResult<Value>)
        ensures
            outcome(result) == old(self)@.local(idx),
            final(self)@ == old(self)@,
    {
        let idx: usize = idx as usize;
        if idx >= self.locals.len() {
            Err(ExecuteError::LocalIndexOutOfBound(idx))
        } else {
            Ok(self.locals[idx])
        }
    }

    /// The function that the frame belongs to.
    pub(crate) fn func_id(&self) -> (func_id: usize)
        ensures
            func_id == self@.func_id,
    {
        self.func_id
    }

    /// The operands, the top last.
    pub(crate) fn operands(&self) -> (operands: &[Value])
        ensures
            operands@ == self@.operands,
    {
        self.operands.as_slice()
    }

    /// Keeps the lowest `n` operands.
    pub(crate) fn truncate_operands(&mut self, n: usize)
        requires
            n <= old(self)@.operands.len(),
        ensures
            final(self)@ == old(self)@.with_operands(old(self)@.operands.take(n as int)),
    {
        self.operands.truncate(n);
    }

    /// Removes the top `n` operands and returns them in the order in which they
    /// were pushed. Where there are fewer, all of them are lost.
    pub(crate) fn pop_operands(&mut self, n: usize) -> (result: ExecuteResult<Vec<Value>>)
        ensures
            old(self)@.operands.len() >= n ==> {
                let below = old(self)@.operands.len() - n;
                &&& result matches Ok(values) && values@ == old(self)@.operands.skip(below)
                &&& final(self)@ == old(self)@.with_operands(old(self)@.operands.take(below))
            },
            old(self)@.operands.len() < n ==> {
                &&& outcome(result) == Err::<Vec<Value>, ErrorView>(
                    ErrorView::OperandStackUnderflow,
                )
                &&& final(self)@ == old(self)@.with_operands(Seq::empty())
            },
    {
        let len: usize = self.operands.len();
        if len < n {
            self.operands.clear();
            return Err(ExecuteError::OperandStackUnderflow);
        }
        Ok(self.operands.split_off(len - n))
    }

    /// Pushes several operands, the last of them to the top.
    pub(crate) fn push_operands(&mut self, operands: &Vec<Value>)
        ensures
            final(self)@ == old(self)@.with_operands(old(self)@.operands + operands@),
    {
        let mut i: usize = 0;
        while i < operands.len()
            invariant
                i <= operands@.len(),
                self@ == old(self)@.with_operands(old(self)@.operands + operands@.take(i as int)),
            decreases operands@.len() - i,
        {
            self.operands.push(operands[i]);
            i = i + 1;
            assert((old(self)@.operands + operands@.take(i - 1)).push(operands@[i - 1])
                =~= old(self)@.operands + operands@.take(i as int));
        }
        assert(operands@.take(i as int) =~= operands@);
    }

    /// Remembers where to go on.
    pub(crate) fn save_ip(&mut self, ip: usize)
        ensures
            final(self)@ == (FrameState { ip: Some(ip as nat), ..old(self)@ }),
    {
        self.ip = Some(ip);
    }

    /// Gives back where to go on.
    pub(crate) fn take_ip(&mut self) -> (ip: Option<usize>)
        ensures
            match ip {
                Some(at) => old(self)@.ip == Some(at as nat),
                None => old(self)@.ip is None,
            },
            final(self)@ == (FrameState { ip: None, ..old(self)@ }),
    {
        self.ip.take()
    }

    /// The operands of a frame that is done.
    pub(crate) fn into_operands(self) -> (operands: Vec<Value>)
        ensures
            operands@ == self@.operands,
    {
        self.operands
    }

    /// The frame of a call: its locals are the arguments, then `n_locals`
    /// undefined values.
    pub(crate) fn for_call(func_id: usize, args: Vec<Value>, n_locals: usize) -> (frame: Frame)
        ensures
            frame@ == FrameState::fresh(func_id as nat, args@ + undefined(n_locals as nat)),
    {
        let mut frame = Frame::setup_no_locals(func_id);
        let mut undefined_locals: Vec<Value> = undefined_values(n_locals);
        frame.locals = args;
        frame.locals.append(&mut undefined_locals);
        frame
    }
}

} // verus!
