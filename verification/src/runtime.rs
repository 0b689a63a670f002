//! What a running program shares with its host.
use vstd::prelude::*;

use crate::memory::{zeros, Memory, MemoryState, PAGE_SIZE};
use crate::value::Value;

verus! {

/// Where the debug output of a program goes.
pub trait DebugPrint: Copy {
    /// What holds once a text has been handed over. A hook that does not say
    /// otherwise promises nothing.
    open spec fn shown(&self, text: Seq<char>) -> bool {
        true
    }

    fn print(&self, s: &str)
        ensures
            self.shown(s@),
    ;
}

/// Whether a text has been handed to a hook, if there is one.
pub open spec fn shown_by<H: DebugPrint>(hook: Option<H>, text: Seq<char>) -> bool {
    hook matches Some(hook) ==> hook.shown(text)
}

/// How a machine is to be set up.
pub struct RuntimeConfig<R> {
    pub mem_default_size_pages: usize,
    pub mem_max_size_pages: Option<usize>,
    pub resolver: R,
}

/// Memory, globals and the host of a machine.
pub struct RuntimeInfo<R, H> {
    debug_print_hook: Option<H>,
    mem: Memory,
    globals: Vec<Value>,
    resolver: R,
}

/// A [`RuntimeInfo`] as mathematics.
#[verifier::ext_equal]
pub struct RuntimeState<R, H> {
    pub memory: MemoryState,
    pub globals: Seq<Value>,
    pub resolver: R,
    pub debug_print_hook: Option<H>,
}

impl<R, H> View for RuntimeInfo<R, H> {
    type V = RuntimeState<R, H>;

    closed spec fn view(&self) -> RuntimeState<R, H> {
        RuntimeState {
            memory: self.mem@,
            globals: self.globals@,
            resolver: self.resolver,
            debug_print_hook: self.debug_print_hook,
        }
    }
}

impl<R, H> RuntimeState<R, H> {
    /// The state with other bytes in memory.
    pub open spec fn with_bytes(self, bytes: Seq<u8>) -> RuntimeState<R, H> {
        RuntimeState {
            memory: MemoryState { bytes, max_size: self.memory.max_size },
            ..self
        }
    }

    /// The state with another debug hook.
    pub open spec fn with_hook(self, hook: H) -> RuntimeState<R, H> {
        RuntimeState { debug_print_hook: Some(hook), ..self }
    }
}

impl<R> RuntimeConfig<R> {
    /// Whether the sizes in bytes are numbers of this machine.
    pub open spec fn sizes_fit(self) -> bool {
        &&& self.mem_default_size_pages * PAGE_SIZE <= usize::MAX
        &&& self.mem_max_size_pages matches Some(pages) ==> pages * PAGE_SIZE <= usize::MAX
    }

    /// The memory that a machine starts with.
    pub open spec fn initial_memory(self) -> MemoryState {
        MemoryState {
            bytes: zeros((self.mem_default_size_pages * PAGE_SIZE) as nat),
            max_size: match self.mem_max_size_pages {
                Some(pages) => Some((pages * PAGE_SIZE) as usize),
                None => None,
            },
        }
    }

    /// The runtime that a machine starts with.
    pub open spec fn initial_runtime<H>(self) -> RuntimeState<R, H> {
        RuntimeState {
            memory: self.initial_memory(),
            globals: Seq::empty(),
            resolver: self.resolver,
            debug_print_hook: None,
        }
    }
}

impl<R, H> RuntimeInfo<R, H> {
    pub fn new(config: RuntimeConfig<R>) -> (rt: RuntimeInfo<R, H>)
        requires
            config.sizes_fit(),
        ensures
            rt@ == config.initial_runtime::<H>(),
    {
        let max_size: Option<usize> = match config.mem_max_size_pages {
            Some(pages) => Some(pages * PAGE_SIZE),
            None => None,
        };
        RuntimeInfo {
            debug_print_hook: None,
            mem: Memory::new(config.mem_default_size_pages * PAGE_SIZE, max_size),
            globals: Vec::new(),
            resolver: config.resolver,
        }
    }

    pub fn get_memory(&self) -> (memory: &[u8])
        ensures
            memory@ == self@.memory.bytes,
    {
        self.mem.bytes()
    }

    pub fn get_memory_mut(&mut self) -> (memory: &mut Vec<u8>)
        ensures
            memory@ == old(self)@.memory.bytes,
            final(self)@ == old(self)@.with_bytes(final(memory)@),
    {
        self.mem.bytes_mut()
    }

    pub(crate) fn mem(&self) -> (mem: &Memory)
        ensures
            mem@ == self@.memory,
    {
        &self.mem
    }

    pub(crate) fn mem_mut(&mut self) -> (mem: &mut Memory)
        ensures
            mem@ == old(self)@.memory,
            final(self)@ == (RuntimeState { memory: final(mem)@, ..old(self)@ }),
    {
        &mut self.mem
    }

    pub(crate) fn globals(&self) -> (globals: &Vec<Value>)
        ensures
            globals@ == self@.globals,
    {
        &self.globals
    }

    pub(crate) fn push_global(&mut self, value: Value)
        ensures
            final(self)@ == (RuntimeState {
                globals: old(self)@.globals.push(value),
                ..old(self)@
            }),
    {
        self.globals.push(value);
    }

    pub(crate) fn set_global(&mut self, idx: usize, value: Value)
        requires
            idx < old(self)@.globals.len(),
        ensures
            final(self)@ == (RuntimeState {
                globals: old(self)@.globals.update(idx as int, value),
                ..old(self)@
            }),
    {
        self.globals.set(idx, value);
    }

    pub(crate) fn resolver(&self) -> (resolver: &R)
        ensures
            *resolver == self@.resolver,
    {
        &self.resolver
    }

    pub(crate) fn set_debug_print_hook(&mut self, hook: H)
        ensures
            final(self)@ == old(self)@.with_hook(hook),
    {
        self.debug_print_hook = Some(hook);
    }
}

impl<R, H: DebugPrint> RuntimeInfo<R, H> {
    /// Hands a text to the debug hook, if there is one.
    pub fn debug_print(&self, s: &str)
        ensures
            shown_by(self@.debug_print_hook, s@),
    {
        print_to(self.debug_print_hook, s)
    }

    pub(crate) fn debug_print_hook(&self) -> (hook: Option<H>)
        ensures
            hook == self@.debug_print_hook,
    {
        self.debug_print_hook
    }
}

/// Hands a text to a hook, if there is one.
pub(crate) fn print_to<H: DebugPrint>(hook: Option<H>, s: &str)
    ensures
        shown_by(hook, s@),
{
    if let Some(hook) = hook {
        hook.print(s);
    }
}

} // verus!
