//! Functions that the host supplies.
use vstd::prelude::*;
use vstd::string::*;
use vstd::utf8::*;

use crate::error::{outcome, ErrorView, ExecuteError, ExecuteResult};
use crate::int_ops::{to_unsigned_32, unsigned_32};
use crate::runtime::{print_to, shown_by, DebugPrint, RuntimeInfo, RuntimeState};
use crate::value::Value;

verus! {

/// A function of the host that a program can call.
pub trait NativeEntry<R, H>: Sized {
    /// What a call may do: `before` and `args` are what it is given, `after` and
    /// `result` what it leaves. An entry that does not say otherwise promises
    /// nothing.
    open spec fn allows(
        &self,
        before: RuntimeState<R, H>,
        args: Seq<Value>,
        after: RuntimeState<R, H>,
        result: Result<Option<Value>, ErrorView>,
    ) -> bool {
        true
    }

    fn call(&self, rt: &mut RuntimeInfo<R, H>, args: &[Value]) -> (result: ExecuteResult<
        Option<Value>,
    >)
        ensures
            self.allows(old(rt)@, args@, final(rt)@, outcome(result)),
    ;
}

/// Finds the functions of the host by name.
pub trait NativeResolver: Sized {
    type Hook: DebugPrint;

    type Entry: NativeEntry<Self, Self::Hook>;

    /// What a search may come back with. A host that does not say otherwise
    /// promises nothing.
    open spec fn offers(
        &self,
        module: Seq<char>,
        field: Seq<char>,
        entry: Option<Self::Entry>,
    ) -> bool {
        true
    }

    fn resolve(&self, module: &str, field: &str) -> (entry: Option<Self::Entry>)
        ensures
            self.offers(module@, field@, entry),
    ;
}

/// What a native function stands for once it is resolved.
pub enum NativeTarget<E, H> {
    /// A function of the host.
    Host(E),
    /// The printing function of the machine itself, with the debug hook that was
    /// set when it was resolved.
    Print(Option<H>),
}

pub enum NativeFunction<E, H> {
    /// Module and field, still to be resolved.
    Uninitialized(String, String),
    Ready(NativeTarget<E, H>),
}

/// A [`NativeFunction`] as mathematics.
pub enum Link<E, H> {
    Unresolved(Seq<char>, Seq<char>),
    Resolved(NativeTarget<E, H>),
}

impl<E, H> View for NativeFunction<E, H> {
    type V = Link<E, H>;

    open spec fn view(&self) -> Link<E, H> {
        match *self {
            NativeFunction::Uninitialized(module, field) => Link::Unresolved(module@, field@),
            NativeFunction::Ready(target) => Link::Resolved(target),
        }
    }
}

/// The address or the length that an integer operand stands for: a negative
/// number is extended with its sign, and so lies beyond all memory.
pub open spec fn index_of(v: i32) -> nat {
    (if v >= 0 {
        v as int
    } else {
        v + usize::MAX + 1
    }) as nat
}

/// Reads an integer operand as an address or a length.
pub(crate) fn to_index(v: i32) -> (index: usize)
    ensures
        index == index_of(v),
{
    proof {
        let max = usize::MAX;
        assert(max <= !0usize) by (bit_vector);
        assert(v >= 0 ==> v as usize == v) by (bit_vector);
        assert(v < 0 ==> v as usize == v + (!0usize) + 1) by (bit_vector);
    }
    v as usize
}

/// The text that a call of the printing function shows, or its error. The
/// arguments are the address and the length of the text in memory.
pub open spec fn printed(memory: Seq<u8>, args: Seq<Value>) -> Result<Seq<char>, ErrorView> {
    if args.len() != 2 {
        Err(ErrorView::TypeMismatch)
    } else {
        match (args[0].as_i32(), args[1].as_i32()) {
            (Some(ptr), Some(len)) => {
                let start = index_of(ptr);
                let end = start + index_of(len);
                if start >= memory.len() || end > memory.len() {
                    Err(
                        ErrorView::AddrOutOfBound(
                            unsigned_32(ptr) as u32,
                            unsigned_32(len) as u32,
                        ),
                    )
                } else if !valid_utf8(memory.subrange(start as int, end as int)) {
                    Err(ErrorView::Custom("Invalid UTF-8"@))
                } else {
                    Ok(decode_utf8(memory.subrange(start as int, end as int)))
                }
            },
            _ => Err(ErrorView::ValueTypeMismatch),
        }
    }
}

/// `core::str::from_utf8`: a string slice of the bytes, if they are valid UTF-8,
/// and nothing if they are not.
#[verifier::external_body]
fn text_of(bytes: &[u8]) -> (text: Option<&str>)
    ensures
        match text {
            Some(s) => valid_utf8(bytes@) && s@ == decode_utf8(bytes@),
            None => !valid_utf8(bytes@),
        },
{
    core::str::from_utf8(bytes).ok()
}

/// The text that the arguments of the printing function point to.
pub fn text_to_print<'a>(memory: &'a [u8], args: &[Value]) -> (result: ExecuteResult<&'a str>)
    ensures
        match printed(memory@, args@) {
            Ok(text) => result matches Ok(s) && s@ == text,
            Err(error) => result matches Err(e) && e@ == error,
        },
{
    if args.len() != 2 {
        return Err(ExecuteError::TypeMismatch);
    }
    let ptr: i32 = args[0].get_i32()?;
    let len: i32 = args[1].get_i32()?;
    let start: usize = to_index(ptr);
    let n: usize = to_index(len);
    if start >= memory.len() || n > memory.len() - start {
        return Err(ExecuteError::AddrOutOfBound(to_unsigned_32(ptr), to_unsigned_32(len)));
    }
    match text_of(vstd::slice::slice_subrange(memory, start, start + n)) {
        Some(s) => Ok(s),
        None => Err(ExecuteError::Custom("Invalid UTF-8".to_owned())),
    }
}

/// Whether the machine itself has a function of that name.
pub open spec fn is_builtin(module: Seq<char>, field: Seq<char>) -> bool {
    module == "env"@ && field == "__wcore_print"@
}

/// What a name stands for, given what the host offers for it: the host comes
/// first, then the machine's own function.
pub open spec fn linked<E, H>(
    offer: Option<E>,
    module: Seq<char>,
    field: Seq<char>,
    hook: Option<H>,
) -> Option<NativeTarget<E, H>> {
    match offer {
        Some(entry) => Some(NativeTarget::Host(entry)),
        None => if is_builtin(module, field) {
            Some(NativeTarget::Print(hook))
        } else {
            None
        },
    }
}

/// What a call of a resolved function may do.
pub open spec fn may_call<R: NativeResolver>(
    target: NativeTarget<R::Entry, R::Hook>,
    before: RuntimeState<R, R::Hook>,
    args: Seq<Value>,
    after: RuntimeState<R, R::Hook>,
    result: Result<Option<Value>, ErrorView>,
) -> bool {
    match target {
        NativeTarget::Host(entry) => entry.allows(before, args, after, result),
        NativeTarget::Print(hook) => {
            &&& after == before
            &&& match printed(before.memory.bytes, args) {
                Ok(text) => shown_by(hook, text) && result == Ok::<Option<Value>, ErrorView>(None),
                Err(error) => result == Err::<Option<Value>, ErrorView>(error),
            }
        },
    }
}

/// What a call of a native function may do. An unresolved function is resolved
/// first, and stays resolved.
pub open spec fn may_invoke<R: NativeResolver>(
    link: Link<R::Entry, R::Hook>,
    before: RuntimeState<R, R::Hook>,
    args: Seq<Value>,
    link_after: Link<R::Entry, R::Hook>,
    after: RuntimeState<R, R::Hook>,
    result: Result<Option<Value>, ErrorView>,
) -> bool {
    match link {
        Link::Resolved(target) => {
            &&& link_after == link
            &&& may_call(target, before, args, after, result)
        },
        Link::Unresolved(module, field) => exists|offer: Option<R::Entry>|
            {
                &&& #[trigger] before.resolver.offers(module, field, offer)
                &&& match linked(offer, module, field, before.debug_print_hook) {
                    Some(target) => {
                        &&& link_after == Link::<R::Entry, R::Hook>::Resolved(target)
                        &&& may_call(target, before, args, after, result)
                    },
                    None => {
                        &&& link_after == link
                        &&& after == before
                        &&& result == Err::<Option<Value>, ErrorView>(ErrorView::FunctionNotFound)
                    },
                }
            },
    }
}

impl<E, H: DebugPrint> NativeFunction<E, H> {
    /// The machine's own function of a name, if it has one.
    fn builtin_resolve(hook: Option<H>, module: &String, field: &String) -> (target: Option<
        NativeTarget<E, H>,
    >)
        ensures
            target == linked(None::<E>, module@, field@, hook),
    {
        if *module != "env".to_owned() {
            return None;
        }
        if *field != "__wcore_print".to_owned() {
            return None;
        }
        Some(NativeTarget::Print(hook))
    }

    /// Resolves the function with what the host offers for its name.
    pub fn link(&mut self, offer: Option<E>, hook: Option<H>) -> (result: ExecuteResult<()>)
        ensures
            match old(self)@ {
                Link::Resolved(_) => {
                    &&& final(self)@ == old(self)@
                    &&& outcome(result) == Ok::<(), ErrorView>(())
                },
                Link::Unresolved(module, field) => match linked(offer, module, field, hook) {
                    Some(target) => {
                        &&& final(self)@ == Link::Resolved(target)
                        &&& outcome(result) == Ok::<(), ErrorView>(())
                    },
                    None => {
                        &&& final(self)@ == old(self)@
                        &&& outcome(result) == Err::<(), ErrorView>(ErrorView::FunctionNotFound)
                    },
                },
            },
    {
        let target: NativeTarget<E, H> = match self {
            NativeFunction::Ready(_) => return Ok(()),
            NativeFunction::Uninitialized(module, field) => match offer {
                Some(entry) => NativeTarget::Host(entry),
                None => match Self::builtin_resolve(hook, module, field) {
                    Some(target) => target,
                    None => return Err(ExecuteError::FunctionNotFound),
                },
            },
        };
        *self = NativeFunction::Ready(target);
        Ok(())
    }

    /// Calls the function; the first call resolves it.
    pub fn invoke<R>(
        &mut self,
        rt: &mut RuntimeInfo<R, H>,
        args: &[Value],
    ) -> (result: ExecuteResult<Option<Value>>) where
        R: NativeResolver<Entry = E, Hook = H>,
        E: NativeEntry<R, H>,

        ensures
            may_invoke::<R>(
                old(self)@,
                old(rt)@,
                args@,
                final(self)@,
                final(rt)@,
                outcome(result),
            ),
    {
        if let NativeFunction::Uninitialized(module, field) = self {
            let offer: Option<E> = rt.resolver().resolve(module.as_str(), field.as_str());
            let hook: Option<H> = rt.debug_print_hook();
            self.link(offer, hook)?;
        }
        match self {
            NativeFunction::Ready(NativeTarget::Host(entry)) => entry.call(rt, args),
            NativeFunction::Ready(NativeTarget::Print(hook)) => {
                let text: &str = text_to_print(rt.get_memory(), args)?;
                print_to(*hook, text);
                Ok(None)
            },
            NativeFunction::Uninitialized(_, _) => Err(ExecuteError::UnreachableExecuted),
        }
    }
}

} // verus!
