//! What native functions are resolved to, and what their calls do.
use vstd::prelude::*;
use vstd::utf8::{decode_utf8, valid_utf8};

use crate::error::ErrorView;
use crate::laws::flow::law_index_reading;
use crate::laws::integers::law_readings_32;
use crate::laws::steps::{is_i32, no_i32};
use crate::native::{linked, may_invoke, printed, Link, NativeEntry, NativeResolver, NativeTarget};
use crate::runtime::{DebugPrint, RuntimeState};
use crate::value::Value;

verus! {

/// What the printing function answers, given two integers: the address of a text in
/// memory and its length. The text has to start and end within memory and to be valid
/// UTF-8.
pub proof fn law_printed_text(memory: Seq<u8>, args: Seq<Value>, ptr: i32, len: i32)
    requires
        args.len() == 2,
        is_i32(args[0], ptr),
        is_i32(args[1], len),
    ensures
        ({
            let start = (ptr as usize) as int;
            let end = start + (len as usize);
            let bytes = memory.subrange(start, end);
            if start >= memory.len() || end > memory.len() {
                printed(memory, args) == Err::<Seq<char>, ErrorView>(
                    ErrorView::AddrOutOfBound(ptr as u32, len as u32),
                )
            } else if valid_utf8(bytes) {
                printed(memory, args) == Ok::<Seq<char>, ErrorView>(decode_utf8(bytes))
            } else {
                printed(memory, args) == Err::<Seq<char>, ErrorView>(
                    ErrorView::Custom("Invalid UTF-8"@),
                )
            }
        }),
{
    law_index_reading(ptr);
    law_index_reading(len);
    law_readings_32(ptr, 0);
    law_readings_32(len, 0);
}

/// What the printing function answers to other arguments.
pub proof fn law_print_arguments(memory: Seq<u8>, args: Seq<Value>)
    ensures
        args.len() != 2 ==> printed(memory, args) == Err::<Seq<char>, ErrorView>(
            ErrorView::TypeMismatch,
        ),
        args.len() == 2 && (no_i32(args[0]) || no_i32(args[1])) ==> printed(memory, args) == Err::<
            Seq<char>,
            ErrorView,
        >(ErrorView::ValueTypeMismatch),
{
}

/// A name stands for the function that the host offers for it. One that the host does
/// not offer stands for the printing function, with the hook of the moment, if it is
/// that of `__wcore_print` in `env`; any other stands for nothing.
pub proof fn law_linking<E, H>(
    offer: Option<E>,
    module: Seq<char>,
    field: Seq<char>,
    hook: Option<H>,
)
    ensures
        offer matches Some(entry) ==> linked(offer, module, field, hook) == Some(
            NativeTarget::<E, H>::Host(entry),
        ),
        offer is None && module == "env"@ && field == "__wcore_print"@ ==> linked(
            offer,
            module,
            field,
            hook,
        ) == Some(NativeTarget::<E, H>::Print(hook)),
        offer is None && !(module == "env"@ && field == "__wcore_print"@) ==> linked(
            offer,
            module,
            field,
            hook,
        ) is None,
{
}

/// Whether a call of the printing function does what it is for: it leaves the runtime
/// as it was, and either fails or hands its text to its hook, if it has one.
pub open spec fn prints<R: NativeResolver>(
    hook: Option<R::Hook>,
    before: RuntimeState<R, R::Hook>,
    args: Seq<Value>,
    after: RuntimeState<R, R::Hook>,
    result: Result<Option<Value>, ErrorView>,
) -> bool {
    &&& after == before
    &&& match printed(before.memory.bytes, args) {
        Ok(text) => {
            &&& result matches Ok(value) && value is None
            &&& hook matches Some(h) ==> h.shown(text)
        },
        Err(error) => result == Err::<Option<Value>, ErrorView>(error),
    }
}

/// A call of a resolved function is a call of what it is resolved to.
pub proof fn law_call_of_resolved<R: NativeResolver>(
    target: NativeTarget<R::Entry, R::Hook>,
    before: RuntimeState<R, R::Hook>,
    args: Seq<Value>,
    link: Link<R::Entry, R::Hook>,
    after: RuntimeState<R, R::Hook>,
    result: Result<Option<Value>, ErrorView>,
)
    requires
        may_invoke::<R>(Link::Resolved(target), before, args, link, after, result),
    ensures
        link == Link::<R::Entry, R::Hook>::Resolved(target),
        target matches NativeTarget::Host(entry) ==> entry.allows(before, args, after, result),
        target matches NativeTarget::Print(hook) ==> prints::<R>(hook, before, args, after, result),
{
}

/// A call of a function that is not resolved asks the host for it, by its name, and
/// resolves it first. Where there is no such function, nothing changes.
pub proof fn law_call_of_unresolved<R: NativeResolver>(
    module: Seq<char>,
    field: Seq<char>,
    before: RuntimeState<R, R::Hook>,
    args: Seq<Value>,
    link: Link<R::Entry, R::Hook>,
    after: RuntimeState<R, R::Hook>,
    result: Result<Option<Value>, ErrorView>,
)
    requires
        may_invoke::<R>(Link::Unresolved(module, field), before, args, link, after, result),
    ensures
        exists|offer: Option<R::Entry>| #[trigger]
            before.resolver.offers(module, field, offer) && match offer {
                Some(entry) => {
                    &&& link == Link::<R::Entry, R::Hook>::Resolved(NativeTarget::Host(entry))
                    &&& entry.allows(before, args, after, result)
                },
                None => if module == "env"@ && field == "__wcore_print"@ {
                    &&& link == Link::<R::Entry, R::Hook>::Resolved(
                        NativeTarget::Print(before.debug_print_hook),
                    )
                    &&& prints::<R>(before.debug_print_hook, before, args, after, result)
                } else {
                    &&& link == Link::<R::Entry, R::Hook>::Unresolved(module, field)
                    &&& after == before
                    &&& result == Err::<Option<Value>, ErrorView>(ErrorView::FunctionNotFound)
                },
            },
{
}

} // verus!
