//! Programs: what a machine is loaded with and never changes.
use vstd::hash_map::StringHashMap;
use vstd::prelude::*;

use crate::opcode::Opcode;
use crate::value::Value;

verus! {

#[derive(Copy, Clone, Debug, PartialEq, Eq, Structural)]
pub enum ValType {
    I32,
    I64,
    F32,
    F64,
}

/// The type of a function: its parameters, then its results.
#[derive(Debug)]
pub enum Type {
    Func(Vec<ValType>, Vec<ValType>),
}

/// A function type as sequences.
#[verifier::ext_equal]
pub struct Signature {
    pub params: Seq<ValType>,
    pub results: Seq<ValType>,
}

impl View for Type {
    type V = Signature;

    open spec fn view(&self) -> Signature {
        match *self {
            Type::Func(params, results) => Signature { params: params@, results: results@ },
        }
    }
}

/// A copy of a list of value types.
fn copy_val_types(types: &Vec<ValType>) -> (copy: Vec<ValType>)
    ensures
        copy@ == types@,
{
    vstd::slice::slice_to_vec(types.as_slice())
}

/// Whether two lists of value types are the same.
fn same_val_types(a: &Vec<ValType>, b: &Vec<ValType>) -> (same: bool)
    ensures
        same == (a@ == b@),
{
    if a.len() != b.len() {
        return false;
    }
    let mut i: usize = 0;
    while i < a.len()
        invariant
            i <= a@.len(),
            a@.len() == b@.len(),
            forall|j: int| 0 <= j < i ==> a@[j] == b@[j],
        decreases a@.len() - i,
    {
        if a[i] != b[i] {
            return false;
        }
        i = i + 1;
    }
    assert(a@ =~= b@);
    true
}

impl Clone for Type {
    fn clone(&self) -> (copy: Type)
        ensures
            copy@ == self@,
    {
        match self {
            Type::Func(params, results) => Type::Func(
                copy_val_types(params),
                copy_val_types(results),
            ),
        }
    }
}

impl Type {
    /// Whether two types have the same parameters and the same results.
    pub fn same_as(&self, other: &Type) -> (same: bool)
        ensures
            same == (self@ == other@),
    {
        match (self, other) {
            (Type::Func(params, results), Type::Func(other_params, other_results)) => {
                same_val_types(params, other_params) && same_val_types(results, other_results)
            },
        }
    }

    pub fn n_params(&self) -> (n: usize)
        ensures
            n == self@.params.len(),
    {
        match self {
            Type::Func(params, _) => params.len(),
        }
    }

    pub fn n_results(&self) -> (n: usize)
        ensures
            n == self@.results.len(),
    {
        match self {
            Type::Func(_, results) => results.len(),
        }
    }
}

/// The instructions of a function.
pub struct FunctionBody {
    pub opcodes: Vec<Opcode>,
}

pub struct Function {
    pub name: Option<String>,
    /// Index of the function's type in [`Module::types`].
    pub typeidx: u32,
    /// The types of the locals that are not parameters.
    pub locals: Vec<ValType>,
    pub body: FunctionBody,
}

/// Bytes that are in memory when a machine starts.
pub struct DataSegment {
    pub offset: u32,
    pub data: Vec<u8>,
}

#[derive(Copy, Clone, Debug, PartialEq, Eq, Structural)]
pub enum Export {
    Function(u32),
}

/// What a module exports, by name.
pub struct Exports {
    entries: StringHashMap<Export>,
}

impl View for Exports {
    type V = Map<Seq<char>, Export>;

    closed spec fn view(&self) -> Map<Seq<char>, Export> {
        self.entries@
    }
}

/// What is exported under a name.
pub open spec fn found(exports: Map<Seq<char>, Export>, name: Seq<char>) -> Option<Export> {
    if exports.contains_key(name) {
        Some(exports[name])
    } else {
        None
    }
}

impl Exports {
    pub fn new() -> (exports: Exports)
        ensures
            exports@ == Map::<Seq<char>, Export>::empty(),
    {
        Exports { entries: StringHashMap::new() }
    }

    /// Exports `export` under `name`, in place of what had that name before.
    pub fn insert(&mut self, name: String, export: Export)
        ensures
            final(self)@ == old(self)@.insert(name@, export),
    {
        self.entries.insert(name, export);
    }

    pub fn get(&self, name: &str) -> (export: Option<Export>)
        ensures
            export == (if self@.contains_key(name@) {
                Some(self@[name@])
            } else {
                None
            }),
            export == found(self@, name@),
    {
        match self.entries.get(name) {
            Some(export) => Some(*export),
            None => None,
        }
    }
}

/// A table of functions for indirect calls.
pub struct Table {
    pub elements: Vec<Option<u32>>,
}

/// A global variable and the value that it starts with.
pub struct Global {
    pub value: Value,
}

/// A function that the host supplies, by the name of its module and its field.
pub struct Native {
    pub module: String,
    pub field: String,
    /// Index of the function's type in [`Module::types`].
    pub typeidx: u32,
}

pub struct Module {
    pub types: Vec<Type>,
    pub functions: Vec<Function>,
    pub data_segments: Vec<DataSegment>,
    pub exports: Exports,
    pub tables: Vec<Table>,
    pub globals: Vec<Global>,
    pub natives: Vec<Native>,
}

} // verus!
