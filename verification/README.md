# wasm_core

An interpreter for a compact, stack-based form of WebAssembly code, verified with
Verus.

A program is a `Module`: functions made of `Opcode`s, with their types, data
segments, tables, globals, exports, and functions that the host supplies. A
`VirtualMachine` loads a module and runs its functions.

* `src/semantics.rs` and `src/machine.rs` say what an instruction and a run do.
* `src/instructions.rs` and `src/executor.rs` carry that out, and are proved to do
  nothing else.
* `src/int_ops.rs` and `src/fp_ops.rs` are the arithmetic of the instruction set.
* `src/laws.rs` states what holds of programs as a whole: runs leave the stack
  below them alone, have one outcome where the host leaves no choice, and return
  what the type of the function says; loads give back stores; and more.
* `app/` connects the library to closures, function pointers, floating-point
  numbers and serde.

A division by zero and a copy whose end is not a machine number have neither a
result nor an error. `execute` asks its caller for a function that does not come to
such an instruction and that ends; `execute_bounded` asks for neither, and says how
the run came to a halt.
