# hail

Hail is a small typed scripting language run by a stack machine. This crate holds the
language itself, written in Verus. Every function is verified, and its contract says what
Verus proves of it; some contracts are exact (the natives, the diagnostics, one step of the
stack machine), others state only part of what the function does (the grammar of the
parser, the code that the compiler emits, what a native call hands to the host).

## Layout

- `src/scanner.rs`, `src/parser.rs`: source text to tokens, tokens to a syntax tree.
- `src/constructor.rs`: type checking and scope resolution, giving a checked tree; imports
  are resolved through an `ImportResolver`.
- `src/instructor.rs`: the checked tree to instructions for the stack machine.
- `src/executor.rs`: the stack machine, with optional limits on executed instructions and
  memory. `instruction_effect` states what one step does.
- `src/module.rs`, `src/types.rs`, `src/value.rs`: the types, values and registered natives
  that scripts see. A Rust type registered for scripts implements `TypePath`, which gives
  the full path it is also registered under.
- `src/natives.rs`, `src/standard.rs`, `src/stdlib.rs`: the natives of vectors, options,
  iterators, integers, booleans and strings, run by `StdHost`.
- `src/visualize.rs`, `src/docs.rs`: diagnostics with source context, and documentation of
  a module.
- `src/text.rs`, `src/memory_usage.rs`: text building and the memory a value takes.
- `app/`: the natives that need floating point (float arithmetic, and showing a float as
  text) and printing, hosted outside the verified library.

The `law_*` proof functions state properties that hold across operations, such as what a
read gives back after a write, or where a script call resumes after it returns.
