# nagalang

A small concatenative stack language: a reader, a type checker with
inference of polymorphic function types, and a compiler to Python. The
library under `src/` is written in Verus; every function has a contract that
pins its result down, and the laws that relate the parts are proved in
`src/laws.rs`. `app/` holds the command-line program.

## The language

A program is a sequence of items separated by white space:

| item          | example      | meaning                                              |
|---------------|--------------|------------------------------------------------------|
| integer       | `42`         | pushes the integer                                   |
| name          | `add`        | applies the function of that name                    |
| quotation     | `'add`, `'`  | pushes the function itself (`'` alone: the identity) |
| binding       | `$f`         | pops a function and names it `f`                     |
| application   | `!`          | pops a function and applies it                       |
| arity         | `(2 1)`      | the top value is a function taking 2, leaving 1      |
| definition    | `[ 1 add ]`  | pushes the function made of the enclosed items       |

A name is a run of characters other than white space and `[ ] ( ) ' $ !`
that does not start with a digit. The built-in functions are `'`, `id`,
`dup`, `drop`, `?` (choice on a boolean), `=`, `add` and `sub`.

## Layout

- `src/ast.rs`: the nodes of a program and the reader.
- `src/types.rs`, `src/bindings.rs`, `src/resolve.rs`, `src/merge.rs`: types,
  type variables and their bindings, substitution, and the merge of types.
- `src/stacklike.rs`: applying function types to the stack of a program or of
  a definition, and checking one node at a time.
- `src/builtins.rs`, `src/env.rs`: the built-in functions and the stores of names.
- `src/typecheck.rs`: checking a whole program.
- `src/compile.rs`: the compiler.
- `src/laws.rs`: properties that relate the functions above.
- `tests/`: tests on concrete programs.
- `app/main.rs`: reads a source file, checks it, writes `out.py`.
