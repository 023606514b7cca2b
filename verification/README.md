# fib

The front end of `fibc`, the compiler for the Fib language, written in Verus:
lexing, parsing, semantic analysis with generic instantiation, diagnostics,
the driver's decisions (options, output paths, import resolution, merging of
declarations) and the byte layout of types, each function with a contract that
Verus proves.

## Layout

- `src/text.rs` — character-level helpers shared by the rest.
- `src/diagnostics.rs` — the structured diagnostic and its rendering.
- `src/frontend/` — tokens, lexer, syntax tree, parser, typed program, and the
  analyzer (`analyze/`: types and aliases, the coercion rule, escape
  sequences, expressions, statements, functions, generics and their cache).
- `src/backend/lowering/` — lowering errors and the layout rules of types.
- `src/driver.rs`, `src/driver/` — compilation options, output paths, import
  resolution as a dialogue (the resolver asks for files, the caller reads
  them), merging of imported and local declarations, and error reports.
- `src/cli.rs` — the command line's arguments as the driver takes them.
- `app/main.rs` — the `fibc` binary: argument parsing with clap, file reads,
  printing.
- `tests/` — the test suite.

Code generation through LLVM is not part of this build: the stages that need
it (`--emit=llvm`, `--emit=bin`) report that the backend is unavailable.
