# lox

A tree-walking interpreter for the Lox language, verified with Verus.

Layout of `src/`:

- `token.rs`, `expression.rs`, `statement.rs`: tokens, expressions, statements and
  values, each with its mathematical view.
- `scanner.rs`: source text to tokens, specified by the spec function `lex`.
- `grammar.rs`, `parser.rs` (with `parser/`): the grammar as spec functions over token
  sequences, and the recursive-descent parser proved to follow it.
- `environment.rs`: chains of scopes; `semantics.rs`: what evaluating an expression or
  running a statement does, as spec functions over the interpreter's state.
- `interpreter.rs` (with `interpreter/`): the interpreter, proved to follow
  `semantics.rs`; `operators.rs`, `sameness.rs`: the operators and equality on values.
- `globals.rs`: the native `clock`; `ieee.rs`: single- and double-precision arithmetic
  on bit patterns; `text.rs`: characters and strings.
- `laws.rs`, `semantic_laws.rs`, `scope_laws.rs`: properties that relate several parts.
- `runtime.rs`, `resolver.rs`: running a piece of source from start to end.

`app/main.rs` is the command-line front end (script file or prompt).

Floats are held as their bit patterns; the arithmetic on them is done by
`rustc_apfloat`, whose results the proofs name but do not compute, while their
comparison is computed on the bit patterns and proved. A variable expression that the
resolver has not placed at a scope distance is read from the global scope. Programs read the
clock through a log of readings: the interpreter's contracts hold for every sequence of
readings that begins with the ones taken.
