# funclang interpreter, verified

A tree-walking interpreter for funclang, a tiny functional language in the
style of OCaml: integers, booleans, functions and recursive functions with
partial application, lists, and pattern matching.

Layout of `src/`:

- `ast.rs` – the syntax tree (`Expr`, `Pattern`, operators), its model
  (`SpecExpr`, `SpecPattern`) and copying.
- `value.rs` – runtime values, lists, environments and errors, their models,
  `type_of`, and environment `lookup` / `extend` / `empty`.
- `semantics.rs` – the meaning of programs as spec functions: operators,
  consing, pattern matching and `eval_spec`, a big-step semantics with a
  bound on how deeply evaluations nest.
- `interpreter.rs` – the executable interpreter (`eval`, `eval_with_depth`,
  `try_match`, `apply_unop`, `apply_binop`, `apply_cons`), each proved to
  compute what `semantics.rs` says.
- `pretty.rs`, `text.rs` – the tree drawing of expressions and the text of
  values, proved against their spec functions.
- `laws.rs` – properties of the language proved over the semantics.

`app/main.rs` is the command-line front end (file or read-eval-print loop).
It reads programs with a parser generated by lalrpop; the grammar and the
generated parser are not part of this crate, so the front end does not build
on its own.
