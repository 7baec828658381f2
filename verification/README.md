# marie-c-compiler

A compiler for a small subset of C that produces assembly for the MARIE machine, written
in Verus: the lexer, parser, semantic analysis, target validation and code generation are
verified against specifications that state their results exactly. The pipeline that
chains them is generic over the backend; for a backend other than MARIE its result is
stated through what that backend's own specifications say of validation and emission.

## Layout

- `src/lexer.rs`: scanning (`spec_scan` says which tokens a text has, `lex` produces them).
- `src/grammar.rs`, `src/parser.rs`: the grammar as functions on token streams, and the
  recursive-descent parser proved to follow it; `src/syntax_errors.rs` says which syntax
  error the parser reports; `src/grammar_facts.rs` shows that parsing depends only on the
  tokens' contents.
- `src/ast.rs`, `src/pretty.rs`: the syntax tree, its views, and its textual dump.
- `src/semantic.rs`: typing and scoping rules (`spec_analyze`) with the checker, and the
  rules' consequences (unique names per scope, statements keep scopes).
- `src/codegen/`: the model of MARIE emission (`model.rs`), the emitter proved against it
  (`emitter.rs`), target validation (`validation.rs`), properties of emission
  (`properties.rs`), and a model of the MARIE machine with what the code for comparison
  and logical operators computes when it runs (`machine.rs`).
- `src/compiler.rs`: the pipeline; `src/paths.rs`: output file names.
- `app/main.rs`: the command-line program (argument parsing and file I/O).
- `tests/`: executable tests.

## Use

```
marie-c-compiler input.c [-o output.mas]
```

## Language

Besides `int`, `char`, pointers, arrays, functions, `if`/`while`/`for`, `++`/`--` and inline
`asm`, the compiler accepts structs (with `.` and `->` member access, one data word per
field), enums (enumerators fold to their integer values) and `typedef` names for any of
these. A global whose initializer is a constant starts with that value in its data cell; a
scalar global whose initializer is computed (`int b = a + 1;`) is set by start-up code that
runs, in declaration order, before `main` is called. Brace lists must hold constants.

## Design notes

- `TargetValidation::validate` has no default body. Its contract says that the result is
  what the target's `validates` specification admits; a default body returning `Ok(())`
  would have to be proved against that specification for every target, which Verus cannot
  do for a hook each target may override. A backend that refuses nothing implements
  `validate` as `Ok(())` (and keeps the default `validates`, which admits any result).
- Symbol tables are `SymbolMap`s, vectors of name/value pairs searched from the front,
  whose view is a sequence of pairs. With `String` keys a `HashMap`'s contents cannot be
  related to its view in the contracts, so the tables are kept in a form whose every
  lookup is specified.
