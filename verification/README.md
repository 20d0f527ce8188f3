# kernc

Verified parts of the front end of the compiler for the Kern systems
language, written in Verus. There is no lexer here, and the collection of
definitions, the type checker's walk over whole expressions and the lowering
of whole functions are not part of this crate; what is here are the pieces
those passes are built from, and the parts of them that stand on their own.

- `src/utils.rs`: spans, the string interner and a string-to-string map.
- `src/parser/`: tokens, the AST, operator tables, literal tokens, the
  decoding of string escapes, and an expression parser over tokens
  (precedence climbing: operators, parentheses, names and integer literals,
  `if`, `for`, `return`, declarations, field access, indexing and slicing;
  the forms whose nodes hold a list or a type are left to the parser of the
  whole language).
- `src/sema/`: the type registry (hash-consed types), scopes and symbols,
  conditional compilation (`#[if(...)]` conditions), the import pass (module
  paths, visibility, re-exports, repeated passes until nothing changes),
  resolving written paths such as `m.T[u8]` to types, and the type checker:
  coercions and their diagnostics, unification, substitution of generic
  parameters, constant evaluation (operators, `const` names with a depth
  limit, the integer intrinsics), type sizes and alignments, the typing of
  operators, casts, literals and names, the exhaustiveness of `switch`, and
  the messages of their errors.
- `src/mast/`: the monomorphized AST and lowering to it: cast kinds, inline
  assembly constraints, short-circuit operators, calls (intrinsics such as
  `@sizeOf` and `@trap`, and the instances of generic functions), lambdas
  lifted to functions of their own that capture nothing, and the ids of
  monomorphized instances.
- `src/driver/`: diagnostics, the compilation context, target machines and
  the command line.
- `app/main.rs`: the `kernc` program: environment, files and printing.

Every public function states what it does in `requires`/`ensures` and is
proved by Verus; the `law_*` proof functions state properties that span
several functions.
