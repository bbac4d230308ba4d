# cplus

C+ is C with a handful of extensions: owned `let` variables that are moved and destroyed
at the end of their scope, plain C `unsafe` variables, `alias` borrows checked by the
compiler, `bind` blocks that attach functions to a struct, `fork` to derive a struct from
another, and `spawn` to run a function on a detached thread. `cplus` translates C+ sources
to C and builds them with gcc.

The library (`src/`) is verified with Verus:

- `lexer` (laws in `lexer_laws`), `parser` (with its model in `parser_spec`): tokens and
  syntax tree of a source, each exactly as the model prescribes, or the first syntax error.
  Plain C statements (`while`, `for`, prefix `&`, `*`, `!`, `-`) parse as they are.
  `ast_clone` copies syntax trees deeply, each copy with the same model as its source.
- `checker` (laws in `checker_laws`): the ownership rules — use after move, moves and
  writes of borrowed values, conflicting aliases — with the exact error message. `unsafe`
  variables are plain C variables: they are never moved, borrow-checked or destroyed.
- `codegen` (model in `codegen_spec`, laws in `codegen_laws`): the C text for a program,
  including destructor calls at the end of scopes and before `return`, and thread wrappers.
- `transpiler`, `report`: one source through parse, check and generation; the text shown
  for an ownership error.
- `builder`, `config`, `cli`: the gcc arguments for a project, its configuration, the
  command line and the files `init` writes.
- `laws`: properties across modules (error locations read back, forks, destruction of
  what a block owns, of nothing declared `unsafe`, and never of a returned value).

`app/` holds the program around it: command line parsing, reading `cplus.toml`, walking
the project's files, running gcc and pkg-config.
