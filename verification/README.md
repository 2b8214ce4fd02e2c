# tie

The core of the tie language: an interpreter, a generator of LLVM IR, and the driver that
turns a source file into a program or a library.

- `src/` is the verified library.
  - `ast` holds programs as the parser and semantic analysis leave them.
  - `value`, `builtins`, `pattern`, `msg`, `table`, `text`, `dict` are the values and the
    built-in functions of the language.
  - `semantics` says what one step of an evaluation does; `interp` does it. An evaluation
    asks its host (`host`) for everything that lies outside the language and goes on with the
    answer.
  - `lower` says what code a program means; `ir` writes it, with `emit`, `irtext`, `irtable`
    and `numbering`. `frames` and `calm` hold what every part of the generator keeps,
    `module_text` what the text of a module shows.
  - `args`, `driver`, `optimizer`, `backend`, `paths`, `http` plan a build and the requests
    that are made of other programs.
  - `laws` states what holds of the interpreter over many steps, `agreement` what interpreted
    and compiled programs have in common.
- `tests/` runs the library.
- `app/` is the command `tie-llvm` and the C interface of the run-time library: files, the
  network, processes, floating-point numbers, and the front end of the language.
