# akrs

A verified library for visual-novel scripts, and the programs around it.

- `src/` is the library. It holds the language (lexer, parser, checker and the
  machine that runs a script), the conversion of Ren'Py scripts, the blueprint
  of a script as a graph of nodes, and the rules of the editor and of the
  command line. Every function has a contract, and the laws that relate
  functions are public proof functions whose names begin with `law_`.
- `tests/` runs the library.
- `app/` is ordinary Rust: files, processes, the terminal, the window, and
  floating-point arithmetic.

Floating-point values are bit patterns in the library, and the decimal numbers
of a script stand as they are written. Where the machine needs one computed it
asks its host for it.
