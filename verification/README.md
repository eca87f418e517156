# tails

The toolchain of a TypeScript-first runtime, written in Verus: a lexer for
TypeScript source, a parser for its statements, expressions (with `as` type
assertions, optional chaining and spread in array literals) and variable type
annotations, a type checker over the built-in, literal, union, array, tuple,
object and named types, and a bytecode generator for the core of the language
(literals, variables, operators with short-circuiting, assignments and
updates, calls, `new`, conditional, template, array (with spread elements),
object, optional member, `await` and `super` expressions, functions and arrow
functions, `if`, `switch`, the loops with `break` and `continue`,
`for`-`in`/`of`, `yield`, `throw` and `try`/`catch`/`finally`).
Beside the compiler: `.env` loading, the `path`, `fs`, `os` and `process`
helpers of the native modules, the value ABI shared with native code, and the
logic of the `tails` command line.

The bytecode generator reports an internal error for what it does not compile
yet: classes, modules and optional calls. Function types, and method
signatures inside object types, are not parsed in annotations.

- `src/` is the verified library. Its contracts are stated over spec
  functions written next to them. The lexer, type checker and bytecode
  generator are specified exactly; the parser's contracts state the exact
  result for the simple forms (literals, identifiers, number statements, the
  sum or difference of two numbers, imports, empty `for` headers, class
  member flags, type keywords) and the error kinds and progress in general.
  The public `law_*` proof functions state properties that relate several
  calls.
- `tests/` runs the library on concrete inputs.
- `app/` is the `tails` command: argument handling, file and process I/O,
  file watching and loading native libraries, around the library's decisions.
