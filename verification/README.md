# raccoon

A lexer, parser, compiler, register machine and runtime core for the Raccoon scripting
language, written in Verus. How much each contract pins down varies: the lexer's is exact
for every source without string literals (and for templates of the usual shape), the
parser's and compiler's for a set of stated forms, the runtime's for each operation.

## Layout

- `src/lexer.rs`, `src/tokens.rs` — the lexer: source text to tokens, ending in `Eof`.
- `src/parser.rs`, `src/parser/` — the recursive-descent parser: tokens to the syntax tree
  of `src/ast.rs`, with error recovery.
- `src/ir/` — the intermediate representation: the instruction set, the compiler from the
  syntax tree, the optimizer (constant folding, removal of unreachable code and of
  `Nop`s, jump threading), and the machine that runs instructions one step at a time over
  a register file and an environment. What a step needs from the interpreter (truthiness,
  operators, the text of values, calls of natives, nested blocks) it asks of a `VmHost`.
- `src/runtime/` — runtime values, scopes, call stacks, registries of native functions,
  plugins, decorators and modules, the built-in `Future` and `Object` methods, the
  `string` and `array` modules and the `core_` string primitives, and
  conversions between runtime values and host values, and the choice of the signature a
  native library function is called with.
- `src/output_style.rs` — terminal colours and the colouring of printed values.
- `app/` — the `raccoon` command (file reading, printing, the loop that runs compiled
  programs on the machine), the floating-point `math` natives, and the loading of native
  libraries at run time.
- `tests/` — tests of the library.

Every function in `src/` carries a `requires`/`ensures` contract checked by Verus. The
`law_*` proof functions state properties that relate several operations.
