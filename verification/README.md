# formlogic_core

The core of FormLogic, a sandboxed scripting language with a JavaScript-like syntax,
written in Rust and verified with Verus. The library holds what the language does
between the parser and the interpreter; both are handed in by the host.

- `ast`: syntax trees.
- `code`, `codegen`, `rules`, `compiler`, `compile_*`: the stack compiler. `code` is its
  instruction set, `codegen` the elementary steps of code generation as mathematics,
  `rules` what code each construct stands for, and the rest compiles by those rules.
  `layout`, `sound`, `keep*` and `laws` prove that all code it generates consists of
  whole instructions.
- `rcode`, `rcodegen`, `rrules`, `rcompiler`, `rcompile_*`: the register compiler, laid
  out the same way. `rlayout`, `rsound`, `rkeep*` and `rlaws` prove what holds of all
  code that it generates: it consists of whole instructions, its jumps go to
  instructions, and the constants and registers that it uses are there.
- `parts`: the functions that objects are made of.
- `captures`, `scope_names`: which variables nested functions refer to.
- `builtins`: the names that every script can use.
- `object`, `hash`, `key`, `value`, `names`, `intern`, `realm`: objects, property tables,
  symbols.
- `heap`, `marking`, `migration`, `machine`: the heap and its garbage collector. What is
  reachable is kept, with all that it refers to; nothing else is marked.
- `engine`, `script`, `session`: compiling and caching programs, scripts that stay
  loaded, and calls into them.
- `render`, `json`, `text`: objects as text.
- `imports`: source files that include others.
- `config` and the `*_bridge` modules: limits, and what hosts provide.

`app/` holds what a host adds: configuration with callbacks, bridges behind trait
objects, and sessions around an interpreter.

Floating-point numbers are held by their bit patterns; their text comes from the host.
