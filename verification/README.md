# codegen-meta

Two parts of code generation, verified with Verus.

- `src/cdsl` holds the vocabulary of instruction descriptions: value types, sets of value types
  (`typeset`, built with `builder`), and polymorphic type variables (`typevar`) that are derived
  from one another. `refusal` says why a variable cannot be derived. `laws` states what holds of
  sets and variables as a whole.
- `src/linker` generates the Rust function that binds the functions of an interface module to a
  linker: `tokens` builds token streams, `module` reads modules, `glue` generates the code for one
  function and `link` for a whole module.

`app` adds the traits that the library's types cannot have, and panics where the library returns
an error.
