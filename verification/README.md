# snacc_compiler

The verified core of the Snacc compiler's semantic checker and of the
decisions its LLVM backend makes, written in Verus.

`src/` holds the library. Every function in it carries a contract, and Verus
proves all of them but one: `moves::share_deferred` clones an `Rc`, and its
contract is trusted. The modules:

- `ty`, `ast`, `checked`, `literals`: the type table, the syntax the checker
  reads, the checked program it produces, and literals spelled as written.
- `convert`, `places`, `moves`, `views`, `ownership`: implicit conversions,
  places and their overlap, move tracking and cleanup plans, view borrows,
  and move-only types.
- `resolve`, `narrowing`, `names`, `mentions`: place resolution, type tests
  and exhaustiveness, diagnostic names and specialization symbols, and
  mentions of locals.
- `expressions`, `statements`, `blocks`, `branches`, `calls`, `methods`,
  `builtins`, `arguments`, `construction`, `exits`, `deferral`: the rules each
  construct is checked by, given its already-checked parts.
- `program`, `declarations`, `generics`, `completion`: program-wide rules:
  receiver effects, bridge declarations, generic validation, and the outcome.
- `symbols`, `lowering`, `layout`: the backend's runtime symbols, tags, and
  layout order.

`tests/` exercises the library on concrete programs. `app/` holds what the
library leaves to the host: queries of the linked LLVM, and the evaluation
and spelling of floating-point values.
