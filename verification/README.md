# rayzor_ir

The mid-level intermediate representation of a compiler for a Haxe-like
language, verified with Verus: building it, two of its passes (freeing
allocations that do not escape, inlining), closure environments, the
`.blade` artifact header, and lowering from the front end's IR to SSA form:
type conversion, signature registration, the lowering of expressions,
statements, patterns, conditionals and loops (with the phi nodes that carry
variables through them), of function bodies and of whole modules, the
variable analyses that place phi nodes, the registration of methods and
constructors, the return types and final returns of lambdas, the operator
mapping, the registration of type definitions and the gathering of
optimization hints.

The front end's IR is modelled by the part of it that this lowering reads
(`hir`): literals, variables, unary and binary operators (`&&` and `||`
short-circuit), casts, conditional expressions, calls, field reads and
blocks as expressions; declarations, assignments, returns, `break`, `continue`,
conditionals, `while` and `do`-`while` loops and labelled blocks as
statements; module-level functions. Lowering knows no symbol table, so
locals are named from the source pattern or from the variable's symbol
number, and it keeps no table of register types, so a declared variable's
local takes its declared type. Method calls through the stdlib runtime
mapping, string concatenation, boxing of dynamic values, field and index
targets of assignments, classes' methods and constructors as module
members, and module globals are not part of the model; a property's getter
is found among the module's functions by name.

## Layout

- `src/` — the verified library:
  - `ids`, `types`, `instructions`, `blocks`, `functions`, `module`: the IR
    itself (registers, blocks, functions in SSA form, modules with their
    type definitions, string pool);
  - `builder`: building functions block by block (`IrBuilder`) and their
    signatures (`FunctionSignatureBuilder`);
  - `environment_layout`: closure environments, and the code that loads and
    stores captured variables;
  - `externs`: the known signatures of runtime and stdlib functions, and
    their registration in a module;
  - `insert_free`: the pass that frees heap allocations that do not escape;
  - `inlining`: the call graph, recursion detection, and the inlining of call
    sites;
  - `blade`: the header of `.blade` artifacts and what makes a decoded
    artifact acceptable;
  - `hir`: what lowering reads of the front end's IR and type table;
  - `lowering`: the conversion of front-end types, function and method
    signatures and their registration (the first pass of lowering), the
    lowering state (`HirToMirContext`) with the lowering of `break`,
    `continue` and the implicit final return, the mapping of operators,
    and the lowering result types;
  - `variable_uses`: which variables a body refers to, binds or assigns,
    the sets that decide where lowering puts phi nodes;
  - `body_lowering`: the lowering of expressions, each stated by a relation
    between the lowering state before and after;
  - `conditional`: conditional expressions and the short-circuit operators,
    whose arms join in a merge block with phi nodes;
  - `statements`: the lowering of statements, patterns, blocks,
    conditionals and loops, with the phi nodes at loop headers, loop exits
    and merges;
  - `module_lowering`: the lowering of function bodies and modules, and the
    entry points `lower_hir_to_mir*`;
  - `field_access`: reading fields through their class's slots, and
    properties through their getters;
  - `pattern_test`: the code that tests a value against a pattern;
  - `loop_depth`: dominance, natural loops and the loop nesting depth of
    each block, which the call graph of `inlining` records for each call;
  - `constructors`: the registration of class constructors, found by
    class symbol, type and name;
  - `lambdas`: the function created for a lambda before its body is
    lowered, the return type read off its built body, and the return that
    ends its entry block;
  - `type_metadata`: the type definitions registered for declared classes,
    interfaces, enums, abstracts and aliases, with the field indices that
    field access reads;
  - `enum_registration`: the enums recorded for runtime type information;
  - `ssa_hints`: the optimization hints that functions carry as attributes,
    gathered into sets of functions;
  - `text`: decimal numbers in text.
- `app/` — what is not verified: the floating-point inlining cost model and
  the inlining pass loop, the encoding of `.blade` files with `postcard` and
  the file system, and the pass interface.
- `tests/` — tests of the library on concrete values.

Every function of `src/` has a contract; the properties that relate several
operations (freshness of registers, idempotence of the insert-free pass,
recursion through call cycles, disjoint environment slots, registration of
runtime functions, ...) are stated and proved as public proof functions next
to the operations they speak of. Each lowering function is specified by a
relation between the lowering state before and after, which names the
intermediate states; every lowering of an expression or statement also
states that the stack of loops being lowered is left as it was and that a
block being built stays followed by one.
