# formawasm

formawasm turns modules of a typed intermediate representation into
WebAssembly components. A module's functions, methods, closures and text
literals become one core module; its public surface becomes a WIT document;
both together become a component that any host of the Component Model can run.

```text
IrModule ──► preflight check ──► core module ──┐
        └──► public surface ──► WIT document ──┴──► component
```

## Layout

- `src/` is the library. Its functions are verified with Verus against
  contracts that say what they return for every input. The exceptions are the
  small functions that call an outside crate or a part of the standard library
  that Verus does not know: their bodies are not verified, and their contracts
  are believed.
  - `ir` holds the modules that are compiled; `preflight`, `survey` and `wit`
    read them, `module_lowering` and `lower` turn them into `instr`uctions,
    `module` collects functions and tables, `encode` writes the bytes.
  - `resolution` and `component` hand documents and core modules to
    `wit-parser` and `wit-component`, `encode` hands sections to
    `wasm-encoder`. What these crates do is stated in the contracts that are
    believed.
  - `binary` tells core modules of this library from others: those that
    describe a world already, import intrinsics or export them are not wrapped.
  - `backend` puts the steps together.
- Theorems about the whole are the proof functions whose names begin with
  `law_`. Some of the files hold nothing else: `clean` (which modules pass the
  check), `surface` (what a component exports), `lower::progress` (code is well
  nested and names declared locals, scratch locals suffice), `lower::storage`
  (what is stored in a field is read back), `lower::ranges` (how many rounds a
  loop over a range makes), and in `module_lowering`
  `order`, `placement`, `helpers`, `exports`, `tables`, `texts`, `slots` and
  `inheritance` (functions come in their order, calls reach the functions that
  they mean, literals lie in the static data, a value that crosses the boundary
  is read from each of its slots once, a trait has the methods it inherits).
  `module_lowering::nesting` proves that only types that contain themselves are
  too deep for the boundary.
- `machine` says what instructions do when they run. Over it, `runtime` proves
  what the runtime helpers compute, and `module_lowering::boundary` that texts
  cross the boundary.
- `tests/` runs the library: exact documents, layouts and instructions, and
  core modules that are executed.
- `app/` is the command-line driver. It reads source files through formalang,
  runs its passes, and converts its modules. With the feature `wasm-opt` it
  optimizes core modules before they are wrapped.
