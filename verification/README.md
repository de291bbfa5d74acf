# banya

A host for WebAssembly capability plugins and native functions, with an instruction
pipeline that chains their invocations. The library is written in Verus: its functions
carry `requires`/`ensures` contracts over mathematical models and are proved.

Layout:

- `src/` — the verified library.
  - `lib.rs` — `PluginHost` (loaded plugins, registered native functions, the shared
    data store), name resolution, and the pieces of a plugin's calls back into the host.
  - `json.rs` — `JsonValue` and its model `Json`; the calls into serde_json.
  - `text.rs` — character-level string helpers stated over `Seq<char>`.
  - `namemap.rs` — an insertion-ordered map keyed by strings.
  - `bindings.rs` — plugin metadata.
  - `builtin/` — the native-function trait, metadata builders, the registry, and the
    built-in functions (`logical-and`, `logical-or`, `logical-not`, `compare`,
    `string-ops`, `math`).
  - `instruction/` — callable references, invocations, conditions, steps and
    instructions; `${name}` interpolation; checking an instruction against a host; and
    running it one call at a time (`Instruction::start`, `Execution::resume`).
  - `args.rs` — the command line as plain values.
- `app/` — the program around the library: command-line parsing, reading the instruction
  file, wasmtime and WASI, the controller interface plugins import, the run loop that
  makes the calls the library asks for, and `math`'s floating-point arithmetic.
- `tests/` — tests of the library on concrete values.

Scope:

- Plugins exchange their arguments and results as JSON bytes. Conversions to and from a
  resource-based `Value` type, which would come from interface files that are not part
  of this project, are not held; they would also need a store of JSON resources on the
  host and floating-point numbers.
- Instructions are the generic `Instruction<Valid>` / `Instruction<Invalid>` of
  `instruction/model`. An older, non-generic instruction module (`CapabilityCall`,
  `ValidatedInstruction`) cannot be compiled beside it and is not held.
- The plugin-side SDK (guest bindings) is not part of the host.
