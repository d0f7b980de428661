# hook_map

Hooks for the dynamic analysis of WebAssembly, generated on demand and verified with
Verus.

- `src/wasm.rs`, `src/mnemonic.rs`: instructions, types, and the names of instructions
- `src/hook.rs`, `src/generate.rs`: what a hook is, and which one answers which request
- `src/table.rs`: the hooks that were asked for, in order, each under its own name
- `src/lock.rs`, `src/map.rs`: the table behind a lock, shared among threads
- `src/hook_names.rs`, `src/parameter_names.rs`, `src/order.rs`, `src/laws.rs`: what holds
  of all of it
- `src/text.rs`: numbers in decimal, joined lists, names without dots
- `app/`: the map over the modules of the `wasabi_wasm` crate
