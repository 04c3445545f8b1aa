# pen

Verified parts of the Pen compiler and runtime.

- `src/` is the library, verified with Verus: byte-string literals
  (`string`), reused records (`reused_record`), byte buffers (`arc_buffer`),
  the resolution of a module's imports (`imports`), the generic types of a
  module that need definitions (`generic_type_definition`) and the command
  line of the Ninja module builder (`ninja_module_builder`). Sets and maps
  hashed by FNV are reached through the trusted wrappers in
  `fnv_collections`.
- `app/` is ordinary Rust around it: running Ninja, the runtime's list
  functions, and the passes that read and build the compiler's intermediate
  representations and hand the library plain values.
- `tests/` holds the tests.
