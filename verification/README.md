# neodiff

The logic of a differential fuzzer for EVM implementations, verified with Verus.

Two EVMs run the same bytecode and log each instruction as a line of JSON. The fuzzer keeps
inputs whose logs show a new *type hash* (opcode, types of the two topmost stack items, memory
in use), and stores those on which the two logs differ in a way not seen before.

- `src/` is the library. Its contracts state what each function returns; the proof functions
  named `law_*` state what holds across functions.
- `app/` is the fuzzer: the command line, the JSON parser, and the glue to the fuzzing engine
  (LibAFL), which has to be supplied.
- `tests/` runs the library on concrete values.

What is taken on trust stands in `src/checksum.rs` (ahash), `src/history.rs` (bit-vec),
`src/hex_input.rs` (hex) and `src/text.rs` (the standard library), each with a comment that
says what is claimed.
