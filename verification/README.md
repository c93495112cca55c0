# mlir_backend

The logic of a compiler's MLIR codegen backend, verified with Verus: how a
session resolves to Triton compile options, which steps a codegen unit goes
through, what is written for a compiled module, and how thin LTO passes modules
through.

## Layout

- `src/text.rs`: text that can be a C string, comma lists, decimal numbers.
- `src/options.rs`: compile options of the CUDA and RISC-V backends.
- `src/features.rs`: target features and what they imply.
- `src/target.rs`: from a session to options, Triton target and kept texts.
- `src/module.rs`: modules and what Triton makes of them.
- `src/unit.rs`: the compilation of a codegen unit, step by step.
- `src/output.rs`: final artifacts, files to write, copies in place of linking.
- `src/lto.rs`: thin LTO as a pass-through.
- `src/backend.rs`: the backend as the compiler sees it.
- `tests/`: runs of the library on concrete values.
- `app/`: the parts that touch the compiler, MLIR, the Triton compiler and the
  file system. It needs the compiler's own crates and an LLVM with MLIR.

Nothing in `src/` is trusted beyond what vstd states of the standard library.
Public functions named `law_*` state what holds of several functions together.
