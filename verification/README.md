# kelvane

A sandbox host for untrusted WebAssembly guests that run under a per-call
memory cap and fuel budget and may ask the host for a neural-network
inference, with its core verified in Verus.

- `src/` — the verified library:
  - `abi` — the packed `(ptr << 32) | len` return of a guest's `process`, and
    the bounds check on the output region it names;
  - `tensor` — little-endian 32-bit words, the wire form of `f32` tensors;
  - `infer` — the checks on a guest's `kelvane::infer` request and the reply
    the host writes back;
  - `shape` — a model's flat input length and the input-length check;
  - `limits` — the per-call budget and its defaults;
  - `guest` — the sizes a guest's exports act on;
  - `sandbox` — the wasmtime and WASI types and one trusted wrapper per engine
    operation;
  - `runtime` — the registry of loaded modules (load, hot-swap, call counts)
    and the sandboxed invocation.
- `app/` — what stays outside the proofs: reading module files, the `tract`
  ONNX backend and the `kelvane::infer` import that serves it (both compute on
  `f32`), the guest SDK's raw-pointer plumbing, and the example guests.
- `tests/` — scenario tests, including hostile guests written in WAT and
  `kelvane::infer` requests served by a stub scorer.

Inference runs on the CPU through `tract`; there is no GPU backend.

`kstring` is listed in `Cargo.toml` only to hold a dependency of `tract`'s
build at 2.0.2: later releases need a newer Rust toolchain than the one this
crate builds with.
