//! A verified core for a sandbox that runs untrusted WebAssembly guests under a
//! per-call memory and fuel budget: the guest/host ABI, the checks on every
//! value that crosses the boundary, and the registry of loaded modules.

pub mod abi;
pub mod tensor;
pub mod infer;
pub mod limits;
pub mod shape;
pub mod sandbox;
pub mod runtime;
pub mod guest;
