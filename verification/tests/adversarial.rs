//! Hostile guests, authored as WAT, driven through `ModuleRuntime::invoke`: the
//! host must contain each one (an `Err`, or a bounded documented result) and
//! never crash, hang, leak state across calls, or read out of bounds.

use kelvane::infer::{infer_input_region, infer_reply, INFER_FAILED};
use kelvane::limits::ExecutionLimits;
use kelvane::runtime::{ModuleRuntime, RuntimeError};
use kelvane::sandbox::HostState;
use wasmtime::{Caller, Extern};

/// A WAT expression that returns the packed `(ptr << 32 | len)` i64.
fn packed(ptr: u32, len: u32) -> String {
    format!(
        "(i64.or (i64.shl (i64.const {ptr}) (i64.const 32)) (i64.const {len}))",
        ptr = ptr as i32,
        len = len as i32
    )
}

fn default_rt() -> ModuleRuntime {
    ModuleRuntime::new(ExecutionLimits::default()).expect("construct runtime")
}

/// Invoke a one-off WAT module with the given input, returning the host result.
fn run_wat(name: &str, wat: &str, input: &[u8]) -> Result<Vec<u8>, RuntimeError> {
    let mut rt = default_rt();
    rt.load_module(wat.as_bytes(), name)?;
    rt.invoke(name, input)
}

fn invoke(rt: &mut ModuleRuntime, id: &str, input: &[u8]) -> Result<Vec<u8>, RuntimeError> {
    rt.invoke(id, input)
}

#[test]
fn missing_process_export_is_error() {
    let wat = r#"(module
        (memory (export "memory") 1)
        (func (export "module_alloc") (param i32) (result i32) i32.const 1024))"#;
    let r = run_wat("missing_process", wat, b"{}");
    assert!(r.is_err(), "module with no `process` export must be rejected");
}

#[test]
fn missing_memory_export_is_error() {
    let wat = r#"(module
        (func (export "module_alloc") (param i32) (result i32) i32.const 1024)
        (func (export "process") (param i32 i32) (result i64) i64.const 0))"#;
    let r = run_wat("missing_memory", wat, b"{}");
    assert!(r.is_err(), "module with no `memory` export must be rejected");
    assert!(matches!(r, Err(RuntimeError::NoMemoryExport)));
}

#[test]
fn wrong_alloc_signature_is_error() {
    // `module_alloc` typed i32 -> i64 instead of i32 -> i32.
    let wat = r#"(module
        (memory (export "memory") 1)
        (func (export "module_alloc") (param i32) (result i64) i64.const 1024)
        (func (export "process") (param i32 i32) (result i64) i64.const 0))"#;
    let r = run_wat("wrong_alloc_sig", wat, b"{}");
    assert!(r.is_err(), "wrong module_alloc signature must be rejected");
}

#[test]
fn alloc_returns_null_is_error() {
    let wat = r#"(module
        (memory (export "memory") 1)
        (func (export "module_alloc") (param i32) (result i32) i32.const 0)
        (func (export "process") (param i32 i32) (result i64) i64.const 0))"#;
    let r = run_wat("alloc_null", wat, b"hello");
    assert!(r.is_err(), "null alloc pointer must be rejected");
    assert!(matches!(r, Err(RuntimeError::NullAlloc { len: 5 })));
}

#[test]
fn process_trap_is_error_not_crash() {
    let wat = r#"(module
        (memory (export "memory") 1)
        (func (export "module_alloc") (param i32) (result i32) i32.const 1024)
        (func (export "process") (param i32 i32) (result i64) unreachable))"#;
    let r = run_wat("process_trap", wat, b"{}");
    assert!(r.is_err(), "a trapping process must surface as Err");
}

#[test]
fn output_len_over_cap_is_error() {
    // len = 2 MiB > MAX_OUTPUT_BYTES (1 MiB).
    let wat = format!(
        r#"(module
        (memory (export "memory") 1)
        (func (export "module_alloc") (param i32) (result i32) i32.const 1024)
        (func (export "process") (param i32 i32) (result i64) {}))"#,
        packed(0, 2 * 1024 * 1024)
    );
    let r = run_wat("len_over_cap", &wat, b"{}");
    assert!(r.is_err(), "output length over the 1 MiB cap must be rejected");
}

#[test]
fn output_region_out_of_bounds_is_error() {
    // ptr near end of a 1-page (64 KiB) memory, len pushing past it.
    let wat = format!(
        r#"(module
        (memory (export "memory") 1)
        (func (export "module_alloc") (param i32) (result i32) i32.const 1024)
        (func (export "process") (param i32 i32) (result i64) {}))"#,
        packed(0x0000_F000, 0x0000_4000)
    );
    let r = run_wat("out_oob", &wat, b"{}");
    assert!(r.is_err(), "out-of-bounds output region must be rejected");
}

#[test]
fn garbage_packed_return_is_error() {
    // Both words huge; the length word alone exceeds the cap.
    let wat = format!(
        r#"(module
        (memory (export "memory") 1)
        (func (export "module_alloc") (param i32) (result i32) i32.const 1024)
        (func (export "process") (param i32 i32) (result i64) {}))"#,
        packed(0x7FFF_FFFF, 0x7FFF_FFFF)
    );
    let r = run_wat("garbage_packed", &wat, b"{}");
    assert!(r.is_err(), "garbage packed return must be rejected");
}

#[test]
fn max_pointer_stays_in_bounds_check() {
    // ptr = u32::MAX, len = exactly the cap (1 MiB): must be caught as out of
    // bounds, never as a panic.
    let wat = format!(
        r#"(module
        (memory (export "memory") 1)
        (func (export "module_alloc") (param i32) (result i32) i32.const 1024)
        (func (export "process") (param i32 i32) (result i64) {}))"#,
        packed(0xFFFF_FFFF, 1024 * 1024)
    );
    let r = run_wat("max_ptr", &wat, b"{}");
    assert!(r.is_err(), "max-pointer output region must be rejected as OOB");
}

#[test]
fn null_ptr_nonzero_len_reads_within_guest_memory() {
    // ptr=0, len=100 decodes in bounds (offset 0 is valid guest memory), so the
    // host returns 100 bytes of the guest's own memory.
    let wat = format!(
        r#"(module
        (memory (export "memory") 1)
        (func (export "module_alloc") (param i32) (result i32) i32.const 1024)
        (func (export "process") (param i32 i32) (result i64) {}))"#,
        packed(0, 100)
    );
    let out = run_wat("null_ptr_len", &wat, b"{}").expect("in-bounds read should succeed");
    assert_eq!(out.len(), 100, "returns exactly the claimed length, bounded");
}

#[test]
fn infinite_loop_hits_fuel_limit_not_hang() {
    let wat = r#"(module
        (memory (export "memory") 1)
        (func (export "module_alloc") (param i32) (result i32) i32.const 1024)
        (func (export "process") (param i32 i32) (result i64)
            (loop $l br $l)
            i64.const 0))"#;
    let r = run_wat("infinite_loop", wat, b"{}");
    assert!(r.is_err(), "infinite loop must trap on fuel exhaustion, not hang");
}

#[test]
fn deep_recursion_traps_not_crash() {
    let wat = r#"(module
        (memory (export "memory") 1)
        (func $rec (param i32) (result i32) (call $rec (local.get 0)))
        (func (export "module_alloc") (param i32) (result i32) i32.const 1024)
        (func (export "process") (param i32 i32) (result i64)
            (drop (call $rec (i32.const 0)))
            i64.const 0))"#;
    let r = run_wat("deep_recursion", wat, b"{}");
    assert!(r.is_err(), "unbounded recursion must trap (stack/fuel), not crash host");
}

#[test]
fn fuel_boundary_brackets_success_and_trap() {
    // A bounded ~1e6-iteration loop. Ample fuel completes; tiny fuel traps.
    let wat = r#"(module
        (memory (export "memory") 1)
        (func (export "module_alloc") (param i32) (result i32) i32.const 1024)
        (func (export "process") (param i32 i32) (result i64)
            (local $i i32)
            (loop $l
                (local.set $i (i32.add (local.get $i) (i32.const 1)))
                (br_if $l (i32.lt_u (local.get $i) (i32.const 1000000))))
            i64.const 0))"#;

    let mut ok_rt = default_rt();
    ok_rt.load_module(wat.as_bytes(), "fb").unwrap();
    assert!(invoke(&mut ok_rt, "fb", b"{}").is_ok(), "ample fuel should complete the bounded loop");

    let starved = ExecutionLimits { fuel_per_call: 100, ..ExecutionLimits::default() };
    let mut low_rt = ModuleRuntime::new(starved).unwrap();
    low_rt.load_module(wat.as_bytes(), "fb").unwrap();
    assert!(invoke(&mut low_rt, "fb", b"{}").is_err(), "a tiny fuel budget must trap the same loop");
}

#[test]
fn oversized_initial_memory_is_rejected() {
    // 2000 pages = 125 MiB initial linear memory > the 64 MiB default cap.
    let wat = r#"(module
        (memory (export "memory") 2000)
        (func (export "module_alloc") (param i32) (result i32) i32.const 1024)
        (func (export "process") (param i32 i32) (result i64) i64.const 0))"#;
    let r = run_wat("oversized_mem", wat, b"{}");
    assert!(r.is_err(), "initial memory above the cap must be rejected at instantiation");
}

#[test]
fn memory_grow_loop_stays_capped() {
    // Repeated grows far beyond the cap are denied; the bounded loop returns.
    let wat = r#"(module
        (memory (export "memory") 1)
        (func (export "module_alloc") (param i32) (result i32) i32.const 1024)
        (func (export "process") (param i32 i32) (result i64)
            (local $i i32)
            (loop $l
                (drop (memory.grow (i32.const 100)))
                (local.set $i (i32.add (local.get $i) (i32.const 1)))
                (br_if $l (i32.lt_u (local.get $i) (i32.const 50))))
            i64.const 0))"#;
    let out = run_wat("grow_loop", wat, b"{}");
    assert!(out.is_ok(), "capped grow loop should complete: {out:?}");
    assert!(out.unwrap().is_empty());
}

#[test]
fn per_call_state_is_isolated() {
    // A mutable global incremented each call and written to memory: with a
    // fresh store per call both calls observe 1.
    let wat = format!(
        r#"(module
        (memory (export "memory") 1)
        (global $g (mut i32) (i32.const 0))
        (func (export "module_alloc") (param i32) (result i32) i32.const 1024)
        (func (export "process") (param i32 i32) (result i64)
            (global.set $g (i32.add (global.get $g) (i32.const 1)))
            (i32.store (i32.const 2048) (global.get $g))
            {}))"#,
        packed(2048, 4)
    );
    let mut rt = default_rt();
    rt.load_module(wat.as_bytes(), "s").unwrap();
    let a = invoke(&mut rt, "s", b"{}").unwrap();
    let b = invoke(&mut rt, "s", b"{}").unwrap();
    assert_eq!(a, b, "fresh store per call must reset global state");
    assert_eq!(
        i32::from_le_bytes([a[0], a[1], a[2], a[3]]),
        1,
        "counter must read 1 on every call, never accumulate"
    );
    assert_eq!(rt.call_count("s"), Some(2));
}

#[test]
fn no_ambient_filesystem_authority() {
    // fd_prestat_get(3) must fail: the runtime grants no preopened directory.
    let wat = format!(
        r#"(module
        (import "wasi_snapshot_preview1" "fd_prestat_get"
            (func $fd_prestat_get (param i32 i32) (result i32)))
        (memory (export "memory") 1)
        (func (export "module_alloc") (param i32) (result i32) i32.const 1024)
        (func (export "process") (param i32 i32) (result i64)
            (i32.store (i32.const 100) (call $fd_prestat_get (i32.const 3) (i32.const 2048)))
            {}))"#,
        packed(100, 4)
    );
    let out = run_wat("no_fs", &wat, b"{}").expect("call should complete, not trap");
    let errno = i32::from_le_bytes([out[0], out[1], out[2], out[3]]);
    assert_ne!(errno, 0, "fd_prestat_get(3) must be denied (no preopens); got success errno 0");
}

/// A module that calls `kelvane::infer(in_ptr,in_len,out_ptr,out_cap)` and
/// returns the i32 answer as its 4-byte output.
fn infer_probe_wat(in_ptr: u32, in_len: i32, out_ptr: u32, out_cap: i32) -> String {
    format!(
        r#"(module
        (import "kelvane" "infer" (func $infer (param i32 i32 i32 i32) (result i32)))
        (memory (export "memory") 1)
        (func (export "module_alloc") (param i32) (result i32) i32.const 1024)
        (func (export "process") (param i32 i32) (result i64)
            (local $n i32)
            (local.set $n (call $infer
                (i32.const {in_ptr}) (i32.const {in_len})
                (i32.const {out_ptr}) (i32.const {out_cap})))
            (i32.store (i32.const 100) (local.get $n))
            {ret}))"#,
        in_ptr = in_ptr as i32,
        out_ptr = out_ptr as i32,
        ret = packed(100, 4)
    )
}

#[test]
fn infer_with_no_model_returns_negative() {
    // No model loaded: the import must return -1, not fault.
    let wat = infer_probe_wat(0, 484, 4000, 64);
    let n = {
        let mut rt = default_rt();
        rt.load_module(wat.as_bytes(), "nm").unwrap();
        let out = invoke(&mut rt, "nm", b"{}").unwrap();
        i32::from_le_bytes([out[0], out[1], out[2], out[3]])
    };
    assert!(n < 0, "infer with no model must return negative, got {n}");
}

/// The flat input length of the stub scorer: a `[1, 4, 11, 11]` observation.
const STUB_INPUT_LEN: usize = 4 * 11 * 11;

/// A stand-in for a policy model: whatever its input, seven action scores.
fn stub_scores(_input: &[u8]) -> Vec<u32> {
    (0..7).map(|i| (0.125f32 * i as f32).to_bits()).collect()
}

/// The host side of `kelvane::infer` over the stub scorer, with every
/// decision taken by the library's request and reply checks.
fn stub_infer(caller: &mut Caller<'_, HostState>, in_ptr: i32, in_len: i32, out_ptr: i32, out_cap: i32) -> i32 {
    let mem = match caller.get_export("memory") {
        Some(Extern::Memory(m)) => Some(m),
        _ => None,
    };
    let mem_size = mem.map(|m| m.data_size(&*caller));
    let (offset, byte_len) = match infer_input_region(Some(STUB_INPUT_LEN), in_ptr, in_len, out_cap, mem_size) {
        Ok(region) => region,
        Err(_) => return INFER_FAILED,
    };
    let mem = match mem {
        Some(m) => m,
        None => return INFER_FAILED,
    };
    let mut buf = vec![0u8; byte_len];
    if mem.read(&*caller, offset, &mut buf).is_err() {
        return INFER_FAILED;
    }
    let scores = stub_scores(&buf);
    let reply = match infer_reply(&scores, out_ptr, out_cap, mem.data_size(&*caller)) {
        Ok(w) => w,
        Err(_) => return INFER_FAILED,
    };
    if mem.write(&mut *caller, reply.offset, &reply.bytes).is_err() {
        return INFER_FAILED;
    }
    reply.count
}

/// Run an infer probe against a runtime that serves the stub scorer, and
/// return what `kelvane::infer` answered the guest.
fn run_infer_probe(tag: &str, in_ptr: u32, in_len: i32, out_ptr: u32, out_cap: i32) -> i32 {
    let mut rt = default_rt();
    rt.serve_inference(
        |mut caller: Caller<'_, HostState>, a: i32, b: i32, c: i32, d: i32| -> i32 {
            stub_infer(&mut caller, a, b, c, d)
        },
    )
    .unwrap();
    let wat = infer_probe_wat(in_ptr, in_len, out_ptr, out_cap);
    rt.load_module(wat.as_bytes(), tag).unwrap();
    let out = invoke(&mut rt, tag, b"{}").unwrap();
    assert_eq!(rt.call_count(tag), Some(1));
    i32::from_le_bytes([out[0], out[1], out[2], out[3]])
}

#[test]
fn infer_correct_request_returns_output_count() {
    let n = run_infer_probe("infer_ok", 0, 484, 4000, 64);
    assert_eq!(n, 7, "valid request should return the 7 action scores");
}

#[test]
fn infer_input_too_short_returns_negative() {
    let n = run_infer_probe("infer_short", 0, 4, 4000, 64);
    assert!(n < 0, "wrong (short) input length must be rejected: got {n}");
}

#[test]
fn infer_input_too_long_returns_negative() {
    let n = run_infer_probe("infer_long", 0, 1000, 8000, 64);
    assert!(n < 0, "wrong (long) input length must be rejected: got {n}");
}

#[test]
fn infer_out_cap_smaller_than_output_truncates() {
    // out_cap=1 while the scorer emits 7: the host writes min(7,1)=1, bounded.
    let n = run_infer_probe("infer_cap", 0, 484, 4000, 1);
    assert_eq!(n, 1, "small out_cap must bound the write to out_cap");
}

#[test]
fn infer_huge_in_len_is_rejected_without_giant_alloc() {
    // `in_len` is the guest's: a value near i32::MAX must be refused cheaply,
    // bounded by the guest's memory size, before anything is allocated.
    let n = run_infer_probe("infer_huge", 0, 2_000_000_000, 4000, 64);
    assert!(n < 0, "an absurd in_len must be rejected, got {n}");
}

#[test]
fn infer_in_ptr_out_of_bounds_returns_negative() {
    let n = run_infer_probe("infer_in_oob", 0x7FFF_0000, 484, 4000, 64);
    assert!(n < 0, "out-of-bounds in_ptr must be rejected: got {n}");
}

#[test]
fn infer_out_ptr_out_of_bounds_returns_negative() {
    let n = run_infer_probe("infer_out_oob", 0, 484, 0x7FFF_0000, 64);
    assert!(n < 0, "out-of-bounds out_ptr must be rejected: got {n}");
}

#[test]
fn infer_writes_only_the_scores_that_fit() {
    // The scores land at out_ptr as little-endian words, only out_cap of them.
    let wat = r#"(module
        (import "kelvane" "infer" (func $infer (param i32 i32 i32 i32) (result i32)))
        (memory (export "memory") 1)
        (func (export "module_alloc") (param i32) (result i32) i32.const 1024)
        (func (export "process") (param i32 i32) (result i64)
            (drop (call $infer (i32.const 0) (i32.const 484) (i32.const 4000) (i32.const 2)))
            (i64.or (i64.shl (i64.const 4000) (i64.const 32)) (i64.const 12))))"#;
    let mut rt = default_rt();
    rt.serve_inference(
        |mut caller: Caller<'_, HostState>, a: i32, b: i32, c: i32, d: i32| -> i32 {
            stub_infer(&mut caller, a, b, c, d)
        },
    )
    .unwrap();
    rt.load_module(wat.as_bytes(), "fit").unwrap();
    let out = invoke(&mut rt, "fit", b"{}").unwrap();
    let mut expected = Vec::new();
    expected.extend_from_slice(&0.0f32.to_le_bytes());
    expected.extend_from_slice(&0.125f32.to_le_bytes());
    expected.extend_from_slice(&[0, 0, 0, 0]);
    assert_eq!(out, expected);
}
