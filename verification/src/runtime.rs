//! The module runtime: a registry of compiled, hot-swappable guest modules and
//! the sandboxed invocation of one of them.
//!
//! Every call instantiates the module afresh in a new store that carries the
//! memory cap, the fuel budget and a WASI context granting nothing, so no state
//! survives from one call to the next.

use vstd::prelude::*;
use wasmtime::{Caller, MemoryAccessError};
use crate::abi::{decode_output_region, output_region_ok, packed_len, packed_ptr, OutputRegionError, MAX_OUTPUT_BYTES};
use crate::limits::ExecutionLimits;
use crate::sandbox::{
    call_alloc, call_dealloc, call_process, compile_module, config_consume_fuel,
    config_memory_reservation, config_new,
    config_optimize_for_speed, engine_new, linker_add_infer_unavailable, linker_add_wasi,
    linker_allow_shadowing, linker_define_infer, linker_new, memory_read, memory_size,
    memory_write, module_clone, store_apply_limits, store_new, store_set_fuel, CompiledModule,
    no_authority, CallTrace, CompileError, Guest, GuestCall, HostLinker, HostState, InferImport, LimitsModel, LinkerImports,
    SandboxEngine, SandboxStore, StartError, StoreModel,
};

verus! {

/// Why a runtime operation failed.
#[derive(Debug)]
pub enum RuntimeError {
    /// `max_instances` modules are already loaded.
    ModuleLimit { loaded: usize, max: usize },
    /// No module is loaded under the id given to `hot_swap`.
    NotLoaded,
    /// No module is loaded under the id given to `invoke`.
    NotFound,
    /// The guest exports no linear memory named `memory`.
    NoMemoryExport,
    /// The input is longer than a guest can address (`i32::MAX` bytes).
    InputTooLarge { len: usize },
    /// The guest's `module_alloc` returned the null offset.
    NullAlloc { len: usize },
    /// The guest's packed return named a region the host refuses to read.
    Output(OutputRegionError),
    /// A read or write of the guest's memory left its bounds.
    MemoryAccess(MemoryAccessError),
    /// The engine refused to compile the module.
    Compile(CompileError),
    /// The engine refused an operation or the guest trapped.
    Engine(wasmtime::Error),
}

/// A compiled module and the id it is loaded under.
struct LoadedModule {
    id: String,
    module: CompiledModule,
}

/// What each call's store is given under `limits`: one instance, one memory
/// of at most `max_memory_bytes`, the limits enforced, `fuel_per_call` units
/// of fuel, metered, and a WASI context that grants nothing.
pub open spec fn store_budget(limits: ExecutionLimits) -> StoreModel {
    StoreModel {
        limits: LimitsModel { memory_size: Some(limits.max_memory_bytes), instances: 1, memories: 1 },
        limiter_installed: true,
        fuel_metered: true,
        fuel: limits.fuel_per_call,
        wasi: no_authority(),
    }
}

/// The address space each linear memory reserves under `limits`: the memory
/// cap, but no more than 4 GiB, which is what wasmtime reserves by default on
/// 64-bit hosts. A guest never grows past the cap, so its memory fits in the
/// reservation; a host that limits address space can still create stores.
pub open spec fn memory_reservation(limits: ExecutionLimits) -> u64 {
    if limits.max_memory_bytes < 0x1_0000_0000 {
        limits.max_memory_bytes as u64
    } else {
        0x1_0000_0000
    }
}

/// The offset in guest memory that a pointer the guest returned names.
pub open spec fn input_offset(ptr: i32) -> int {
    (ptr as usize) as int
}

/// What the first call into the guest, `module_alloc`, answered.
pub open spec fn alloc_answer(t: CallTrace) -> Option<i32> {
    if t.calls().len() > 0 {
        match t.calls()[0] {
            GuestCall::Alloc { returned, .. } => returned,
            _ => None,
        }
    } else {
        None
    }
}

/// The guest's memory when its first call, `module_alloc`, returned.
pub open spec fn alloc_memory(t: CallTrace) -> Seq<u8> {
    match t.calls()[0] {
        GuestCall::Alloc { memory, .. } => memory,
        _ => Seq::empty(),
    }
}

/// What the second call into the guest, `process`, answered.
pub open spec fn process_answer(t: CallTrace) -> Option<i64> {
    if t.calls().len() > 1 {
        match t.calls()[1] {
            GuestCall::Process { packed, .. } => packed,
            _ => None,
        }
    } else {
        None
    }
}

/// The guest's memory when its second call, `process`, returned.
pub open spec fn process_memory(t: CallTrace) -> Seq<u8> {
    match t.calls()[1] {
        GuestCall::Process { memory_out, .. } => memory_out,
        _ => Seq::empty(),
    }
}

/// The first call into the guest was `module_alloc` of the input's length.
pub open spec fn alloc_called(t: CallTrace, input: Seq<u8>) -> bool {
    &&& input.len() <= i32::MAX
    &&& t.calls()[0] matches GuestCall::Alloc { len, .. }
    &&& len == input.len() as i32
}

/// The input was handed over: `module_alloc` answered a non-null pointer,
/// and `process` was called next, on that pointer and the input's length,
/// with the input in memory at that pointer.
pub open spec fn handed_over(t: CallTrace, input: Seq<u8>) -> bool {
    &&& t.calls().len() >= 2
    &&& alloc_answer(t) matches Some(p)
    &&& p != 0
    &&& t.calls()[1] matches GuestCall::Process { ptr, len, memory_in, .. }
    &&& ptr == p
    &&& len == input.len() as i32
    &&& input_offset(p) + input.len() <= memory_in.len()
    &&& memory_in.subrange(input_offset(p), input_offset(p) + input.len()) == input
}

/// `module_alloc` answered a non-null pointer and nothing was called after
/// it.
pub open spec fn stopped_after_alloc(t: CallTrace) -> bool {
    &&& t.calls().len() == 1
    &&& alloc_answer(t) matches Some(p)
    &&& p != 0
}

/// The input does not fit in the guest's memory, as it was when
/// `module_alloc` returned, at the pointer `module_alloc` answered.
pub open spec fn input_overflows(t: CallTrace, input: Seq<u8>) -> bool {
    &&& alloc_answer(t) matches Some(p)
    &&& input_offset(p) + input.len() > alloc_memory(t).len()
}

/// The last call into the guest trapped.
pub open spec fn trapped(t: CallTrace) -> bool {
    &&& t.calls().len() > 0
    &&& match t.calls().last() {
        GuestCall::Alloc { returned, .. } => returned is None,
        GuestCall::Process { packed, .. } => packed is None,
        GuestCall::Dealloc { .. } => false,
    }
}

/// The call completed: `process` answered a packed region that was
/// accepted, `out` is the guest's memory there when `process` returned, and
/// the only calls into the guest were `module_alloc`, `process` and, when the
/// guest exports it, `module_dealloc` of the input buffer.
pub open spec fn call_completed(t: CallTrace, input: Seq<u8>, out: Seq<u8>) -> bool {
    &&& handed_over(t, input)
    &&& process_answer(t) matches Some(packed)
    &&& output_region_ok(packed, process_memory(t).len() as int)
    &&& out == process_memory(t).subrange(packed_ptr(packed), packed_ptr(packed) + packed_len(packed))
    &&& t.calls().len() == (if t.frees_input() { 3int } else { 2int })
    &&& t.frees_input() ==> t.calls()[2] == (GuestCall::Dealloc {
        ptr: alloc_answer(t).unwrap(),
        len: input.len() as i32,
    })
}

/// A runtime that executes untrusted, hot-swappable WebAssembly modules under a
/// per-invocation memory and fuel budget.
pub struct ModuleRuntime {
    engine: SandboxEngine,
    linker: HostLinker,
    limits: ExecutionLimits,
    modules: Vec<LoadedModule>,
    call_counts: Vec<u64>,
    last_call: Ghost<Option<CallTrace>>,
}

/// The count after one more completed call (it stops at `u64::MAX`).
pub open spec fn next_count(c: u64) -> u64 {
    if c == u64::MAX {
        c
    } else {
        (c + 1) as u64
    }
}

/// An operation on a runtime, as far as the registry sees it: a load or a
/// swap of `wasm` under `id`, a call of `id`, or anything else; `ok` says
/// whether it succeeded.
pub enum RuntimeEvent {
    Loaded { id: Seq<char>, wasm: Seq<u8>, ok: bool },
    Swapped { id: Seq<char>, wasm: Seq<u8>, ok: bool },
    Invoked { id: Seq<char>, ok: bool },
    Other,
}

/// What `ev` does to the registry of a runtime that goes from `pre` to
/// `post`: a successful load installs `wasm` under `id` with a count of zero,
/// a successful swap installs it and keeps the count, a successful call adds
/// one to the count of its id, and a call that reaches the guest runs the
/// module installed under its id. Nothing else changes an id's module or
/// count.
pub open spec fn runtime_step(pre: ModuleRuntime, ev: RuntimeEvent, post: ModuleRuntime) -> bool {
    match ev {
        RuntimeEvent::Loaded { id, wasm, ok } => if ok {
            &&& post.counts() == pre.counts().insert(id, 0)
            &&& post.compiled() == pre.compiled().insert(id, wasm)
        } else {
            &&& post.counts() == pre.counts()
            &&& post.compiled() == pre.compiled()
        },
        RuntimeEvent::Swapped { id, wasm, ok } => {
            &&& post.counts() == pre.counts()
            &&& ok ==> pre.compiled().contains_key(id) && post.compiled() == pre.compiled().insert(id, wasm)
            &&& !ok ==> post.compiled() == pre.compiled()
        },
        RuntimeEvent::Invoked { id, ok } => {
            &&& post.compiled() == pre.compiled()
            &&& ok ==> pre.counts().contains_key(id) && post.counts() == pre.counts().insert(
                id,
                next_count(pre.counts()[id]),
            )
            &&& !ok ==> post.counts() == pre.counts()
            &&& post.last_call() matches Some(t) ==> pre.compiled().contains_key(id) && t.source()
                == pre.compiled()[id]
        },
        RuntimeEvent::Other => {
            &&& post.counts() == pre.counts()
            &&& post.compiled() == pre.compiled()
        },
    }
}

/// The call count of `id` after `events`, starting from a runtime with
/// nothing loaded: `None` until a load under `id` succeeds, zero after each
/// such load, one more (stopping at `u64::MAX`) after each successful call.
pub open spec fn count_after(events: Seq<RuntimeEvent>, id: Seq<char>) -> Option<u64>
    decreases events.len(),
{
    if events.len() == 0 {
        None
    } else {
        let prev = count_after(events.drop_last(), id);
        match events.last() {
            RuntimeEvent::Loaded { id: k, ok, .. } => if ok && k == id {
                Some(0u64)
            } else {
                prev
            },
            RuntimeEvent::Invoked { id: k, ok } => if ok && k == id {
                match prev {
                    Some(c) => Some(next_count(c)),
                    None => None,
                }
            } else {
                prev
            },
            _ => prev,
        }
    }
}

/// The module installed under `id` after `events`, starting from a runtime
/// with nothing loaded: the bytes of the last successful load or swap under
/// `id`, if any.
pub open spec fn module_after(events: Seq<RuntimeEvent>, id: Seq<char>) -> Option<Seq<u8>>
    decreases events.len(),
{
    if events.len() == 0 {
        None
    } else {
        let prev = module_after(events.drop_last(), id);
        match events.last() {
            RuntimeEvent::Loaded { id: k, wasm, ok } => if ok && k == id {
                Some(wasm)
            } else {
                prev
            },
            RuntimeEvent::Swapped { id: k, wasm, ok } => if ok && k == id {
                Some(wasm)
            } else {
                prev
            },
            _ => prev,
        }
    }
}

/// Every call's store is capped at exactly the runtime's memory limit, holds
/// one instance and one memory, has the cap enforced, is given exactly
/// `fuel_per_call` units of metered fuel, and grants nothing through WASI.
pub proof fn lemma_store_budget_exact(limits: ExecutionLimits)
    ensures
        store_budget(limits).limits.memory_size == Some(limits.max_memory_bytes),
        store_budget(limits).limits.instances == 1,
        store_budget(limits).limits.memories == 1,
        store_budget(limits).limiter_installed,
        store_budget(limits).fuel_metered,
        store_budget(limits).fuel == limits.fuel_per_call,
        store_budget(limits).wasi == no_authority(),
{
}

/// A completed call raises the count by exactly one, and a count already at
/// `u64::MAX` stays there.
pub proof fn lemma_next_count(c: u64)
    ensures
        c < u64::MAX ==> next_count(c) == c + 1,
        c == u64::MAX ==> next_count(c) == c,
{
}

/// In a completed call, the memory `process` was handed holds the input at
/// the offset `module_alloc` answered, and `process` was called on that
/// pointer and the input's length; a non-negative answer is that very offset.
pub proof fn lemma_completed_call_input(t: CallTrace, input: Seq<u8>, out: Seq<u8>)
    requires
        call_completed(t, input, out),
        input.len() <= i32::MAX,
    ensures
        ({
            &&& t.calls()[0] matches GuestCall::Alloc { returned: Some(p), .. }
            &&& t.calls()[1] matches GuestCall::Process { ptr, len, memory_in, .. }
            &&& ptr == p && len == input.len()
            &&& (p as usize) + input.len() <= memory_in.len()
            &&& memory_in.subrange(p as usize as int, p as usize + input.len()) == input
            &&& p >= 0 ==> memory_in.subrange(p as int, p + input.len()) == input
        }),
{
}

/// In a completed call, the output is the guest's memory, as `process` left
/// it, at the region its packed return names: the offset in the high 32
/// bits, the length in the low 32 bits, at most 1 MiB long and inside that
/// memory.
pub proof fn lemma_completed_call_output(t: CallTrace, input: Seq<u8>, out: Seq<u8>)
    requires
        call_completed(t, input, out),
    ensures
        ({
            &&& t.calls()[1] matches GuestCall::Process { packed: Some(pk), memory_out, .. }
            &&& out.len() == (pk as u64) % 0x1_0000_0000
            &&& out.len() <= 1048576
            &&& (pk as u64) / 0x1_0000_0000 + out.len() <= memory_out.len()
            &&& out == memory_out.subrange(
                ((pk as u64) / 0x1_0000_0000) as int,
                (pk as u64) / 0x1_0000_0000 + out.len(),
            )
        }),
{
}

/// `states` is a run of `events` from a runtime with nothing loaded.
pub open spec fn is_run(states: Seq<ModuleRuntime>, events: Seq<RuntimeEvent>) -> bool {
    &&& states.len() == events.len() + 1
    &&& states[0].counts() == Map::<Seq<char>, u64>::empty()
    &&& states[0].compiled() == Map::<Seq<char>, Seq<u8>>::empty()
    &&& forall|i: int| 0 <= i < events.len() ==> runtime_step(#[trigger] states[i], events[i], states[i + 1])
}

/// The optional value a map holds under `k`.
pub open spec fn lookup<V>(m: Map<Seq<char>, V>, k: Seq<char>) -> Option<V> {
    if m.contains_key(k) {
        Some(m[k])
    } else {
        None
    }
}

/// Over any run from a runtime with nothing loaded, the call count of an id
/// is `None` until a load under it succeeds, zero after each such load, one
/// more (stopping at `u64::MAX`) after each successful call and untouched by
/// a swap or a failure; and the module an id runs is the one last loaded or
/// swapped in under it.
pub proof fn lemma_run(states: Seq<ModuleRuntime>, events: Seq<RuntimeEvent>, id: Seq<char>)
    requires
        is_run(states, events),
    ensures
        lookup(states.last().counts(), id) == count_after(events, id),
        lookup(states.last().compiled(), id) == module_after(events, id),
    decreases events.len(),
{
    if events.len() > 0 {
        let n = events.len() - 1;
        let ps = states.drop_last();
        let pe = events.drop_last();
        assert forall|i: int| 0 <= i < pe.len() implies runtime_step(#[trigger] ps[i], pe[i], ps[i + 1]) by {
            assert(runtime_step(states[i], events[i], states[i + 1]));
        }
        lemma_run(ps, pe, id);
        assert(runtime_step(states[n], events[n], states[n + 1]));
        assert(ps.last() == states[n]);
        assert(states.last() == states[n + 1]);
    }
}

/// In a run from a runtime with nothing loaded, a call of `id` that reaches
/// the guest runs the module last loaded or swapped in under `id`: a swap
/// takes effect at the next call.
pub proof fn lemma_call_runs_latest(states: Seq<ModuleRuntime>, events: Seq<RuntimeEvent>, id: Seq<char>)
    requires
        is_run(states, events),
        events.len() > 0,
        events.last() matches RuntimeEvent::Invoked { id: k, .. } && k == id,
        states.last().last_call() is Some,
    ensures
        module_after(events.drop_last(), id) == Some(states.last().last_call().unwrap().source()),
{
    let n = events.len() - 1;
    let ps = states.drop_last();
    let pe = events.drop_last();
    assert forall|i: int| 0 <= i < pe.len() implies runtime_step(#[trigger] ps[i], pe[i], ps[i + 1]) by {
        assert(runtime_step(states[i], events[i], states[i + 1]));
    }
    lemma_run(ps, pe, id);
    assert(runtime_step(states[n], events[n], states[n + 1]));
    assert(ps.last() == states[n]);
}

impl ModuleRuntime {
    /// The ids of the loaded modules, in load order.
    pub closed spec fn ids(&self) -> Seq<Seq<char>> {
        self.modules@.map_values(|m: LoadedModule| m.id@)
    }

    /// The slot that holds the module loaded under `id`.
    closed spec fn slot_of(&self, id: Seq<char>) -> int {
        choose|i: int| 0 <= i < self.ids().len() && self.ids()[i] == id
    }

    /// For each loaded id, the number of completed calls of its module.
    pub closed spec fn counts(&self) -> Map<Seq<char>, u64> {
        Map::new(
            |id: Seq<char>| self.ids().contains(id),
            |id: Seq<char>| self.call_counts@[self.slot_of(id)],
        )
    }

    /// For each loaded id, the bytes of the module it runs.
    pub closed spec fn compiled(&self) -> Map<Seq<char>, Seq<u8>> {
        Map::new(
            |id: Seq<char>| self.ids().contains(id),
            |id: Seq<char>| self.modules@[self.slot_of(id)].module.source(),
        )
    }

    /// The record of the last call that reached a guest's `module_alloc`.
    pub closed spec fn last_call(&self) -> Option<CallTrace> {
        self.last_call@
    }

    /// The runtime's limits.
    pub closed spec fn limits(&self) -> ExecutionLimits {
        self.limits
    }

    /// Well-formed: one slot per id, a count for each slot, and no more
    /// modules loaded than the limits allow.
    pub closed spec fn wf(&self) -> bool {
        &&& self.ids().no_duplicates()
        &&& self.call_counts.len() == self.modules.len()
        &&& self.modules.len() <= self.limits.max_instances
        &&& self.linker.engine() == self.engine.handle()
        &&& self.engine.meters_fuel()
        &&& self.linker.imports().wasi_p1
        &&& self.linker.imports().infer is Some
    }

    /// The imports the runtime's linker offers guests.
    pub closed spec fn imports(&self) -> LinkerImports {
        self.linker.imports()
    }

    /// The runtime's engine meters the fuel of the guests it runs.
    pub closed spec fn meters_fuel(&self) -> bool {
        self.engine.meters_fuel()
    }

    /// In a well-formed runtime, slot `i` is the slot of its own id.
    proof fn lemma_slot(&self, i: int)
        requires
            self.wf(),
            0 <= i < self.modules.len(),
        ensures
            self.ids().contains(self.ids()[i]),
            self.slot_of(self.ids()[i]) == i,
    {
        let id = self.ids()[i];
        assert(self.ids().contains(id));
        let j = self.slot_of(id);
        assert(0 <= j < self.ids().len() && self.ids()[j] == id);
    }

    /// Two runtimes with the same slots and counts have the same registry.
    proof fn lemma_same_registry(&self, other: ModuleRuntime)
        requires
            self.modules == other.modules,
            self.call_counts == other.call_counts,
        ensures
            self.ids() == other.ids(),
            self.counts() == other.counts(),
            self.compiled() == other.compiled(),
    {
        assert(self.ids() =~= other.ids());
        assert(self.counts() =~= other.counts());
        assert(self.compiled() =~= other.compiled());
    }

    /// In a well-formed runtime, the number of loaded ids is the number of
    /// slots.
    proof fn lemma_count_is_len(&self)
        requires
            self.wf(),
        ensures
            self.counts().dom().len() == self.modules.len(),
            self.counts().dom() == self.ids().to_set(),
    {
        assert(self.counts().dom() =~= self.ids().to_set());
        self.ids().unique_seq_to_set();
    }

    /// A well-formed runtime never holds more modules than its limits allow.
    pub proof fn lemma_within_limits(&self)
        requires
            self.wf(),
        ensures
            self.counts().dom().len() <= self.limits().max_instances,
            self.counts().dom() == self.compiled().dom(),
    {
        self.lemma_count_is_len();
        assert(self.counts().dom() =~= self.compiled().dom());
    }

    /// Create a runtime with fuel metering enabled and no module loaded. Its
    /// linker offers a guest the WASI preview-1 imports (from a context that
    /// grants nothing) and a `kelvane::infer` import that reports inference
    /// unavailable until [`ModuleRuntime::serve_inference`] replaces it.
    /// Each linear memory reserves [`memory_reservation`] of address space.
    pub fn new(limits: ExecutionLimits) -> (r: Result<ModuleRuntime, RuntimeError>)
        ensures
            r matches Ok(rt) ==> rt.wf() && rt.meters_fuel() && rt.limits() == limits
                && rt.counts() == Map::<Seq<char>, u64>::empty()
                && rt.compiled() == Map::<Seq<char>, Seq<u8>>::empty() && rt.last_call() is None
                && rt.imports() == (LinkerImports { wasi_p1: true, infer: Some(InferImport::Unavailable) }),
            r matches Err(e) ==> e is Engine,
    {
        let mut config = config_new();
        config_consume_fuel(&mut config);
        config_optimize_for_speed(&mut config);
        config_memory_reservation(&mut config, reservation_bytes(limits));
        let engine = match engine_new(&config) {
            Ok(engine) => engine,
            Err(e) => return Err(RuntimeError::Engine(e)),
        };
        let mut linker = linker_new(&engine);
        linker_allow_shadowing(&mut linker);
        match linker_add_wasi(&mut linker) {
            Ok(()) => {},
            Err(e) => return Err(RuntimeError::Engine(e)),
        }
        match linker_add_infer_unavailable(&mut linker) {
            Ok(()) => {},
            Err(e) => return Err(RuntimeError::Engine(e)),
        }
        let rt = ModuleRuntime {
            engine,
            linker,
            limits,
            modules: Vec::new(),
            call_counts: Vec::new(),
            last_call: Ghost(None),
        };
        assert(rt.counts() =~= Map::<Seq<char>, u64>::empty());
        assert(rt.compiled() =~= Map::<Seq<char>, Seq<u8>>::empty());
        Ok(rt)
    }

    /// Serve the guests' `kelvane::infer` import with `f` from now on, in
    /// place of the one that reports inference unavailable.
    pub fn serve_inference<F>(&mut self, f: F) -> (r: Result<(), RuntimeError>)
        where
            F: Fn(Caller<'_, HostState>, i32, i32, i32, i32) -> i32 + Send + Sync + 'static,
        requires
            old(self).wf(),
        ensures
            final(self).wf(),
            final(self).limits() == old(self).limits(),
            final(self).counts() == old(self).counts(),
            final(self).compiled() == old(self).compiled(),
            final(self).last_call() == old(self).last_call(),
            runtime_step(*old(self), RuntimeEvent::Other, *final(self)),
            r is Ok ==> final(self).imports() == (LinkerImports { wasi_p1: true, infer: Some(InferImport::Served) }),
            r is Err ==> final(self).imports() == old(self).imports(),
            r matches Err(e) ==> e is Engine,
    {
        let ghost pre = *self;
        let r = linker_define_infer(&mut self.linker, f);
        proof {
            assert(self.ids() =~= pre.ids());
            assert(self.counts() =~= pre.counts());
            assert(self.compiled() =~= pre.compiled());
        }
        match r {
            Ok(()) => Ok(()),
            Err(e) => Err(RuntimeError::Engine(e)),
        }
    }

    /// The slot of the module loaded under `id`, if any.
    fn find(&self, id: &str) -> (r: Option<usize>)
        requires
            self.wf(),
        ensures
            r matches Some(i) ==> i < self.modules.len() && self.ids()[i as int] == id@,
            r is None <==> !self.ids().contains(id@),
    {
        let key: String = id.to_owned();
        let mut i: usize = 0;
        while i < self.modules.len()
            invariant
                i <= self.modules.len(),
                key@ == id@,
                forall|j: int| 0 <= j < i ==> self.ids()[j] != id@,
            decreases self.modules.len() - i,
        {
            if self.modules[i].id == key {
                proof {
                    assert(self.ids()[i as int] == id@);
                }
                return Some(i);
            }
            i = i + 1;
        }
        proof {
            if self.ids().contains(id@) {
                let j = choose|j: int| 0 <= j < self.ids().len() && self.ids()[j] == id@;
                assert(self.ids()[j] != id@);
            }
        }
        None
    }

    /// Number of completed calls of the module loaded under `id`, or `None`
    /// when no module is loaded under it.
    pub fn call_count(&self, id: &str) -> (r: Option<u64>)
        requires
            self.wf(),
        ensures
            r == (if self.counts().contains_key(id@) {
                Some(self.counts()[id@])
            } else {
                None::<u64>
            }),
    {
        match self.find(id) {
            Some(i) => {
                proof {
                    self.lemma_slot(i as int);
                }
                Some(self.call_counts[i])
            },
            None => None,
        }
    }

    /// Refuse another module when `max_instances` modules are loaded already.
    pub fn ensure_capacity(&self) -> (r: Result<(), RuntimeError>)
        requires
            self.wf(),
        ensures
            r is Ok <==> self.counts().dom().len() < self.limits().max_instances,
            r matches Err(e) ==> e is ModuleLimit,
            r matches Err(RuntimeError::ModuleLimit { loaded, max }) ==> loaded
                == self.counts().dom().len() && max == self.limits().max_instances,
    {
        proof {
            self.lemma_count_is_len();
        }
        if self.modules.len() >= self.limits.max_instances {
            return Err(RuntimeError::ModuleLimit {
                loaded: self.modules.len(),
                max: self.limits.max_instances,
            });
        }
        Ok(())
    }

    /// Compile `wasm` (a binary module, or one in the text format) with this
    /// runtime's engine.
    fn compile(&self, wasm: &[u8]) -> (r: Result<CompiledModule, RuntimeError>)
        ensures
            r matches Ok(m) ==> m.source() == wasm@,
            r matches Err(e) ==> e is Compile,
    {
        match compile_module(&self.engine, wasm) {
            Ok(module) => Ok(module),
            Err(e) => Err(RuntimeError::Compile(e)),
        }
    }

    /// Compile `wasm` (a binary module, or one in the text format) and register
    /// it under `id`, with a call count of zero. A module already loaded under
    /// `id` is replaced. Refused when `max_instances` modules are loaded
    /// already, before anything is compiled.
    pub fn load_module(&mut self, wasm: &[u8], id: &str) -> (r: Result<(), RuntimeError>)
        requires
            old(self).wf(),
        ensures
            final(self).wf(),
            final(self).limits() == old(self).limits(),
            final(self).last_call() == old(self).last_call(),
            runtime_step(*old(self), RuntimeEvent::Loaded { id: id@, wasm: wasm@, ok: r is Ok }, *final(self)),
            final(self).imports() == old(self).imports(),
            r is Ok ==> final(self).counts() == old(self).counts().insert(id@, 0),
            r is Ok ==> final(self).compiled() == old(self).compiled().insert(id@, wasm@),
            r is Err ==> final(self).counts() == old(self).counts() && final(self).compiled()
                == old(self).compiled(),
            (r matches Err(RuntimeError::ModuleLimit { .. })) <==> old(self).counts().dom().len()
                >= old(self).limits().max_instances,
            r matches Err(RuntimeError::ModuleLimit { loaded, max }) ==> loaded == old(
                self,
            ).counts().dom().len() && max == old(self).limits().max_instances,
            r matches Err(e) ==> e is ModuleLimit || e is Compile,
    {
        match self.ensure_capacity() {
            Ok(()) => {},
            Err(e) => return Err(e),
        }
        let module = match self.compile(wasm) {
            Ok(module) => module,
            Err(e) => return Err(e),
        };
        self.install(id, module);
        Ok(())
    }

    /// Register `module` under `id` with a call count of zero, in place of a
    /// module already loaded under `id`, or in a new slot when there is room.
    fn install(&mut self, id: &str, module: CompiledModule)
        requires
            old(self).wf(),
            old(self).counts().dom().len() < old(self).limits().max_instances,
        ensures
            final(self).wf(),
            final(self).limits() == old(self).limits(),
            final(self).last_call() == old(self).last_call(),
            final(self).imports() == old(self).imports(),
            final(self).counts() == old(self).counts().insert(id@, 0),
            final(self).compiled() == old(self).compiled().insert(id@, module.source()),
    {
        proof {
            self.lemma_count_is_len();
        }
        let ghost pre = *self;
        let ghost source = module.source();
        match self.find(id) {
            Some(i) => {
                let slot = LoadedModule { id: id.to_owned(), module };
                self.modules.set(i, slot);
                self.call_counts.set(i, 0);
                proof {
                    assert(self.ids() =~= pre.ids().update(i as int, id@));
                    assert(pre.ids().update(i as int, id@) =~= pre.ids());
                    self.lemma_updated_slot(pre, i as int);
                }
            },
            None => {
                let slot = LoadedModule { id: id.to_owned(), module };
                self.modules.push(slot);
                self.call_counts.push(0);
                proof {
                    assert(self.ids() =~= pre.ids().push(id@));
                    self.lemma_pushed_slot(pre);
                }
            },
        }
    }

    /// After slot `i` of a well-formed runtime takes a module under the same id
    /// (and possibly a new count), every other id keeps its module and count.
    proof fn lemma_updated_slot(&self, pre: ModuleRuntime, i: int)
        requires
            pre.wf(),
            0 <= i < pre.modules.len(),
            self.limits == pre.limits,
            self.engine == pre.engine,
            self.linker == pre.linker,
            self.modules.len() == pre.modules.len(),
            self.call_counts.len() == pre.call_counts.len(),
            self.ids() == pre.ids(),
            forall|j: int| 0 <= j < pre.modules.len() && j != i ==> self.modules@[j] == pre.modules@[j]
                && self.call_counts@[j] == pre.call_counts@[j],
        ensures
            self.wf(),
            self.counts() == pre.counts().insert(pre.ids()[i], self.call_counts@[i]),
            self.compiled() == pre.compiled().insert(pre.ids()[i], self.modules@[i].module.source()),
    {
        let id = pre.ids()[i];
        assert forall|k: Seq<char>| #[trigger] self.ids().contains(k) implies self.slot_of(k)
            == pre.slot_of(k) || k == id by {
            let a = self.slot_of(k);
            assert(0 <= a < self.ids().len() && self.ids()[a] == k);
            let b = pre.slot_of(k);
            assert(pre.ids().contains(k));
            assert(0 <= b < pre.ids().len() && pre.ids()[b] == k);
        }
        self.lemma_slot(i);
        assert(self.counts() =~= pre.counts().insert(id, self.call_counts@[i]));
        assert(self.compiled() =~= pre.compiled().insert(id, self.modules@[i].module.source()));
    }

    /// After a well-formed runtime appends a slot under an id it did not hold,
    /// every other id keeps its module and count.
    proof fn lemma_pushed_slot(&self, pre: ModuleRuntime)
        requires
            pre.wf(),
            pre.modules.len() < pre.limits.max_instances,
            self.limits == pre.limits,
            self.engine == pre.engine,
            self.linker == pre.linker,
            self.modules.len() == pre.modules.len() + 1,
            self.call_counts.len() == pre.call_counts.len() + 1,
            !pre.ids().contains(self.ids().last()),
            self.ids() == pre.ids().push(self.ids().last()),
            forall|j: int| 0 <= j < pre.modules.len() ==> self.modules@[j] == pre.modules@[j]
                && self.call_counts@[j] == pre.call_counts@[j],
        ensures
            self.wf(),
            self.counts() == pre.counts().insert(self.ids().last(), self.call_counts@.last()),
            self.compiled() == pre.compiled().insert(self.ids().last(), self.modules@.last().module.source()),
    {
        let n = pre.modules.len() as int;
        let id = self.ids().last();
        assert(self.ids()[n] == id);
        assert forall|a: int, b: int|
            0 <= a < self.ids().len() && 0 <= b < self.ids().len() && a != b implies self.ids()[a]
            != self.ids()[b] by {
            if a < n && b < n {
                assert(pre.ids()[a] != pre.ids()[b]);
            } else if a == n {
                assert(pre.ids().contains(self.ids()[b]) || b == n);
            } else {
                assert(pre.ids().contains(self.ids()[a]) || a == n);
            }
        }
        assert forall|k: Seq<char>| #[trigger] pre.ids().contains(k) implies self.slot_of(k)
            == pre.slot_of(k) by {
            let b = pre.slot_of(k);
            assert(0 <= b < pre.ids().len() && pre.ids()[b] == k);
            assert(self.ids()[b] == k);
            self.lemma_slot(b);
        }
        self.lemma_slot(n);
        assert forall|k: Seq<char>| self.ids().contains(k) <==> (pre.ids().contains(k) || k == id) by {
            if self.ids().contains(k) {
                let a = choose|a: int| 0 <= a < self.ids().len() && self.ids()[a] == k;
                if a < n {
                    assert(pre.ids()[a] == k);
                }
            }
            if pre.ids().contains(k) {
                let b = choose|b: int| 0 <= b < pre.ids().len() && pre.ids()[b] == k;
                assert(self.ids()[b] == k);
            }
        }
        assert forall|k: Seq<char>| #[trigger] pre.ids().contains(k) implies self.counts()[k]
            == pre.counts()[k] && self.compiled()[k] == pre.compiled()[k] by {
            let b = pre.slot_of(k);
            assert(0 <= b < pre.ids().len() && pre.ids()[b] == k);
        }
        assert(self.counts() =~= pre.counts().insert(id, self.call_counts@[n]));
        assert(self.compiled() =~= pre.compiled().insert(id, self.modules@[n].module.source()));
    }

    /// Replace the module loaded under `id` with one compiled from `wasm`,
    /// keeping its call count. The new module is compiled first, so a module
    /// that fails to compile leaves the loaded one in place.
    pub fn hot_swap(&mut self, id: &str, wasm: &[u8]) -> (r: Result<(), RuntimeError>)
        requires
            old(self).wf(),
        ensures
            final(self).wf(),
            final(self).limits() == old(self).limits(),
            final(self).last_call() == old(self).last_call(),
            final(self).counts() == old(self).counts(),
            runtime_step(*old(self), RuntimeEvent::Swapped { id: id@, wasm: wasm@, ok: r is Ok }, *final(self)),
            final(self).imports() == old(self).imports(),
            r is Ok ==> final(self).compiled() == old(self).compiled().insert(id@, wasm@),
            r is Err ==> final(self).compiled() == old(self).compiled(),
            r is Ok ==> old(self).counts().contains_key(id@),
            (r matches Err(RuntimeError::NotLoaded)) ==> !old(self).counts().contains_key(id@),
            !old(self).counts().contains_key(id@) ==> r is Err,
            r matches Err(e) ==> e is NotLoaded || e is Compile,
    {
        let module = match self.compile(wasm) {
            Ok(module) => module,
            Err(e) => return Err(e),
        };
        self.replace(id, module)
    }

    /// Put `module` in the slot of the module loaded under `id`, keeping its
    /// call count; refused when no module is loaded under `id`.
    fn replace(&mut self, id: &str, module: CompiledModule) -> (r: Result<(), RuntimeError>)
        requires
            old(self).wf(),
        ensures
            final(self).wf(),
            final(self).limits() == old(self).limits(),
            final(self).last_call() == old(self).last_call(),
            final(self).imports() == old(self).imports(),
            final(self).counts() == old(self).counts(),
            r is Ok <==> old(self).counts().contains_key(id@),
            r is Ok ==> final(self).compiled() == old(self).compiled().insert(id@, module.source()),
            r is Err ==> final(self).compiled() == old(self).compiled(),
            r matches Err(e) ==> e is NotLoaded,
    {
        let i = match self.find(id) {
            Some(i) => i,
            None => return Err(RuntimeError::NotLoaded),
        };
        let ghost pre = *self;
        let slot = LoadedModule { id: id.to_owned(), module };
        self.modules.set(i, slot);
        proof {
            assert(self.ids() =~= pre.ids().update(i as int, id@));
            assert(pre.ids().update(i as int, id@) =~= pre.ids());
            self.lemma_updated_slot(pre, i as int);
            pre.lemma_slot(i as int);
            assert(self.counts() =~= pre.counts());
        }
        Ok(())
    }

    /// A fresh store for one call, of this runtime's engine: a WASI context
    /// granting nothing, and the budget [`store_budget`] of the limits.
    fn new_store(&self) -> (r: Result<SandboxStore, RuntimeError>)
        requires
            self.wf(),
        ensures
            r matches Ok(s) ==> s.engine() == self.engine.handle() && s.model() == store_budget(
                self.limits,
            ),
            r matches Ok(s) ==> s.model().limits.memory_size == Some(self.limits.max_memory_bytes)
                && s.model().limits.instances == 1 && s.model().limits.memories == 1
                && s.model().limiter_installed && s.model().fuel_metered && s.model().fuel
                == self.limits.fuel_per_call && s.model().wasi == no_authority(),
            r matches Err(e) ==> e is Engine,
    {
        let state = HostState::new(self.limits.max_memory_bytes);
        let mut store = store_new(&self.engine, state);
        store_apply_limits(&mut store);
        match store_set_fuel(&mut store, self.limits.fuel_per_call) {
            Ok(()) => Ok(store),
            Err(e) => Err(RuntimeError::Engine(e)),
        }
    }

    /// Invoke the `process` export of the module loaded under `id` with
    /// `input`, in a fresh sandboxed instance, and return the output bytes the
    /// guest's packed return names.
    ///
    /// The module is instantiated afresh in a store given [`store_budget`];
    /// the input is written where the guest's `module_alloc` says (a null
    /// answer is refused); `process` is called on it; the output region is
    /// accepted only when it is at most [`MAX_OUTPUT_BYTES`] long and lies
    /// inside the guest's memory, and the result is the guest's memory there;
    /// the input buffer is then handed back to `module_dealloc` when the guest
    /// exports it. Only a call that returns `Ok` counts as a call of the
    /// module. [`ModuleRuntime::last_call`] is the trace of the guest that
    /// ran, when one was instantiated.
    pub fn invoke(&mut self, id: &str, input: &[u8]) -> (r: Result<Vec<u8>, RuntimeError>)
        requires
            old(self).wf(),
        ensures
            final(self).wf(),
            final(self).limits() == old(self).limits(),
            final(self).compiled() == old(self).compiled(),
            final(self).imports() == old(self).imports(),
            runtime_step(*old(self), RuntimeEvent::Invoked { id: id@, ok: r is Ok }, *final(self)),
            (r matches Err(RuntimeError::NotFound)) <==> !old(self).counts().contains_key(id@),
            r is Ok ==> final(self).counts() == old(self).counts().insert(
                id@,
                next_count(old(self).counts()[id@]),
            ),
            r is Err ==> final(self).counts() == old(self).counts(),
            final(self).last_call() is None ==> (r matches Err(RuntimeError::NotFound)) || (r matches Err(
                RuntimeError::Engine(_),
            )),
            final(self).last_call() matches Some(t) ==> old(self).counts().contains_key(id@)
                && t.source() == old(self).compiled()[id@] && t.given() == store_budget(
                old(self).limits(),
            ) && t.imports() == old(self).imports(),
            (r matches Err(RuntimeError::NoMemoryExport)) <==> (final(self).last_call() matches Some(t)
                && !t.exports_memory()),
            final(self).last_call() matches Some(t) ==> (!t.exports_memory() ==> t.calls().len()
                == 0),
            r matches Err(RuntimeError::InputTooLarge { len }) ==> len == input.len() && len
                > i32::MAX,
            input@.len() > i32::MAX ==> r is Err && (final(self).last_call() matches Some(t)
                ==> t.calls().len() == 0),
            final(self).last_call() matches Some(t) ==> (t.calls().len() > 0 ==> alloc_called(
                t,
                input@,
            )),
            (r matches Err(RuntimeError::NullAlloc { .. })) <==> (final(self).last_call() matches Some(
                t,
            ) && alloc_answer(t) == Some(0i32)),
            r matches Err(RuntimeError::NullAlloc { len }) ==> len == input.len(),
            final(self).last_call() matches Some(t) ==> (t.calls().len() >= 2 ==> handed_over(
                t,
                input@,
            )),
            (r matches Err(RuntimeError::MemoryAccess(_))) <==> (final(self).last_call() matches Some(
                t,
            ) && stopped_after_alloc(t)),
            final(self).last_call() matches Some(t) ==> (stopped_after_alloc(t) ==> input_overflows(
                t,
                input@,
            )),
            final(self).last_call() matches Some(t) ==> (process_answer(t) matches Some(packed) ==> (r is Ok
                <==> output_region_ok(packed, process_memory(t).len() as int))),
            final(self).last_call() matches Some(t) ==> (process_answer(t) matches Some(packed) ==> ((r matches Err(
                RuntimeError::Output(_),
            )) <==> !output_region_ok(packed, process_memory(t).len() as int))),
            (r matches Err(RuntimeError::Engine(_))) && final(self).last_call() is Some ==> trapped(
                final(self).last_call().unwrap(),
            ),
            r matches Ok(out) ==> (final(self).last_call() matches Some(t) && call_completed(
                t,
                input@,
                out@,
            )),
            final(self).last_call() matches Some(t) ==> t.given().limits.memory_size == Some(
                old(self).limits().max_memory_bytes,
            ) && t.given().limits.instances == 1 && t.given().limits.memories == 1
                && t.given().limiter_installed && t.given().fuel_metered && t.given().fuel == old(
                self,
            ).limits().fuel_per_call && t.given().wasi == no_authority(),
            r is Ok && old(self).counts()[id@] < u64::MAX ==> final(self).counts()[id@] == old(
                self,
            ).counts()[id@] + 1,
            r is Ok && old(self).counts()[id@] == u64::MAX ==> final(self).counts()[id@]
                == u64::MAX,
            r is Ok ==> ({
                &&& final(self).last_call() matches Some(t)
                &&& t.calls()[0] matches GuestCall::Alloc { returned: Some(p), .. }
                &&& t.calls()[1] matches GuestCall::Process { ptr, len, memory_in, .. }
                &&& ptr == p && len == input@.len()
                &&& (p as usize) + input@.len() <= memory_in.len()
                &&& memory_in.subrange(p as usize as int, p as usize + input@.len()) == input@
                &&& p >= 0 ==> memory_in.subrange(p as int, p + input@.len()) == input@
            }),
            r matches Ok(out) ==> ({
                &&& final(self).last_call() matches Some(t)
                &&& t.calls()[1] matches GuestCall::Process { packed: Some(pk), memory_out, .. }
                &&& out@.len() == (pk as u64) % 0x1_0000_0000
                &&& out@.len() <= 1048576
                &&& (pk as u64) / 0x1_0000_0000 + out@.len() <= memory_out.len()
                &&& out@ == memory_out.subrange(
                    ((pk as u64) / 0x1_0000_0000) as int,
                    (pk as u64) / 0x1_0000_0000 + out@.len(),
                )
            }),
    {
        self.last_call = Ghost(None);
        proof {
            self.lemma_same_registry(*old(self));
        }
        let i = match self.find(id) {
            Some(i) => i,
            None => return Err(RuntimeError::NotFound),
        };
        proof {
            self.lemma_slot(i as int);
        }
        let ghost pre = *self;
        let module = module_clone(&self.modules[i].module);
        let store = match self.new_store() {
            Ok(store) => store,
            Err(e) => return Err(e),
        };
        let mut guest = match Guest::start(&self.linker, store, &module) {
            Ok(guest) => guest,
            Err(StartError::Engine(e)) => return Err(RuntimeError::Engine(e)),
            Err(StartError::NoMemoryExport(t)) => {
                self.last_call = Ghost(Some(t@));
                proof {
                    self.lemma_same_registry(pre);
                }
                return Err(RuntimeError::NoMemoryExport);
            },
        };
        self.last_call = Ghost(Some(guest.trace()));
        proof {
            self.lemma_same_registry(pre);
        }
        if input.len() > i32::MAX as usize {
            return Err(RuntimeError::InputTooLarge { len: input.len() });
        }
        let len: i32 = input.len() as i32;
        let alloc = call_alloc(&mut guest, len);
        self.last_call = Ghost(Some(guest.trace()));
        proof {
            self.lemma_same_registry(pre);
        }
        let in_ptr = match alloc {
            Ok(p) => p,
            Err(e) => return Err(RuntimeError::Engine(e)),
        };
        if in_ptr == 0 {
            return Err(RuntimeError::NullAlloc { len: input.len() });
        }
        let offset: usize = #[verifier::truncate] (in_ptr as usize);
        match memory_write(&mut guest, offset, input) {
            Ok(()) => {},
            Err(e) => return Err(RuntimeError::MemoryAccess(e)),
        }
        proof {
            assert(guest.contents().subrange(offset as int, offset + input@.len()) =~= input@);
        }
        let process = call_process(&mut guest, in_ptr, len);
        self.last_call = Ghost(Some(guest.trace()));
        proof {
            self.lemma_same_registry(pre);
        }
        let packed = match process {
            Ok(p) => p,
            Err(e) => return Err(RuntimeError::Engine(e)),
        };
        let mem_size = memory_size(&guest);
        let (out_ptr, out_len) = match decode_output_region(packed, mem_size) {
            Ok(region) => region,
            Err(e) => return Err(RuntimeError::Output(e)),
        };
        let mut result = zeroed(out_len);
        match memory_read(&guest, out_ptr, &mut result) {
            Ok(()) => {},
            Err(e) => return Err(RuntimeError::MemoryAccess(e)),
        }
        if guest.has_dealloc() {
            let _ = call_dealloc(&mut guest, in_ptr, len);
        }
        self.last_call = Ghost(Some(guest.trace()));
        let c = self.call_counts[i];
        let next: u64 = if c == u64::MAX {
            c
        } else {
            c + 1
        };
        let ghost mid = *self;
        self.call_counts.set(i, next);
        proof {
            mid.lemma_same_registry(pre);
            self.lemma_updated_slot(mid, i as int);
            assert(self.modules@ =~= mid.modules@);
            assert(self.compiled() =~= pre.compiled());
        }
        Ok(result)
    }
}

/// The address space each linear memory reserves under `limits`.
fn reservation_bytes(limits: ExecutionLimits) -> (r: u64)
    ensures
        r == memory_reservation(limits),
{
    if (limits.max_memory_bytes as u64) < 0x1_0000_0000u64 {
        limits.max_memory_bytes as u64
    } else {
        0x1_0000_0000u64
    }
}

/// `len` zero bytes.
fn zeroed(len: usize) -> (r: Vec<u8>)
    ensures
        r.len() == len,
        forall|j: int| 0 <= j < len ==> r@[j] == 0,
{
    let mut out: Vec<u8> = Vec::new();
    let mut i: usize = 0;
    while i < len
        invariant
            i <= len,
            out.len() == i,
            forall|j: int| 0 <= j < i ==> out@[j] == 0,
        decreases len - i,
    {
        out.push(0);
        i = i + 1;
    }
    out
}

} // verus!
