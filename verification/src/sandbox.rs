//! The engine side of the sandbox: the wasmtime and WASI types the runtime
//! holds, and one trusted wrapper for each engine operation it performs.
//!
//! The wrappers' contracts are trusted, not proved. What the engine keeps to
//! itself is modelled by ghost fields that only these wrappers set: the bytes
//! a compiled module came from, the limits, fuel and WASI grants a store was
//! given, the engine a store or linker belongs to, what the linker serves as
//! `kelvane::infer`, whether an instance exports its memory, the contents of a
//! guest's linear memory, and the calls made into a guest with what they
//! answered. What the guest code does when it runs is left open: after a call
//! into the guest, its memory may hold anything. A [`CallTrace`] is made only
//! here, from that model.

use vstd::prelude::*;
use wasmtime::{Caller, Config, Engine, Instance, Linker, Memory, MemoryAccessError, Module, Store, StoreLimits, StoreLimitsBuilder, TypedFunc};
use wasmtime_wasi::p1::WasiP1Ctx;
use wasmtime_wasi::WasiCtxBuilder;

verus! {

#[verifier::external_type_specification]
#[verifier::external_body]
pub struct ExEngine(wasmtime::Engine);

#[verifier::external_type_specification]
#[verifier::external_body]
pub struct ExConfig(wasmtime::Config);

#[verifier::external_type_specification]
#[verifier::external_body]
pub struct ExModule(wasmtime::Module);

#[verifier::external_type_specification]
#[verifier::external_body]
pub struct ExInstance(wasmtime::Instance);

#[verifier::external_type_specification]
#[verifier::external_body]
pub struct ExMemory(wasmtime::Memory);

#[verifier::external_type_specification]
#[verifier::external_body]
pub struct ExMemoryAccessError(wasmtime::MemoryAccessError);

#[verifier::external_type_specification]
#[verifier::external_body]
pub struct ExWasmtimeError(wasmtime::Error);

#[verifier::external_type_specification]
#[verifier::external_body]
pub struct ExStoreLimits(wasmtime::StoreLimits);

#[verifier::external_type_specification]
#[verifier::external_body]
pub struct ExStoreLimitsBuilder(wasmtime::StoreLimitsBuilder);

#[verifier::external_type_specification]
#[verifier::external_body]
pub struct ExWasiP1Ctx(wasmtime_wasi::p1::WasiP1Ctx);

#[verifier::external_type_specification]
#[verifier::external_body]
#[verifier::reject_recursive_types(T)]
pub struct ExStore<T: 'static>(wasmtime::Store<T>);

#[verifier::external_type_specification]
#[verifier::external_body]
#[verifier::reject_recursive_types(T)]
pub struct ExLinker<T>(wasmtime::Linker<T>);

#[verifier::external_type_specification]
#[verifier::external_body]
#[verifier::reject_recursive_types(T)]
pub struct ExCaller<'a, T: 'static>(wasmtime::Caller<'a, T>);

#[verifier::external_type_specification]
#[verifier::external_body]
#[verifier::reject_recursive_types(Params)]
#[verifier::reject_recursive_types(Results)]
pub struct ExTypedFunc<Params, Results>(wasmtime::TypedFunc<Params, Results>);

/// wasmtime's default cap on the instances of a store.
pub const DEFAULT_INSTANCE_LIMIT: usize = 10000;

/// wasmtime's default cap on the memories of a store.
pub const DEFAULT_MEMORY_LIMIT: usize = 10000;

/// The settings of a `StoreLimits` that this crate configures: the cap on each
/// linear memory in bytes (`None` for no cap), and the caps on the number of
/// instances and of memories in a store.
#[derive(Debug, Clone, Copy)]
pub struct LimitsModel {
    pub memory_size: Option<usize>,
    pub instances: usize,
    pub memories: usize,
}

/// The settings of a fresh `StoreLimitsBuilder`.
pub open spec fn default_limits() -> LimitsModel {
    LimitsModel { memory_size: None, instances: DEFAULT_INSTANCE_LIMIT, memories: DEFAULT_MEMORY_LIMIT }
}

/// What a WASI context lets a guest reach on the host, beyond the clocks and
/// random numbers every context offers: preopened directories, environment
/// variables, arguments, an open stdin, stdout or stderr that go somewhere,
/// socket addresses it may use, and name lookup.
#[derive(Debug, Clone, Copy)]
pub struct WasiGrants {
    pub preopens: bool,
    pub env: bool,
    pub args: bool,
    pub stdin: bool,
    pub stdout: bool,
    pub stderr: bool,
    pub socket_addresses: bool,
    pub name_lookup: bool,
}

/// No authority at all: none of the grants.
pub open spec fn no_authority() -> WasiGrants {
    WasiGrants {
        preopens: false,
        env: false,
        args: false,
        stdin: false,
        stdout: false,
        stderr: false,
        socket_addresses: false,
        name_lookup: false,
    }
}

/// What a store has been given: its limits, whether the engine consults them,
/// whether its engine meters fuel, its fuel, and what its WASI context grants.
#[derive(Debug, Clone, Copy)]
pub struct StoreModel {
    pub limits: LimitsModel,
    pub limiter_installed: bool,
    pub fuel_metered: bool,
    pub fuel: u64,
    pub wasi: WasiGrants,
}

/// A `StoreLimitsBuilder` and the settings it holds so far.
pub(crate) struct LimitsBuilder {
    builder: StoreLimitsBuilder,
    model: Ghost<LimitsModel>,
}

impl LimitsBuilder {
    pub(crate) closed spec fn model(&self) -> LimitsModel {
        self.model@
    }
}

/// A compiled module and the bytes it was compiled from.
pub struct CompiledModule {
    module: Module,
    source: Ghost<Seq<u8>>,
}

impl CompiledModule {
    /// The bytes (binary or text format) the module was compiled from.
    pub closed spec fn source(&self) -> Seq<u8> {
        self.source@
    }
}

/// What every sandbox store carries: a WASI context and the store's limits.
pub struct HostState {
    wasi: WasiP1Ctx,
    grants: Ghost<WasiGrants>,
    limits: StoreLimits,
    limits_model: Ghost<LimitsModel>,
}

impl HostState {
    /// The settings of the limits the state carries.
    pub closed spec fn limits(&self) -> LimitsModel {
        self.limits_model@
    }

    /// What the state's WASI context grants.
    pub closed spec fn grants(&self) -> WasiGrants {
        self.grants@
    }

    /// A state whose WASI context is built from a fresh, default builder and
    /// grants nothing, and whose limits allow one instance, one memory, and
    /// at most `max_memory_bytes` of linear memory.
    pub fn new(max_memory_bytes: usize) -> (r: HostState)
        ensures
            r.limits() == (LimitsModel { memory_size: Some(max_memory_bytes), instances: 1, memories: 1 }),
            r.grants() == no_authority(),
    {
        let (wasi, grants) = wasi_context_empty();
        let b = limits_builder_new();
        let b = limits_memory_size(b, max_memory_bytes);
        let b = limits_instances(b, 1);
        let b = limits_memories(b, 1);
        let limits = limits_build(b);
        HostState { wasi, grants, limits: limits.0, limits_model: limits.1 }
    }
}

/// `wasmtime_wasi::WasiCtxBuilder::new` then `build_p1` on that fresh
/// builder: the preview-1 context of a builder left at its documented
/// defaults, which are closed stdin, stdout and stderr that discard what they
/// are given, no environment variables, no arguments, no preopened
/// directories, every socket address denied and name lookup denied.
#[verifier::external_body]
fn wasi_context_empty() -> (r: (WasiP1Ctx, Ghost<WasiGrants>))
    ensures
        r.1@ == no_authority(),
{
    (WasiCtxBuilder::new().build_p1(), Ghost(no_authority()))
}

/// `wasmtime::StoreLimitsBuilder::new`: the engine's default limits (no
/// memory cap, 10 000 instances, 10 000 memories).
#[verifier::external_body]
fn limits_builder_new() -> (r: LimitsBuilder)
    ensures
        r.model() == default_limits(),
{
    LimitsBuilder { builder: StoreLimitsBuilder::new(), model: Ghost(default_limits()) }
}

/// `wasmtime::StoreLimitsBuilder::memory_size`: caps each linear memory at
/// `limit` bytes, leaving the other settings.
#[verifier::external_body]
fn limits_memory_size(b: LimitsBuilder, limit: usize) -> (r: LimitsBuilder)
    ensures
        r.model() == (LimitsModel { memory_size: Some(limit), ..b.model() }),
{
    LimitsBuilder { builder: b.builder.memory_size(limit), model: Ghost(LimitsModel { memory_size: Some(limit), ..b.model@ }) }
}

/// `wasmtime::StoreLimitsBuilder::instances`: caps the instances of a store,
/// leaving the other settings.
#[verifier::external_body]
fn limits_instances(b: LimitsBuilder, limit: usize) -> (r: LimitsBuilder)
    ensures
        r.model() == (LimitsModel { instances: limit, ..b.model() }),
{
    LimitsBuilder { builder: b.builder.instances(limit), model: Ghost(LimitsModel { instances: limit, ..b.model@ }) }
}

/// `wasmtime::StoreLimitsBuilder::memories`: caps the memories of a store,
/// leaving the other settings.
#[verifier::external_body]
fn limits_memories(b: LimitsBuilder, limit: usize) -> (r: LimitsBuilder)
    ensures
        r.model() == (LimitsModel { memories: limit, ..b.model() }),
{
    LimitsBuilder { builder: b.builder.memories(limit), model: Ghost(LimitsModel { memories: limit, ..b.model@ }) }
}

/// `wasmtime::StoreLimitsBuilder::build`: the limits configured so far.
#[verifier::external_body]
fn limits_build(b: LimitsBuilder) -> (r: (StoreLimits, Ghost<LimitsModel>))
    ensures
        r.1@ == b.model(),
{
    (b.builder.build(), b.model)
}

/// An engine configuration and whether it turns fuel metering on.
pub(crate) struct EngineConfig {
    config: Config,
    consume_fuel: Ghost<bool>,
}

impl EngineConfig {
    pub(crate) closed spec fn consumes_fuel(&self) -> bool {
        self.consume_fuel@
    }
}

/// An engine and whether it meters the fuel of the code it runs.
pub(crate) struct SandboxEngine {
    engine: Engine,
    meters_fuel: Ghost<bool>,
}

impl SandboxEngine {
    /// The engine itself.
    pub(crate) closed spec fn handle(&self) -> Engine {
        self.engine
    }

    /// The engine meters fuel: every store of it starts with none and traps
    /// when what it was given runs out.
    pub(crate) closed spec fn meters_fuel(&self) -> bool {
        self.meters_fuel@
    }
}

/// `wasmtime::Config::new`: the engine's default configuration, in which fuel
/// metering is off.
#[verifier::external_body]
pub(crate) fn config_new() -> (r: EngineConfig)
    ensures
        !r.consumes_fuel(),
{
    EngineConfig { config: Config::new(), consume_fuel: Ghost(false) }
}

/// `wasmtime::Config::consume_fuel(true)`: turns fuel metering on.
#[verifier::external_body]
pub(crate) fn config_consume_fuel(c: &mut EngineConfig)
    ensures
        final(c).consumes_fuel(),
{
    c.config.consume_fuel(true);
    c.consume_fuel = Ghost(true);
}

/// `wasmtime::Config::cranelift_opt_level` with `OptLevel::Speed`; fuel
/// metering is left as it was.
#[verifier::external_body]
pub(crate) fn config_optimize_for_speed(c: &mut EngineConfig)
    ensures
        final(c).consumes_fuel() == old(c).consumes_fuel(),
{
    c.config.cranelift_opt_level(wasmtime::OptLevel::Speed);
}

/// `wasmtime::Config::memory_reservation`: each linear memory reserves
/// `bytes` of address space up front; fuel metering is left as it was.
#[verifier::external_body]
pub(crate) fn config_memory_reservation(c: &mut EngineConfig, bytes: u64)
    ensures
        final(c).consumes_fuel() == old(c).consumes_fuel(),
{
    c.config.memory_reservation(bytes);
}

/// `wasmtime::Engine::new`: an engine built from a copy of `config`, so it
/// meters fuel exactly when the configuration says so; or the engine's reason
/// to refuse the configuration.
#[verifier::external_body]
pub(crate) fn engine_new(c: &EngineConfig) -> (r: Result<SandboxEngine, wasmtime::Error>)
    ensures
        r matches Ok(e) ==> e.meters_fuel() == c.consumes_fuel(),
{
    let engine = Engine::new(&c.config)?;
    Ok(SandboxEngine { engine, meters_fuel: c.consume_fuel })
}

/// Why the engine refused to compile a module.
#[derive(Debug)]
pub struct CompileError {
    error: wasmtime::Error,
}

impl CompileError {
    /// The engine's own error.
    pub fn into_error(self) -> wasmtime::Error {
        self.error
    }
}

/// `wasmtime::Module::new`: compiles (or, for the text format, parses and
/// compiles) `bytes`, or returns why it cannot. The module it returns is the
/// compilation of `bytes`. Whether it succeeds depends on the engine's
/// configuration as well as on the bytes, so that is not stated.
#[verifier::external_body]
pub(crate) fn compile_module(engine: &SandboxEngine, bytes: &[u8]) -> (r: Result<CompiledModule, CompileError>)
    ensures
        r matches Ok(m) ==> m.source() == bytes@,
{
    match Module::new(&engine.engine, bytes) {
        Ok(module) => Ok(CompiledModule { module, source: Ghost(bytes@) }),
        Err(error) => Err(CompileError { error }),
    }
}

/// `<wasmtime::Module as Clone>::clone`: another handle to the same compiled
/// module.
#[verifier::external_body]
pub(crate) fn module_clone(m: &CompiledModule) -> (r: CompiledModule)
    ensures
        r.source() == m.source(),
{
    CompiledModule { module: m.module.clone(), source: Ghost(m.source@) }
}

/// A store of the sandbox, the engine it belongs to, and what it was given.
pub(crate) struct SandboxStore {
    store: Store<HostState>,
    engine: Ghost<Engine>,
    model: Ghost<StoreModel>,
}

impl SandboxStore {
    pub(crate) closed spec fn engine(&self) -> Engine {
        self.engine@
    }

    pub(crate) closed spec fn model(&self) -> StoreModel {
        self.model@
    }
}

/// `wasmtime::Store::new`: a fresh store of `engine` holding `state`. It
/// carries the state's limits, which the engine does not consult until a
/// limiter is installed, and no fuel.
#[verifier::external_body]
pub(crate) fn store_new(engine: &SandboxEngine, state: HostState) -> (r: SandboxStore)
    ensures
        r.engine() == engine.handle(),
        r.model() == (StoreModel {
            limits: state.limits(),
            limiter_installed: false,
            fuel_metered: engine.meters_fuel(),
            fuel: 0,
            wasi: state.grants(),
        }),
{
    let model = StoreModel {
        limits: state.limits_model@,
        limiter_installed: false,
        fuel_metered: engine.meters_fuel@,
        fuel: 0,
        wasi: state.grants@,
    };
    SandboxStore { store: Store::new(&engine.engine, state), engine: Ghost(engine.engine), model: Ghost(model) }
}

/// `wasmtime::Store::limiter`, with a closure that hands the engine the
/// store's own `StoreLimits`: from then on the engine consults them.
#[verifier::external_body]
pub(crate) fn store_apply_limits(s: &mut SandboxStore)
    ensures
        final(s).engine() == old(s).engine(),
        final(s).model() == (StoreModel { limiter_installed: true, ..old(s).model() }),
{
    s.store.limiter(|state: &mut HostState| &mut state.limits);
    s.model = Ghost(StoreModel { limiter_installed: true, ..s.model@ });
}

/// `wasmtime::Store::set_fuel`: gives the store `fuel` units to execute with.
/// It fails, changing nothing, when the engine does not meter fuel (or when
/// memory runs out).
#[verifier::external_body]
pub(crate) fn store_set_fuel(s: &mut SandboxStore, fuel: u64) -> (r: Result<(), wasmtime::Error>)
    ensures
        final(s).engine() == old(s).engine(),
        !old(s).model().fuel_metered ==> r is Err,
        r is Ok ==> final(s).model() == (StoreModel { fuel: fuel, ..old(s).model() }),
        r is Err ==> final(s).model() == old(s).model(),
{
    s.store.set_fuel(fuel)?;
    s.model = Ghost(StoreModel { fuel: fuel, ..s.model@ });
    Ok(())
}

/// What a linker serves as the import `kelvane::infer`: a function that
/// reports inference unavailable, or one the host supplied.
#[derive(Debug, Clone, Copy)]
pub enum InferImport {
    Unavailable,
    Served,
}

/// The imports a linker defines, and nothing else: the WASI preview-1
/// functions (module `wasi_snapshot_preview1`) when `wasi_p1` holds, and
/// `kelvane::infer` as `infer` says (`None`: not defined).
#[derive(Debug, Clone, Copy)]
pub struct LinkerImports {
    pub wasi_p1: bool,
    pub infer: Option<InferImport>,
}

/// A linker, the engine it belongs to, and the imports it defines.
pub(crate) struct HostLinker {
    linker: Linker<HostState>,
    engine: Ghost<Engine>,
    imports: Ghost<LinkerImports>,
}

impl HostLinker {
    pub(crate) closed spec fn engine(&self) -> Engine {
        self.engine@
    }

    pub(crate) closed spec fn imports(&self) -> LinkerImports {
        self.imports@
    }
}

/// `wasmtime::Linker::new`: an empty linker for `engine`.
#[verifier::external_body]
pub(crate) fn linker_new(engine: &SandboxEngine) -> (r: HostLinker)
    ensures
        r.engine() == engine.handle(),
        r.imports() == (LinkerImports { wasi_p1: false, infer: None }),
{
    let imports = LinkerImports { wasi_p1: false, infer: None };
    HostLinker { linker: Linker::new(&engine.engine), engine: Ghost(engine.engine), imports: Ghost(imports) }
}

/// `wasmtime::Linker::allow_shadowing(true)`: a later definition of a name
/// replaces the earlier one.
#[verifier::external_body]
pub(crate) fn linker_allow_shadowing(l: &mut HostLinker)
    ensures
        final(l).engine() == old(l).engine(),
        final(l).imports() == old(l).imports(),
{
    l.linker.allow_shadowing(true);
}

/// `wasmtime_wasi::p1::add_to_linker_sync`, with a closure that hands it the
/// store's WASI context: defines the WASI preview-1 functions of module
/// `wasi_snapshot_preview1`, and nothing else.
#[verifier::external_body]
pub(crate) fn linker_add_wasi(l: &mut HostLinker) -> (r: Result<(), wasmtime::Error>)
    ensures
        final(l).engine() == old(l).engine(),
        final(l).imports().infer == old(l).imports().infer,
        r is Ok ==> final(l).imports().wasi_p1,
{
    wasmtime_wasi::p1::add_to_linker_sync(&mut l.linker, |state: &mut HostState| &mut state.wasi)?;
    l.imports = Ghost(LinkerImports { wasi_p1: true, ..l.imports@ });
    Ok(())
}

/// `wasmtime::Linker::func_wrap` for the import `kelvane::infer`, defined as a
/// function that answers `infer_unavailable` of its arguments. A failure
/// defines nothing.
#[verifier::external_body]
pub(crate) fn linker_add_infer_unavailable(l: &mut HostLinker) -> (r: Result<(), wasmtime::Error>)
    ensures
        final(l).engine() == old(l).engine(),
        r is Ok ==> final(l).imports() == (LinkerImports {
            infer: Some(InferImport::Unavailable),
            ..old(l).imports()
        }),
        r is Err ==> final(l).imports() == old(l).imports(),
{
    l.linker.func_wrap(
        crate::infer::INFER_MODULE,
        crate::infer::INFER_NAME,
        |in_ptr: i32, in_len: i32, out_ptr: i32, out_cap: i32| -> i32 {
            crate::infer::infer_unavailable(in_ptr, in_len, out_ptr, out_cap)
        },
    )?;
    l.imports = Ghost(LinkerImports { infer: Some(InferImport::Unavailable), ..l.imports@ });
    Ok(())
}

/// `wasmtime::Linker::func_wrap` for the import `kelvane::infer`, defined as
/// `f`. A failure defines nothing.
#[verifier::external_body]
pub(crate) fn linker_define_infer<F>(l: &mut HostLinker, f: F) -> (r: Result<(), wasmtime::Error>)
    where
        F: Fn(Caller<'_, HostState>, i32, i32, i32, i32) -> i32 + Send + Sync + 'static,
    ensures
        final(l).engine() == old(l).engine(),
        r is Ok ==> final(l).imports() == (LinkerImports { infer: Some(InferImport::Served), ..old(l).imports() }),
        r is Err ==> final(l).imports() == old(l).imports(),
{
    l.linker.func_wrap(crate::infer::INFER_MODULE, crate::infer::INFER_NAME, f)?;
    l.imports = Ghost(LinkerImports { infer: Some(InferImport::Served), ..l.imports@ });
    Ok(())
}

/// A call the host made into a guest, with its arguments, its answer (`None`
/// when the guest trapped) and the guest's memory around it.
pub enum GuestCall {
    /// `module_alloc(len)`, the pointer it returned, and the memory when it
    /// returned.
    Alloc { len: i32, returned: Option<i32>, memory: Seq<u8> },
    /// `process(ptr, len)`, the memory when it was called, the packed region
    /// it returned, and the memory when it returned.
    Process { ptr: i32, len: i32, memory_in: Seq<u8>, packed: Option<i64>, memory_out: Seq<u8> },
    /// `module_dealloc(ptr, len)`.
    Dealloc { ptr: i32, len: i32 },
}

/// The answer a call into the guest gave, or `None` when it trapped.
pub open spec fn answer_of<T>(r: Result<T, wasmtime::Error>) -> Option<T> {
    match r {
        Ok(v) => Some(v),
        Err(_) => None,
    }
}

/// What happened to one instantiated guest: the bytes of its module, what its
/// store was given, the imports its linker offered, whether it
/// exports a linear memory named `memory` and a `module_dealloc`, and the
/// calls made into it since it was instantiated, in order. Only this module
/// makes one, from the model its wrappers keep.
pub struct CallTrace {
    source: Seq<u8>,
    given: StoreModel,
    imports: LinkerImports,
    exports_memory: bool,
    frees_input: bool,
    calls: Seq<GuestCall>,
}

impl CallTrace {
    pub closed spec fn source(&self) -> Seq<u8> {
        self.source
    }

    pub closed spec fn given(&self) -> StoreModel {
        self.given
    }

    pub closed spec fn imports(&self) -> LinkerImports {
        self.imports
    }

    pub closed spec fn exports_memory(&self) -> bool {
        self.exports_memory
    }

    pub closed spec fn frees_input(&self) -> bool {
        self.frees_input
    }

    pub closed spec fn calls(&self) -> Seq<GuestCall> {
        self.calls
    }
}

/// Two traces are of the same guest: everything but the calls agrees.
pub open spec fn same_guest(a: CallTrace, b: CallTrace) -> bool {
    &&& a.source() == b.source()
    &&& a.given() == b.given()
    &&& a.imports() == b.imports()
    &&& a.exports_memory() == b.exports_memory()
    &&& a.frees_input() == b.frees_input()
}

/// An instance of a module together with the store it lives in, the bytes of
/// the module, what the store had been given when instantiation began, the
/// imports the linker offered, and whether the instance exports a
/// linear memory named `memory`. wasmtime panics when an instance is used
/// with another store; only [`instantiate`] builds one, from a single
/// instantiation.
pub(crate) struct Instantiated {
    store: Store<HostState>,
    instance: Instance,
    source: Ghost<Seq<u8>>,
    given: Ghost<StoreModel>,
    imports: Ghost<LinkerImports>,
    exports_memory: Ghost<bool>,
}

impl Instantiated {
    /// The trace of the instance before any call into it.
    pub(crate) closed spec fn trace(&self) -> CallTrace {
        CallTrace {
            source: self.source@,
            given: self.given@,
            imports: self.imports@,
            exports_memory: self.exports_memory@,
            frees_input: false,
            calls: Seq::empty(),
        }
    }
}

/// `wasmtime::Linker::instantiate`: a new instance of `module` in `store`, or
/// why instantiation failed (a missing import, a trap in the start function,
/// a limit of the store exceeded). wasmtime panics when the store and the
/// linker belong to different engines, which `requires` rules out. Whether it
/// succeeds depends on the guest code, so that is not stated.
#[verifier::external_body]
pub(crate) fn instantiate(linker: &HostLinker, store: SandboxStore, module: &CompiledModule) -> (r: Result<Instantiated, wasmtime::Error>)
    requires
        linker.engine() == store.engine(),
    ensures
        r matches Ok(i) ==> i.trace().source() == module.source() && i.trace().given()
            == store.model() && i.trace().imports() == linker.imports(),
{
    let SandboxStore { mut store, engine: _, model } = store;
    let instance = linker.linker.instantiate(&mut store, &module.module)?;
    Ok(Instantiated {
        store,
        instance,
        source: Ghost(module.source@),
        given: model,
        imports: Ghost(linker.imports@),
        exports_memory: Ghost(vstd::pervasive::arbitrary()),
    })
}

/// A guest's exported linear memory and, as a model, its contents.
pub(crate) struct GuestMemory {
    memory: Memory,
    contents: Ghost<Seq<u8>>,
}

/// `wasmtime::Instance::get_memory` for the export named `memory`, of the
/// instance in its own store: the memory when the instance exports one under
/// that name, else `None`. What the memory holds is the guest's and is not
/// stated.
#[verifier::external_body]
pub(crate) fn export_memory(inst: &mut Instantiated) -> (r: Option<GuestMemory>)
    ensures
        final(inst).trace() == old(inst).trace(),
        r is Some <==> old(inst).trace().exports_memory(),
{
    let memory = inst.instance.get_memory(&mut inst.store, "memory")?;
    Some(GuestMemory { memory, contents: Ghost(vstd::pervasive::arbitrary()) })
}

/// `wasmtime::Instance::get_typed_func`: the guest's export `name` as a
/// function of the given signature, or why it is not one (missing, or of
/// another type), of the instance in its own store. Nothing is stated of it.
#[verifier::external_body]
pub(crate) fn export_func<Params: wasmtime::WasmParams, Results: wasmtime::WasmResults>(
    inst: &mut Instantiated,
    name: &str,
) -> (r: Result<TypedFunc<Params, Results>, wasmtime::Error>)
    ensures
        final(inst).trace() == old(inst).trace(),
{
    inst.instance.get_typed_func::<Params, Results>(&mut inst.store, name)
}

/// A started guest: its instance and store, its exported memory, and its
/// `module_alloc`, `process` and (if exported) `module_dealloc` functions. All
/// of them come from one instantiation: [`Guest::start`] is the only place
/// that builds a `Guest`. `calls` lists the calls made into it since.
pub(crate) struct Guest {
    inst: Instantiated,
    memory: GuestMemory,
    alloc: TypedFunc<i32, i32>,
    process: TypedFunc<(i32, i32), i64>,
    dealloc: Option<TypedFunc<(i32, i32), ()>>,
    calls: Ghost<Seq<GuestCall>>,
}

impl Guest {
    /// What has happened to the guest so far.
    pub(crate) closed spec fn trace(&self) -> CallTrace {
        CallTrace {
            source: self.inst.source@,
            given: self.inst.given@,
            imports: self.inst.imports@,
            exports_memory: self.inst.exports_memory@,
            frees_input: self.dealloc is Some,
            calls: self.calls@,
        }
    }

    /// The contents of the guest's linear memory.
    pub(crate) closed spec fn contents(&self) -> Seq<u8> {
        self.memory.contents@
    }

    /// Whether the guest exports `module_dealloc`.
    pub(crate) fn has_dealloc(&self) -> (r: bool)
        ensures
            r == self.trace().frees_input(),
    {
        self.dealloc.is_some()
    }
}

/// Why a guest could not be started.
pub(crate) enum StartError {
    /// The engine refused to instantiate the module, or an export is missing
    /// or of the wrong type.
    Engine(wasmtime::Error),
    /// The instance exports no linear memory named `memory`; what happened to
    /// it.
    NoMemoryExport(Ghost<CallTrace>),
}

impl Guest {
    /// Instantiate `module` in `store` through `linker`, and find its exported
    /// `memory`, `module_alloc` (`i32 -> i32`), `process` (`(i32, i32) ->
    /// i64`) and, if there is one, `module_dealloc` (`(i32, i32) -> ()`).
    pub(crate) fn start(linker: &HostLinker, store: SandboxStore, module: &CompiledModule) -> (r: Result<Guest, StartError>)
        requires
            linker.engine() == store.engine(),
        ensures
            r matches Ok(g) ==> g.trace().source() == module.source() && g.trace().given()
                == store.model() && g.trace().imports() == linker.imports() && g.trace().exports_memory()
                && g.trace().calls() == Seq::<GuestCall>::empty(),
            r matches Err(StartError::NoMemoryExport(t)) ==> t@.source() == module.source()
                && t@.given() == store.model() && t@.imports() == linker.imports()
                && !t@.exports_memory() && t@.calls() == Seq::<GuestCall>::empty(),
    {
        let mut inst = match instantiate(linker, store, module) {
            Ok(inst) => inst,
            Err(e) => return Err(StartError::Engine(e)),
        };
        let memory = match export_memory(&mut inst) {
            Some(memory) => memory,
            None => return Err(StartError::NoMemoryExport(Ghost(inst.trace()))),
        };
        let alloc = match export_func::<i32, i32>(&mut inst, "module_alloc") {
            Ok(f) => f,
            Err(e) => return Err(StartError::Engine(e)),
        };
        let process = match export_func::<(i32, i32), i64>(&mut inst, "process") {
            Ok(f) => f,
            Err(e) => return Err(StartError::Engine(e)),
        };
        let dealloc = match export_func::<(i32, i32), ()>(&mut inst, "module_dealloc") {
            Ok(f) => Some(f),
            Err(_) => None,
        };
        Ok(Guest { inst, memory, alloc, process, dealloc, calls: Ghost(Seq::empty()) })
    }
}

/// `wasmtime::TypedFunc::call` of the guest's `module_alloc` with `len`: its
/// answer, or the trap it raised. The guest may change its memory.
#[verifier::external_body]
pub(crate) fn call_alloc(g: &mut Guest, len: i32) -> (r: Result<i32, wasmtime::Error>)
    ensures
        same_guest(final(g).trace(), old(g).trace()),
        final(g).trace().calls() == old(g).trace().calls().push(
            GuestCall::Alloc { len, returned: answer_of(r), memory: final(g).contents() },
        ),
{
    let r = g.alloc.call(&mut g.inst.store, len);
    g.memory.contents = Ghost(vstd::pervasive::arbitrary());
    g.calls = Ghost(g.calls@.push(GuestCall::Alloc { len, returned: answer_of(r), memory: g.memory.contents@ }));
    r
}

/// `wasmtime::TypedFunc::call` of the guest's `process` with `(ptr, len)`:
/// its packed return, or the trap it raised (fuel or stack exhausted, an
/// explicit trap). The guest may change its memory.
#[verifier::external_body]
pub(crate) fn call_process(g: &mut Guest, ptr: i32, len: i32) -> (r: Result<i64, wasmtime::Error>)
    ensures
        same_guest(final(g).trace(), old(g).trace()),
        final(g).trace().calls() == old(g).trace().calls().push(
            GuestCall::Process {
                ptr,
                len,
                memory_in: old(g).contents(),
                packed: answer_of(r),
                memory_out: final(g).contents(),
            },
        ),
{
    let memory_in = g.memory.contents;
    let r = g.process.call(&mut g.inst.store, (ptr, len));
    g.memory.contents = Ghost(vstd::pervasive::arbitrary());
    g.calls = Ghost(g.calls@.push(
        GuestCall::Process { ptr, len, memory_in: memory_in@, packed: answer_of(r), memory_out: g.memory.contents@ },
    ));
    r
}

/// `wasmtime::TypedFunc::call` of the guest's `module_dealloc` with
/// `(ptr, len)`. The guest may change its memory.
#[verifier::external_body]
pub(crate) fn call_dealloc(g: &mut Guest, ptr: i32, len: i32) -> (r: Result<(), wasmtime::Error>)
    requires
        old(g).trace().frees_input(),
    ensures
        same_guest(final(g).trace(), old(g).trace()),
        final(g).trace().calls() == old(g).trace().calls().push(GuestCall::Dealloc { ptr, len }),
{
    g.calls = Ghost(g.calls@.push(GuestCall::Dealloc { ptr, len }));
    let r = match &g.dealloc {
        Some(f) => f.call(&mut g.inst.store, (ptr, len)),
        None => Ok(()),
    };
    g.memory.contents = Ghost(vstd::pervasive::arbitrary());
    r
}

/// `wasmtime::Memory::write`: copies `bytes` into the guest's memory at
/// `offset` when the range lies inside the memory, and otherwise writes
/// nothing and fails.
#[verifier::external_body]
pub(crate) fn memory_write(g: &mut Guest, offset: usize, bytes: &[u8]) -> (r: Result<(), MemoryAccessError>)
    ensures
        final(g).trace() == old(g).trace(),
        r is Ok <==> offset + bytes@.len() <= old(g).contents().len(),
        r is Ok ==> final(g).contents() == old(g).contents().subrange(0, offset as int) + bytes@
            + old(g).contents().subrange(offset + bytes@.len(), old(g).contents().len() as int),
        r is Err ==> final(g).contents() == old(g).contents(),
{
    let before = g.memory.contents;
    let r = g.memory.memory.write(&mut g.inst.store, offset, bytes);
    if r.is_ok() {
        g.memory.contents = Ghost(
            before@.subrange(0, offset as int) + bytes@ + before@.subrange(offset + bytes@.len(), before@.len() as int),
        );
    }
    r
}

/// `wasmtime::Memory::data_size`: the guest memory's current size in bytes.
#[verifier::external_body]
pub(crate) fn memory_size(g: &Guest) -> (r: usize)
    ensures
        r == g.contents().len(),
{
    g.memory.memory.data_size(&g.inst.store)
}

/// `wasmtime::Memory::read` into `buf`: fills `buf` from the guest's memory at
/// `offset` when the range lies inside the memory, and otherwise fails and
/// leaves `buf` untouched.
#[verifier::external_body]
pub(crate) fn memory_read(g: &Guest, offset: usize, buf: &mut Vec<u8>) -> (r: Result<(), MemoryAccessError>)
    ensures
        final(buf)@.len() == old(buf)@.len(),
        r is Ok <==> offset + old(buf)@.len() <= g.contents().len(),
        r is Ok ==> final(buf)@ == g.contents().subrange(offset as int, offset + old(buf)@.len()),
        r is Err ==> final(buf)@ == old(buf)@,
{
    g.memory.memory.read(&g.inst.store, offset, buf.as_mut_slice())
}

} // verus!
