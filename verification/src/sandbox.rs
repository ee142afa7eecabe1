//! The trusted boundary to the sandbox VM.
//!
//! Everything the runtime knows about the VM it knows through the wrappers
//! here: each one makes a single call into the `wasmtime` (or
//! `wasmtime-wasi`) crate, converts the arguments and the result, and states
//! no more than that crate's source shows. A module's exported functions may
//! compute anything and may rewrite linear memory arbitrarily, so the call
//! wrappers promise nothing about the memory or the returned word; what the
//! runtime guarantees about protocol traffic is proved downstream of them,
//! over whatever comes back.
//!
//! wasmtime panics when a handle is used with a store that does not own it,
//! or when a linker instantiates into a store of another engine. The
//! ownership names below ([`store_id`], [`engine_id`], [`func_store`] and
//! their kin) model those relationships: creation wrappers state which
//! owner a fresh handle belongs to, every wrapper that mutates a store
//! states that the store's identity is unchanged, and every wrapper whose
//! callee panics on a mismatched pairing requires the matching ownership,
//! so verified code cannot reach those panics.
//!
//! The contents of an instance's linear memory are named by [`mem_view`],
//! a sequence of bytes determined by the store's state; the read, write,
//! size and grow wrappers are specified against it. The exported names of a
//! parsed module are named by [`module_exports`].

use vstd::prelude::*;
use wasmtime::Engine as WtEngine;
use wasmtime::Instance as WtInstance;
use wasmtime::Module as WtModule;

verus! {

#[verifier::external_type_specification]
#[verifier::external_body]
pub struct ExEngine(WtEngine);

#[verifier::external_type_specification]
#[verifier::external_body]
#[verifier::reject_recursive_types(T)]
pub struct ExLinker<T>(wasmtime::Linker<T>);

#[verifier::external_type_specification]
#[verifier::external_body]
pub struct ExModule(WtModule);

#[verifier::external_type_specification]
#[verifier::external_body]
#[verifier::reject_recursive_types(T)]
pub struct ExStore<T: 'static>(wasmtime::Store<T>);

#[verifier::external_type_specification]
#[verifier::external_body]
pub struct ExWtInstance(WtInstance);

#[verifier::external_type_specification]
#[verifier::external_body]
pub struct ExFunc(wasmtime::Func);

#[verifier::external_type_specification]
#[verifier::external_body]
#[verifier::reject_recursive_types(Params)]
#[verifier::reject_recursive_types(Results)]
pub struct ExTypedFunc<Params, Results>(wasmtime::TypedFunc<Params, Results>);

#[verifier::external_type_specification]
#[verifier::external_body]
pub struct ExMemory(wasmtime::Memory);

#[verifier::external_type_specification]
#[verifier::external_body]
pub struct ExWasiP1Ctx(wasmtime_wasi::p1::WasiP1Ctx);

/// The identity of an engine.
pub uninterp spec fn engine_id(engine: WtEngine) -> int;

/// The identity of the engine a linker was created for.
pub uninterp spec fn linker_engine(
    linker: wasmtime::Linker<wasmtime_wasi::p1::WasiP1Ctx>,
) -> int;

/// Whether every definition held by a linker was made without a store
/// (host functions only), so that instantiation cannot trip over an item
/// owned by another store.
pub uninterp spec fn linker_storeless(
    linker: wasmtime::Linker<wasmtime_wasi::p1::WasiP1Ctx>,
) -> bool;

/// The identity of a store; fixed at creation, unchanged by any call.
pub uninterp spec fn store_id(store: wasmtime::Store<wasmtime_wasi::p1::WasiP1Ctx>) -> int;

/// The identity of the engine a store was created for.
pub uninterp spec fn store_engine(store: wasmtime::Store<wasmtime_wasi::p1::WasiP1Ctx>) -> int;

/// The identity of the store that owns an instance.
pub uninterp spec fn instance_store(instance: WtInstance) -> int;

/// The identity of the store that owns a function handle.
pub uninterp spec fn func_store(func: wasmtime::Func) -> int;

/// The identity of the store that owns a memory handle.
pub uninterp spec fn memory_store(mem: wasmtime::Memory) -> int;

/// The identity of the store that owns a one-word-in, one-word-out typed
/// handle.
pub uninterp spec fn typed_store_in1_out1(func: wasmtime::TypedFunc<i32, i32>) -> int;

/// The identity of the store that owns a one-word-in, nothing-out typed
/// handle.
pub uninterp spec fn typed_store_in1_out0(func: wasmtime::TypedFunc<i32, ()>) -> int;

/// The identity of the store that owns a two-words-in, one-word-out typed
/// handle.
pub uninterp spec fn typed_store_in2_out1(func: wasmtime::TypedFunc<(i32, i32), i32>) -> int;

/// The identity of the store that owns a four-words-in, one-word-out typed
/// handle.
pub uninterp spec fn typed_store_in4_out1(
    func: wasmtime::TypedFunc<(i32, i32, i32, i32), i32>,
) -> int;

/// The set of names a parsed module exports.
pub uninterp spec fn module_exports(module: WtModule) -> Set<Seq<char>>;

/// The bytes of an instance's linear memory, as determined by the store's
/// state. Module calls may change it arbitrarily; only the wrappers below
/// say how it is read and written from the host side.
pub uninterp spec fn mem_view(
    mem: wasmtime::Memory,
    store: wasmtime::Store<wasmtime_wasi::p1::WasiP1Ctx>,
) -> Seq<u8>;

/// Relies on wasmtime::Engine::default: a fresh engine with the default
/// configuration (64 KiB memory pages).
#[verifier::external_body]
pub(crate) fn engine_default() -> WtEngine {
    WtEngine::default()
}

/// Relies on wasmtime::Linker::new: a fresh linker for the engine, holding
/// no definitions.
#[verifier::external_body]
pub(crate) fn linker_new(engine: &WtEngine) -> (r: wasmtime::Linker<
    wasmtime_wasi::p1::WasiP1Ctx,
>)
    ensures
        linker_engine(r) == engine_id(*engine),
        linker_storeless(r),
{
    wasmtime::Linker::new(engine)
}

/// Relies on wasmtime_wasi::p1::add_to_linker_sync: registers the system
/// interface imports on the linker; on failure yields the rendered error.
/// Every definition it adds is a host function made without a store, and
/// the linker's engine does not change.
#[verifier::external_body]
pub(crate) fn wasi_add_to_linker(
    linker: &mut wasmtime::Linker<wasmtime_wasi::p1::WasiP1Ctx>,
) -> (r: Result<(), String>)
    ensures
        linker_engine(*final(linker)) == linker_engine(*old(linker)),
        linker_storeless(*old(linker)) ==> linker_storeless(*final(linker)),
{
    wasmtime_wasi::p1::add_to_linker_sync(linker, |t| t).map_err(|e| e.to_string())
}

/// Relies on wasmtime_wasi::WasiCtxBuilder: a fresh context that inherits
/// the host's standard streams.
#[verifier::external_body]
pub(crate) fn wasi_ctx_new() -> wasmtime_wasi::p1::WasiP1Ctx {
    wasmtime_wasi::WasiCtxBuilder::new().inherit_stdio().build_p1()
}

/// Relies on wasmtime::Module::new: parses and validates module bytes; on
/// failure yields the rendered error.
#[verifier::external_body]
pub(crate) fn module_new(engine: &WtEngine, bytes: &[u8]) -> Result<
    WtModule,
    String,
> {
    WtModule::new(engine, bytes).map_err(|e| e.to_string())
}

/// Relies on wasmtime::Module::get_export: whether the module exports the
/// given name, which is what [`module_exports`] names.
#[verifier::external_body]
pub(crate) fn module_has_export(module: &WtModule, name: &str) -> (r: bool)
    ensures
        r == module_exports(*module).contains(name@),
{
    module.get_export(name).is_some()
}

/// Relies on wasmtime::Store::new: a fresh store over the engine, holding
/// the context.
#[verifier::external_body]
pub(crate) fn store_new(
    engine: &WtEngine,
    ctx: wasmtime_wasi::p1::WasiP1Ctx,
) -> (r: wasmtime::Store<wasmtime_wasi::p1::WasiP1Ctx>)
    ensures
        store_engine(r) == engine_id(*engine),
{
    wasmtime::Store::new(engine, ctx)
}

/// Relies on wasmtime::Linker::instantiate: links and instantiates the
/// module in the store, running its start section if any; on failure
/// (unresolved imports, a trapping start section, or a module of another
/// engine) yields the rendered error. The callee panics when the store's
/// engine differs from the linker's or when a linker definition is owned
/// by another store, which the preconditions rule out.
#[verifier::external_body]
pub(crate) fn linker_instantiate(
    linker: &wasmtime::Linker<wasmtime_wasi::p1::WasiP1Ctx>,
    store: &mut wasmtime::Store<wasmtime_wasi::p1::WasiP1Ctx>,
    module: &WtModule,
) -> (r: Result<WtInstance, String>)
    requires
        linker_engine(*linker) == store_engine(*old(store)),
        linker_storeless(*linker),
    ensures
        store_id(*final(store)) == store_id(*old(store)),
        store_engine(*final(store)) == store_engine(*old(store)),
        r matches Ok(inst) ==> instance_store(inst) == store_id(*final(store)),
{
    linker.instantiate(&mut *store, module).map_err(|e| e.to_string())
}

/// Relies on wasmtime::Instance::get_func: the exported function of that
/// name, if any. The callee panics when the store does not own the
/// instance, which the precondition rules out.
#[verifier::external_body]
pub(crate) fn instance_get_func(
    instance: &WtInstance,
    store: &mut wasmtime::Store<wasmtime_wasi::p1::WasiP1Ctx>,
    name: &str,
) -> (r: Option<wasmtime::Func>)
    requires
        instance_store(*instance) == store_id(*old(store)),
    ensures
        store_id(*final(store)) == store_id(*old(store)),
        store_engine(*final(store)) == store_engine(*old(store)),
        r matches Some(f) ==> func_store(f) == store_id(*final(store)),
{
    instance.get_func(&mut *store, name)
}

/// Relies on wasmtime::Instance::get_memory: the exported linear memory of
/// that name, if any. The callee panics when the store does not own the
/// instance, which the precondition rules out.
#[verifier::external_body]
pub(crate) fn instance_get_memory(
    instance: &WtInstance,
    store: &mut wasmtime::Store<wasmtime_wasi::p1::WasiP1Ctx>,
    name: &str,
) -> (r: Option<wasmtime::Memory>)
    requires
        instance_store(*instance) == store_id(*old(store)),
    ensures
        store_id(*final(store)) == store_id(*old(store)),
        store_engine(*final(store)) == store_engine(*old(store)),
        r matches Some(m) ==> memory_store(m) == store_id(*final(store)),
{
    instance.get_memory(&mut *store, name)
}

/// Relies on wasmtime::Func::typed: the function checked against the
/// one-word-in, one-word-out signature; on mismatch yields the rendered
/// error. The callee panics when the store does not own the function,
/// which the precondition rules out.
#[verifier::external_body]
pub(crate) fn func_typed_in1_out1(
    func: &wasmtime::Func,
    store: &wasmtime::Store<wasmtime_wasi::p1::WasiP1Ctx>,
) -> (r: Result<wasmtime::TypedFunc<i32, i32>, String>)
    requires
        func_store(*func) == store_id(*store),
    ensures
        r matches Ok(f) ==> typed_store_in1_out1(f) == store_id(*store),
{
    func.typed::<i32, i32>(store).map_err(|e| e.to_string())
}

/// Relies on wasmtime::Func::typed: the function checked against the
/// one-word-in, nothing-out signature; on mismatch yields the rendered
/// error. The callee panics when the store does not own the function,
/// which the precondition rules out.
#[verifier::external_body]
pub(crate) fn func_typed_in1_out0(
    func: &wasmtime::Func,
    store: &wasmtime::Store<wasmtime_wasi::p1::WasiP1Ctx>,
) -> (r: Result<wasmtime::TypedFunc<i32, ()>, String>)
    requires
        func_store(*func) == store_id(*store),
    ensures
        r matches Ok(f) ==> typed_store_in1_out0(f) == store_id(*store),
{
    func.typed::<i32, ()>(store).map_err(|e| e.to_string())
}

/// Relies on wasmtime::Func::typed: the function checked against the
/// two-words-in, one-word-out signature; on mismatch yields the rendered
/// error. The callee panics when the store does not own the function,
/// which the precondition rules out.
#[verifier::external_body]
pub(crate) fn func_typed_in2_out1(
    func: &wasmtime::Func,
    store: &wasmtime::Store<wasmtime_wasi::p1::WasiP1Ctx>,
) -> (r: Result<wasmtime::TypedFunc<(i32, i32), i32>, String>)
    requires
        func_store(*func) == store_id(*store),
    ensures
        r matches Ok(f) ==> typed_store_in2_out1(f) == store_id(*store),
{
    func.typed::<(i32, i32), i32>(store).map_err(|e| e.to_string())
}

/// Relies on wasmtime::Func::typed: the function checked against the
/// four-words-in, one-word-out signature; on mismatch yields the rendered
/// error. The callee panics when the store does not own the function,
/// which the precondition rules out.
#[verifier::external_body]
pub(crate) fn func_typed_in4_out1(
    func: &wasmtime::Func,
    store: &wasmtime::Store<wasmtime_wasi::p1::WasiP1Ctx>,
) -> (r: Result<wasmtime::TypedFunc<(i32, i32, i32, i32), i32>, String>)
    requires
        func_store(*func) == store_id(*store),
    ensures
        r matches Ok(f) ==> typed_store_in4_out1(f) == store_id(*store),
{
    func.typed::<(i32, i32, i32, i32), i32>(store).map_err(|e| e.to_string())
}

/// Relies on wasmtime::TypedFunc::call: runs the module's function; the
/// module decides the result and may rewrite its memory, so nothing is
/// promised of either. A trap yields the rendered error. The callee panics
/// when the store does not own the function, which the precondition rules
/// out.
#[verifier::external_body]
pub(crate) fn call_in1_out1(
    func: &wasmtime::TypedFunc<i32, i32>,
    store: &mut wasmtime::Store<wasmtime_wasi::p1::WasiP1Ctx>,
    a: i32,
) -> (r: Result<i32, String>)
    requires
        typed_store_in1_out1(*func) == store_id(*old(store)),
    ensures
        store_id(*final(store)) == store_id(*old(store)),
        store_engine(*final(store)) == store_engine(*old(store)),
{
    func.call(&mut *store, a).map_err(|e| e.to_string())
}

/// Relies on wasmtime::TypedFunc::call: as [`call_in1_out1`], for the
/// nothing-out signature.
#[verifier::external_body]
pub(crate) fn call_in1_out0(
    func: &wasmtime::TypedFunc<i32, ()>,
    store: &mut wasmtime::Store<wasmtime_wasi::p1::WasiP1Ctx>,
    a: i32,
) -> (r: Result<(), String>)
    requires
        typed_store_in1_out0(*func) == store_id(*old(store)),
    ensures
        store_id(*final(store)) == store_id(*old(store)),
        store_engine(*final(store)) == store_engine(*old(store)),
{
    func.call(&mut *store, a).map_err(|e| e.to_string())
}

/// Relies on wasmtime::TypedFunc::call: as [`call_in1_out1`], for the
/// two-words-in signature.
#[verifier::external_body]
pub(crate) fn call_in2_out1(
    func: &wasmtime::TypedFunc<(i32, i32), i32>,
    store: &mut wasmtime::Store<wasmtime_wasi::p1::WasiP1Ctx>,
    a: i32,
    b: i32,
) -> (r: Result<i32, String>)
    requires
        typed_store_in2_out1(*func) == store_id(*old(store)),
    ensures
        store_id(*final(store)) == store_id(*old(store)),
        store_engine(*final(store)) == store_engine(*old(store)),
{
    func.call(&mut *store, (a, b)).map_err(|e| e.to_string())
}

/// Relies on wasmtime::TypedFunc::call: as [`call_in1_out1`], for the
/// four-words-in signature.
#[verifier::external_body]
pub(crate) fn call_in4_out1(
    func: &wasmtime::TypedFunc<(i32, i32, i32, i32), i32>,
    store: &mut wasmtime::Store<wasmtime_wasi::p1::WasiP1Ctx>,
    a: i32,
    b: i32,
    c: i32,
    d: i32,
) -> (r: Result<i32, String>)
    requires
        typed_store_in4_out1(*func) == store_id(*old(store)),
    ensures
        store_id(*final(store)) == store_id(*old(store)),
        store_engine(*final(store)) == store_engine(*old(store)),
{
    func.call(&mut *store, (a, b, c, d)).map_err(|e| e.to_string())
}

/// Relies on wasmtime::Func::call: runs a no-argument, no-result export
/// (the reactor initialization hook). A trap or signature mismatch yields
/// the rendered error. The callee panics when the store does not own the
/// function, which the precondition rules out.
#[verifier::external_body]
pub(crate) fn func_call_noargs(
    func: &wasmtime::Func,
    store: &mut wasmtime::Store<wasmtime_wasi::p1::WasiP1Ctx>,
) -> (r: Result<(), String>)
    requires
        func_store(*func) == store_id(*old(store)),
    ensures
        store_id(*final(store)) == store_id(*old(store)),
        store_engine(*final(store)) == store_engine(*old(store)),
{
    func.call(&mut *store, &[], &mut []).map_err(|e| e.to_string())
}

/// Relies on wasmtime::Memory::data: the memory's bytes are [`mem_view`];
/// an in-bounds range is copied out, an out-of-bounds one refused. The
/// callee panics when the store does not own the memory, which the
/// precondition rules out.
#[verifier::external_body]
pub(crate) fn memory_read(
    mem: &wasmtime::Memory,
    store: &wasmtime::Store<wasmtime_wasi::p1::WasiP1Ctx>,
    ptr: usize,
    len: usize,
) -> (r: Option<Vec<u8>>)
    requires
        memory_store(*mem) == store_id(*store),
    ensures
        r is Some <==> ptr + len <= mem_view(*mem, *store).len(),
        r matches Some(v) ==> v@ == mem_view(*mem, *store).subrange(
            ptr as int,
            ptr as int + len as int,
        ),
{
    let end = ptr.checked_add(len)?;
    mem.data(store).get(ptr..end).map(|s| s.to_vec())
}

/// Relies on wasmtime::Memory::data_mut: writes `data` at `ptr` when the
/// range is in bounds, leaving the rest of [`mem_view`] unchanged; an
/// out-of-bounds range is refused and changes nothing. The callee panics
/// when the store does not own the memory, which the precondition rules
/// out.
#[verifier::external_body]
pub(crate) fn memory_write(
    mem: &wasmtime::Memory,
    store: &mut wasmtime::Store<wasmtime_wasi::p1::WasiP1Ctx>,
    ptr: usize,
    data: &[u8],
) -> (r: bool)
    requires
        memory_store(*mem) == store_id(*old(store)),
    ensures
        store_id(*final(store)) == store_id(*old(store)),
        store_engine(*final(store)) == store_engine(*old(store)),
        r <==> ptr + data@.len() <= mem_view(*mem, *old(store)).len(),
        r ==> mem_view(*mem, *final(store)) == mem_view(*mem, *old(store)).take(ptr as int)
            + data@ + mem_view(*mem, *old(store)).skip(ptr as int + data@.len() as int),
        !r ==> mem_view(*mem, *final(store)) == mem_view(*mem, *old(store)),
{
    match ptr.checked_add(data.len()).and_then(|end| mem.data_mut(&mut *store).get_mut(ptr..end)) {
        Some(sl) => {
            sl.copy_from_slice(data);
            true
        },
        None => false,
    }
}

/// Relies on wasmtime::Memory::size: the memory's size in 64 KiB pages;
/// with the default engine configuration the byte length of [`mem_view`]
/// is exactly that many pages. The callee panics when the store does not
/// own the memory, which the precondition rules out.
#[verifier::external_body]
pub(crate) fn memory_size_pages(
    mem: &wasmtime::Memory,
    store: &wasmtime::Store<wasmtime_wasi::p1::WasiP1Ctx>,
) -> (r: u64)
    requires
        memory_store(*mem) == store_id(*store),
    ensures
        r as int * 65536 == mem_view(*mem, *store).len(),
{
    mem.size(store)
}

/// Relies on wasmtime::Memory::grow: on success extends the memory by
/// `delta` pages of zero bytes and returns the previous size in pages; on
/// failure yields the rendered error. The callee panics when the store
/// does not own the memory, which the precondition rules out.
#[verifier::external_body]
pub(crate) fn memory_grow(
    mem: &wasmtime::Memory,
    store: &mut wasmtime::Store<wasmtime_wasi::p1::WasiP1Ctx>,
    delta: u64,
) -> (r: Result<u64, String>)
    requires
        memory_store(*mem) == store_id(*old(store)),
    ensures
        store_id(*final(store)) == store_id(*old(store)),
        store_engine(*final(store)) == store_engine(*old(store)),
        r matches Ok(prev) ==> prev as int * 65536 == mem_view(*mem, *old(store)).len()
            && mem_view(*mem, *final(store)) == mem_view(*mem, *old(store)) + Seq::new(
            delta as nat * 65536,
            |i: int| 0u8,
        ),
{
    mem.grow(&mut *store, delta).map_err(|e| e.to_string())
}

/// Relies on wasmtime::Memory::data: the whole of [`mem_view`], copied
/// out. The callee panics when the store does not own the memory, which
/// the precondition rules out.
#[verifier::external_body]
pub(crate) fn memory_read_all(
    mem: &wasmtime::Memory,
    store: &wasmtime::Store<wasmtime_wasi::p1::WasiP1Ctx>,
) -> (r: Vec<u8>)
    requires
        memory_store(*mem) == store_id(*store),
    ensures
        r@ == mem_view(*mem, *store),
{
    mem.data(store).to_vec()
}

} // verus!
