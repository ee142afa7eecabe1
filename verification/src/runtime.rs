//! Engine, module and instance: lifecycle and the call dispatcher.
//!
//! An engine holds the VM configuration and a preconfigured import linker; a
//! module is a parsed bytecode artifact tied to an engine; an instance is a
//! fully linked, callable unit. The instance owns the sandbox handles, the
//! cached model description with its variable registry, and a reusable
//! message build buffer, and drives the call protocol: allocate, copy the
//! request, invoke, re-allocate on size overflow, decode, free.
//!
//! The contracts state the protocol's bookkeeping exactly: the model
//! description is decoded once and never re-read; the registry never changes
//! after it is built; every request is validated against the registry before
//! anything crosses the boundary, with the precise first error; the build
//! buffer is empty again after every operation; and on every operation that
//! ends in `Ok` or in a validation error, allocations in linear memory are
//! exactly paired with deallocations.

use vstd::prelude::*;
use crate::codec::{
    read_do_step_res, read_status_res, write_do_step_req, write_get_values_req, write_str,
    write_u64, write_bool, write_log_level, write_var_values,
};
use crate::errors::{DtasmError, DtasmtimeError};
use crate::idmap::IdMap;
use crate::mdcodec::read_model_description;
use crate::model_conversion::{collect_var_types, registry_of};
use crate::model_description::ModelDescription;
use crate::sandbox::{
    call_in1_out0, call_in1_out1, call_in2_out1, call_in4_out1, engine_default, engine_id,
    func_call_noargs, func_store, func_typed_in1_out0, func_typed_in1_out1, func_typed_in2_out1,
    func_typed_in4_out1, instance_get_func, instance_get_memory, linker_engine,
    linker_instantiate, linker_new, linker_storeless, mem_view, memory_grow, memory_read,
    memory_read_all, memory_size_pages, memory_store, memory_write, module_exports,
    module_has_export, module_new, store_id, store_new, typed_store_in1_out0,
    typed_store_in1_out1, typed_store_in2_out1, typed_store_in4_out1, wasi_add_to_linker,
    wasi_ctx_new,
};
use crate::types::{DoStepResponse, DtasmVarType, DtasmVarValues, GetValuesResponse, LogLevel,
    Status};
use crate::validate::{
    check_get_ids, check_init_values, check_response_values, check_set_values, get_check,
    init_check, resp_check, set_check, RegistryView,
};

verus! {

/// Base size of a read buffer in linear memory.
pub const BASE_MEM_SIZE: i32 = 2048;

/// Size of the response slot for status-only replies.
const STATUS_RES_SIZE: i32 = 64;

/// Bytes per linear-memory page.
const WASM_PAGE_SIZE: u64 = 65536;

/// Engine for executing modules: VM configuration plus an import linker
/// preloaded with the system-interface host functions.
pub struct Engine {
    wt_engine: wasmtime::Engine,
    wt_linker: wasmtime::Linker<wasmtime_wasi::p1::WasiP1Ctx>,
}

impl Engine {
    /// The linker belongs to the engine and holds only store-less host
    /// definitions.
    pub closed spec fn wf(&self) -> bool {
        &&& linker_engine(self.wt_linker) == engine_id(self.wt_engine)
        &&& linker_storeless(self.wt_linker)
    }

    /// A fresh engine with the default configuration.
    pub fn new() -> (r: Result<Engine, DtasmtimeError>)
        ensures
            r matches Ok(e) ==> e.wf(),
    {
        let engine = engine_default();
        let mut linker = linker_new(&engine);
        match wasi_add_to_linker(&mut linker) {
            Ok(()) => Ok(Engine { wt_engine: engine, wt_linker: linker }),
            Err(e) => Err(DtasmtimeError::ModuleError(e)),
        }
    }
}

/// A parsed module, tied to the engine that will run it.
pub struct Module<'a> {
    wt_module: wasmtime::Module,
    dtasm_engine: &'a Engine,
}

/// The first required export, in the fixed checking order, that an export
/// set lacks.
pub open spec fn first_missing_export(ex: Set<Seq<char>>) -> Option<Seq<char>> {
    if !ex.contains("memory"@) {
        Some("memory"@)
    } else if !ex.contains("alloc"@) {
        Some("alloc"@)
    } else if !ex.contains("dealloc"@) {
        Some("dealloc"@)
    } else if !ex.contains("getModelDescription"@) {
        Some("getModelDescription"@)
    } else if !ex.contains("init"@) {
        Some("init"@)
    } else if !ex.contains("getValues"@) {
        Some("getValues"@)
    } else if !ex.contains("setValues"@) {
        Some("setValues"@)
    } else if !ex.contains("doStep"@) {
        Some("doStep"@)
    } else {
        None
    }
}

/// The first required export, in the fixed checking order, that the parsed
/// module lacks.
fn missing_required_export(module: &wasmtime::Module) -> (r: Option<String>)
    ensures
        match r {
            None => first_missing_export(module_exports(*module)) is None,
            Some(s) => first_missing_export(module_exports(*module)) == Some(s@),
        },
{
    if !module_has_export(module, "memory") {
        return Some("memory".to_owned());
    }
    if !module_has_export(module, "alloc") {
        return Some("alloc".to_owned());
    }
    if !module_has_export(module, "dealloc") {
        return Some("dealloc".to_owned());
    }
    if !module_has_export(module, "getModelDescription") {
        return Some("getModelDescription".to_owned());
    }
    if !module_has_export(module, "init") {
        return Some("init".to_owned());
    }
    if !module_has_export(module, "getValues") {
        return Some("getValues".to_owned());
    }
    if !module_has_export(module, "setValues") {
        return Some("setValues".to_owned());
    }
    if !module_has_export(module, "doStep") {
        return Some("doStep".to_owned());
    }
    None
}

impl<'a> Module<'a> {
    /// The engine this module is tied to is well formed.
    pub closed spec fn wf(&self) -> bool {
        self.dtasm_engine.wf()
    }

    /// The names the parsed module exports.
    pub closed spec fn spec_exports(&self) -> Set<Seq<char>> {
        module_exports(self.wt_module)
    }

    /// Parse a module from its bytes and check the required exports:
    /// the result is a module exactly when all eight are present, and
    /// otherwise `MissingDtasmExport` naming the first absent one in the
    /// fixed checking order. Export signatures are not verified here;
    /// instantiation checks them.
    pub fn new(bytes: &[u8], engine: &'a Engine) -> (r: Result<Module<'a>, DtasmtimeError>)
        requires
            engine.wf(),
        ensures
            r matches Ok(m) ==> m.wf() && first_missing_export(m.spec_exports()) is None,
            r matches Err(DtasmtimeError::DtasmError(e)) ==> (e matches
                DtasmError::MissingDtasmExport(s) && ("memory"@ == s@ || "alloc"@ == s@
                || "dealloc"@ == s@ || "getModelDescription"@ == s@ || "init"@ == s@
                || "getValues"@ == s@ || "setValues"@ == s@ || "doStep"@ == s@)),
    {
        let module = match module_new(&engine.wt_engine, bytes) {
            Ok(m) => m,
            Err(e) => {
                return Err(DtasmtimeError::ModuleError(e));
            },
        };
        match missing_required_export(&module) {
            Some(name) => Err(DtasmtimeError::DtasmError(DtasmError::MissingDtasmExport(name))),
            None => Ok(Module { wt_module: module, dtasm_engine: engine }),
        }
    }

    /// Create an instance of the module: a fresh store and context, a
    /// linked instantiation, and typed handles to the required exports.
    pub fn instantiate(&mut self) -> (r: Result<Instance, DtasmtimeError>)
        requires
            old(self).wf(),
        ensures
            r matches Ok(inst) ==> inst.inv() && !inst.has_md() && inst.registry() =~= Seq::<
                (i32, crate::types::DtasmVarTypeView),
            >::empty() && inst.spec_allocs() == 0 && inst.spec_deallocs() == 0,
            r matches Err(DtasmtimeError::DtasmError(e)) ==> e matches
                DtasmError::MissingDtasmExport(_),
    {
        let wasi = wasi_ctx_new();
        let mut store = store_new(&self.dtasm_engine.wt_engine, wasi);
        let wt_instance = match linker_instantiate(
            &self.dtasm_engine.wt_linker,
            &mut store,
            &self.wt_module,
        ) {
            Ok(i) => i,
            Err(e) => {
                return Err(DtasmtimeError::ModuleError(e));
            },
        };
        let reactor_init = instance_get_func(&wt_instance, &mut store, "_initialize");
        let memory = match instance_get_memory(&wt_instance, &mut store, "memory") {
            Some(m) => m,
            None => {
                return Err(missing_export("memory"));
            },
        };
        let alloc = match instance_get_func(&wt_instance, &mut store, "alloc") {
            Some(f) => f,
            None => {
                return Err(missing_export("alloc"));
            },
        };
        let alloc = match func_typed_in1_out1(&alloc, &store) {
            Ok(f) => f,
            Err(e) => {
                return Err(DtasmtimeError::ModuleError(e));
            },
        };
        let dealloc = match instance_get_func(&wt_instance, &mut store, "dealloc") {
            Some(f) => f,
            None => {
                return Err(missing_export("dealloc"));
            },
        };
        let dealloc = match func_typed_in1_out0(&dealloc, &store) {
            Ok(f) => f,
            Err(e) => {
                return Err(DtasmtimeError::ModuleError(e));
            },
        };
        let get_md = match instance_get_func(&wt_instance, &mut store, "getModelDescription") {
            Some(f) => f,
            None => {
                return Err(missing_export("getModelDescription"));
            },
        };
        let get_md = match func_typed_in2_out1(&get_md, &store) {
            Ok(f) => f,
            Err(e) => {
                return Err(DtasmtimeError::ModuleError(e));
            },
        };
        let init = match instance_get_func(&wt_instance, &mut store, "init") {
            Some(f) => f,
            None => {
                return Err(missing_export("init"));
            },
        };
        let init = match func_typed_in4_out1(&init, &store) {
            Ok(f) => f,
            Err(e) => {
                return Err(DtasmtimeError::ModuleError(e));
            },
        };
        let get_values = match instance_get_func(&wt_instance, &mut store, "getValues") {
            Some(f) => f,
            None => {
                return Err(missing_export("getValues"));
            },
        };
        let get_values = match func_typed_in4_out1(&get_values, &store) {
            Ok(f) => f,
            Err(e) => {
                return Err(DtasmtimeError::ModuleError(e));
            },
        };
        let set_values = match instance_get_func(&wt_instance, &mut store, "setValues") {
            Some(f) => f,
            None => {
                return Err(missing_export("setValues"));
            },
        };
        let set_values = match func_typed_in4_out1(&set_values, &store) {
            Ok(f) => f,
            Err(e) => {
                return Err(DtasmtimeError::ModuleError(e));
            },
        };
        let do_step = match instance_get_func(&wt_instance, &mut store, "doStep") {
            Some(f) => f,
            None => {
                return Err(missing_export("doStep"));
            },
        };
        let do_step = match func_typed_in4_out1(&do_step, &store) {
            Ok(f) => f,
            Err(e) => {
                return Err(DtasmtimeError::ModuleError(e));
            },
        };
        Ok(
            Instance {
                memory,
                store,
                reactor_init_fn: reactor_init,
                alloc_fn: alloc,
                dealloc_fn: dealloc,
                get_md_fn: get_md,
                init_fn: init,
                get_values_fn: get_values,
                set_values_fn: set_values,
                do_step_fn: do_step,
                var_types: IdMap::new(),
                md: None,
                builder: Vec::new(),
                allocs: Ghost(0nat),
                deallocs: Ghost(0nat),
            },
        )
    }
}

/// A `MissingDtasmExport` error for the given export name.
fn missing_export(name: &str) -> (r: DtasmtimeError)
    ensures
        r matches DtasmtimeError::DtasmError(e) && e matches DtasmError::MissingDtasmExport(s)
            && s@ == name@,
{
    DtasmtimeError::DtasmError(DtasmError::MissingDtasmExport(name.to_owned()))
}

/// An instance of a loaded module: the sandbox handles, the cached model
/// description and registry, and the reusable build buffer.
pub struct Instance {
    memory: wasmtime::Memory,
    store: wasmtime::Store<wasmtime_wasi::p1::WasiP1Ctx>,
    reactor_init_fn: Option<wasmtime::Func>,
    alloc_fn: wasmtime::TypedFunc<i32, i32>,
    dealloc_fn: wasmtime::TypedFunc<i32, ()>,
    get_md_fn: wasmtime::TypedFunc<(i32, i32), i32>,
    init_fn: wasmtime::TypedFunc<(i32, i32, i32, i32), i32>,
    get_values_fn: wasmtime::TypedFunc<(i32, i32, i32, i32), i32>,
    set_values_fn: wasmtime::TypedFunc<(i32, i32, i32, i32), i32>,
    do_step_fn: wasmtime::TypedFunc<(i32, i32, i32, i32), i32>,
    var_types: IdMap<DtasmVarType>,
    md: Option<ModelDescription>,
    builder: Vec<u8>,
    /// How many sandbox allocations this instance has made.
    allocs: Ghost<nat>,
    /// How many sandbox deallocations this instance has made.
    deallocs: Ghost<nat>,
}

impl Instance {
    /// Whether the model description has been loaded and cached.
    pub closed spec fn has_md(&self) -> bool {
        self.md is Some
    }

    /// The cached model description.
    pub closed spec fn md_view(&self) -> crate::model_description::ModelDescriptionView
        recommends
            self.has_md(),
    {
        self.md.unwrap()@
    }

    /// The variable registry.
    pub closed spec fn registry(&self) -> RegistryView {
        self.var_types@
    }

    /// The build buffer's bytes.
    pub closed spec fn spec_builder(&self) -> Seq<u8> {
        self.builder@
    }

    /// Sandbox allocations made so far.
    pub closed spec fn spec_allocs(&self) -> nat {
        self.allocs@
    }

    /// Sandbox deallocations made so far.
    pub closed spec fn spec_deallocs(&self) -> nat {
        self.deallocs@
    }

    /// The instance's linear memory, as bytes.
    pub closed spec fn memory_bytes(&self) -> Seq<u8> {
        mem_view(self.memory, self.store)
    }

    /// Every sandbox handle this instance holds belongs to its own store,
    /// so no wrapper's ownership precondition can be violated through it.
    pub closed spec fn handles_wf(&self) -> bool {
        &&& memory_store(self.memory) == store_id(self.store)
        &&& match self.reactor_init_fn {
            Some(f) => func_store(f) == store_id(self.store),
            None => true,
        }
        &&& typed_store_in1_out1(self.alloc_fn) == store_id(self.store)
        &&& typed_store_in1_out0(self.dealloc_fn) == store_id(self.store)
        &&& typed_store_in2_out1(self.get_md_fn) == store_id(self.store)
        &&& typed_store_in4_out1(self.init_fn) == store_id(self.store)
        &&& typed_store_in4_out1(self.get_values_fn) == store_id(self.store)
        &&& typed_store_in4_out1(self.set_values_fn) == store_id(self.store)
        &&& typed_store_in4_out1(self.do_step_fn) == store_id(self.store)
    }

    /// The resting invariant: the build buffer is empty, the registry is
    /// exactly the one derived from the cached model description (empty
    /// while none is cached, never rebuilt afterwards), and every sandbox
    /// handle belongs to the instance's store.
    pub closed spec fn inv(&self) -> bool {
        &&& self.builder@.len() == 0
        &&& self.var_types.wf()
        &&& match self.md {
            None => self.var_types@ == Seq::<(i32, crate::types::DtasmVarTypeView)>::empty(),
            Some(m) => self.var_types@ == registry_of(m@.variables),
        }
        &&& self.handles_wf()
    }
}

} // verus!

verus! {

/// Which value-bearing export a negotiated read invokes.
enum Callee {
    ModelDesc,
    Values,
}

impl Instance {
    /// The size-negotiated read protocol: allocate a buffer, invoke the
    /// callee, and while the callee reports more bytes than the buffer
    /// holds, free it, double it and retry; then copy the reported bytes
    /// out and free the buffer.
    ///
    /// Succeeds for any response the module can address (the buffer may
    /// grow until the doubling would overflow the allocator's argument) and
    /// for any starting size from one byte up; on success, allocations made
    /// here are exactly paired with deallocations. The module chooses every
    /// reported size, so termination and this pairing hold whatever it
    /// answers.
    #[verifier::loop_isolation(false)]
    fn negotiated_read(
        &mut self,
        callee: Callee,
        req_ptr: i32,
        req_len: i32,
        initial_size: i32,
    ) -> (r: Result<Vec<u8>, DtasmtimeError>)
        requires
            1 <= initial_size,
            old(self).handles_wf(),
        ensures
            final(self).handles_wf(),
            final(self).md == old(self).md,
            final(self).var_types == old(self).var_types,
            final(self).builder == old(self).builder,
            (r is Ok || r matches Err(DtasmtimeError::DtasmError(_))) ==> final(self).allocs@
                - old(self).allocs@ == final(self).deallocs@ - old(self).deallocs@,
            r matches Err(DtasmtimeError::DtasmError(e)) ==> (e matches
                DtasmError::DtasmInternalError(s) && (
                s@ == "response exceeds the linear-memory ceiling"@
                || s@ == "callee reported a negative response size"@
                || s@ == "callee reported more bytes than it wrote"@)),
    {
        let mut size: i32 = initial_size;
        let mut mem: i32 = match call_in1_out1(&self.alloc_fn, &mut self.store, size) {
            Ok(p) => p,
            Err(e) => {
                return Err(DtasmtimeError::ModuleError(e));
            },
        };
        self.allocs = Ghost(self.allocs@ + 1);
        let mut written: i32 = match self.invoke_callee(&callee, req_ptr, req_len, mem, size) {
            Ok(w) => w,
            Err(e) => {
                return Err(e);
            },
        };
        while written > size
            invariant
                1 <= size <= i32::MAX,
                self.handles_wf(),
                self.md == old(self).md,
                self.var_types == old(self).var_types,
                self.builder == old(self).builder,
                self.allocs@ - old(self).allocs@ == self.deallocs@ - old(self).deallocs@ + 1,
            decreases i32::MAX - size,
        {
            match call_in1_out0(&self.dealloc_fn, &mut self.store, mem) {
                Ok(()) => {},
                Err(e) => {
                    return Err(DtasmtimeError::ModuleError(e));
                },
            }
            self.deallocs = Ghost(self.deallocs@ + 1);
            if size > i32::MAX / 2 {
                return Err(internal_error("response exceeds the linear-memory ceiling"));
            }
            size = size * 2;
            mem = match call_in1_out1(&self.alloc_fn, &mut self.store, size) {
                Ok(p) => p,
                Err(e) => {
                    return Err(DtasmtimeError::ModuleError(e));
                },
            };
            self.allocs = Ghost(self.allocs@ + 1);
            written = match self.invoke_callee(&callee, req_ptr, req_len, mem, size) {
                Ok(w) => w,
                Err(e) => {
                    return Err(e);
                },
            };
        }
        if written < 0 {
            return self.free_and_internal(mem, "callee reported a negative response size");
        }
        let bytes = memory_read(&self.memory, &self.store, mem as usize, written as usize);
        match bytes {
            None => self.free_and_internal(mem, "callee reported more bytes than it wrote"),
            Some(b) => {
                match call_in1_out0(&self.dealloc_fn, &mut self.store, mem) {
                    Ok(()) => {},
                    Err(e) => {
                        return Err(DtasmtimeError::ModuleError(e));
                    },
                }
                self.deallocs = Ghost(self.deallocs@ + 1);
                Ok(b)
            },
        }
    }

    /// Invoke the chosen value-bearing export once.
    fn invoke_callee(
        &mut self,
        callee: &Callee,
        req_ptr: i32,
        req_len: i32,
        out: i32,
        size: i32,
    ) -> (r: Result<i32, DtasmtimeError>)
        requires
            old(self).handles_wf(),
        ensures
            final(self).handles_wf(),
            final(self).md == old(self).md,
            final(self).var_types == old(self).var_types,
            final(self).builder == old(self).builder,
            final(self).allocs == old(self).allocs,
            final(self).deallocs == old(self).deallocs,
            r matches Err(e) ==> e matches DtasmtimeError::ModuleError(_),
    {
        let res = match callee {
            Callee::ModelDesc => call_in2_out1(&self.get_md_fn, &mut self.store, out, size),
            Callee::Values => call_in4_out1(
                &self.get_values_fn,
                &mut self.store,
                req_ptr,
                req_len,
                out,
                size,
            ),
        };
        match res {
            Ok(w) => Ok(w),
            Err(e) => Err(DtasmtimeError::ModuleError(e)),
        }
    }

    /// Free one buffer and report an internal error.
    fn free_and_internal(&mut self, mem: i32, msg: &str) -> (r: Result<Vec<u8>, DtasmtimeError>)
        requires
            old(self).handles_wf(),
        ensures
            final(self).handles_wf(),
            final(self).md == old(self).md,
            final(self).var_types == old(self).var_types,
            final(self).builder == old(self).builder,
            r is Err,
            final(self).allocs == old(self).allocs,
            r matches Err(DtasmtimeError::DtasmError(_)) ==> final(self).deallocs@ == old(self).deallocs@ + 1,
            r matches Err(DtasmtimeError::DtasmError(e)) ==> (e matches
                DtasmError::DtasmInternalError(s) && s@ == msg@),
    {
        match call_in1_out0(&self.dealloc_fn, &mut self.store, mem) {
            Ok(()) => {},
            Err(e) => {
                return Err(DtasmtimeError::ModuleError(e));
            },
        }
        self.deallocs = Ghost(self.deallocs@ + 1);
        Err(internal_error(msg))
    }

    /// Retrieve the module's model description.
    ///
    /// The first call drives the size-negotiated read against the module's
    /// self-description export, decodes it, caches it and derives the
    /// variable registry; every later call returns the cached description
    /// without touching the sandbox.
    pub fn get_model_description(&mut self) -> (r: Result<ModelDescription, DtasmtimeError>)
        requires
            old(self).inv(),
        ensures
            final(self).inv(),
            old(self).has_md() ==> (r matches Ok(m) && m@ == old(self).md_view() && *final(self) == *old(self)),
            r matches Ok(m) ==> final(self).has_md() && final(self).md_view() == m@ && final(self).registry() == registry_of(m@.variables),
            r is Err ==> final(self).has_md() == old(self).has_md() && final(self).registry()
                == old(self).registry(),
            r is Ok ==> final(self).spec_allocs() - old(self).spec_allocs() == final(
                self).spec_deallocs() - old(self).spec_deallocs(),
    {
        match &self.md {
            Some(m) => {
                return Ok(m.clone());
            },
            None => {},
        }
        let bytes = match self.negotiated_read(Callee::ModelDesc, 0, 0, BASE_MEM_SIZE) {
            Ok(b) => b,
            Err(e) => {
                return Err(e);
            },
        };
        match read_model_description(bytes.as_slice(), 0) {
            None => Err(internal_error("the self-description could not be decoded")),
            Some((md, _)) => {
                let reg = collect_var_types(&md);
                let ret = md.clone();
                self.var_types = reg;
                self.md = Some(md);
                Ok(ret)
            },
        }
    }
}

/// A `DtasmInternalError` carrying exactly the given message.
fn internal_error(msg: &str) -> (r: DtasmtimeError)
    ensures
        r matches DtasmtimeError::DtasmError(e) && e matches DtasmError::DtasmInternalError(s)
            && s@ == msg@,
{
    DtasmtimeError::DtasmError(DtasmError::DtasmInternalError(msg.to_owned()))
}

} // verus!

verus! {

/// Which fixed-size export a request is sent to.
enum FixedCallee {
    Init,
    SetValues,
    DoStep,
}

impl Instance {
    /// Send the build buffer's bytes as a request to a fixed-size export:
    /// allocate and fill the request buffer, reset the build buffer,
    /// allocate the response slot, invoke, and return the reported response
    /// bytes with both buffers freed. A response larger than the slot is an
    /// internal error: these exports have a known worst-case response size.
    fn send_request(&mut self, callee: FixedCallee, res_size: i32, oversize_msg: &str) -> (r: Result<
        Vec<u8>,
        DtasmtimeError,
    >)
        requires
            1 <= res_size,
            old(self).handles_wf(),
        ensures
            final(self).handles_wf(),
            final(self).md == old(self).md,
            final(self).var_types == old(self).var_types,
            final(self).builder@.len() == 0,
            (r is Ok || r matches Err(DtasmtimeError::DtasmError(_))) ==> final(self).allocs@
                - old(self).allocs@ == final(self).deallocs@ - old(self).deallocs@,
            r matches Err(DtasmtimeError::DtasmError(e)) ==> (e matches
                DtasmError::DtasmInternalError(s) && (s@ == oversize_msg@
                || s@ == "request exceeds the linear-memory ceiling"@
                || s@ == "request does not fit into linear memory"@
                || s@ == "callee reported more bytes than it wrote"@)),
    {
        let req_len = self.builder.len();
        if req_len > i32::MAX as usize {
            self.builder.clear();
            return Err(internal_error("request exceeds the linear-memory ceiling"));
        }
        let req_ptr = match call_in1_out1(&self.alloc_fn, &mut self.store, req_len as i32) {
            Ok(p) => p,
            Err(e) => {
                self.builder.clear();
                return Err(DtasmtimeError::ModuleError(e));
            },
        };
        self.allocs = Ghost(self.allocs@ + 1);
        let copied = memory_write(
            &self.memory,
            &mut self.store,
            req_ptr as usize,
            self.builder.as_slice(),
        );
        self.builder.clear();
        if !copied {
            match call_in1_out0(&self.dealloc_fn, &mut self.store, req_ptr) {
                Ok(()) => {},
                Err(e) => {
                    return Err(DtasmtimeError::ModuleError(e));
                },
            }
            self.deallocs = Ghost(self.deallocs@ + 1);
            return Err(internal_error("request does not fit into linear memory"));
        }
        let res_ptr = match call_in1_out1(&self.alloc_fn, &mut self.store, res_size) {
            Ok(p) => p,
            Err(e) => {
                return Err(DtasmtimeError::ModuleError(e));
            },
        };
        self.allocs = Ghost(self.allocs@ + 1);
        let call_res = match callee {
            FixedCallee::Init => call_in4_out1(
                &self.init_fn,
                &mut self.store,
                req_ptr,
                req_len as i32,
                res_ptr,
                res_size,
            ),
            FixedCallee::SetValues => call_in4_out1(
                &self.set_values_fn,
                &mut self.store,
                req_ptr,
                req_len as i32,
                res_ptr,
                res_size,
            ),
            FixedCallee::DoStep => call_in4_out1(
                &self.do_step_fn,
                &mut self.store,
                req_ptr,
                req_len as i32,
                res_ptr,
                res_size,
            ),
        };
        let size_out = match call_res {
            Ok(w) => w,
            Err(e) => {
                return Err(DtasmtimeError::ModuleError(e));
            },
        };
        if size_out > res_size || size_out < 0 {
            return self.free_two_and_internal(req_ptr, res_ptr, oversize_msg);
        }
        let bytes = memory_read(&self.memory, &self.store, res_ptr as usize, size_out as usize);
        let bytes = match bytes {
            Some(b) => b,
            None => {
                return self.free_two_and_internal(
                    req_ptr,
                    res_ptr,
                    "callee reported more bytes than it wrote",
                );
            },
        };
        match call_in1_out0(&self.dealloc_fn, &mut self.store, req_ptr) {
            Ok(()) => {},
            Err(e) => {
                return Err(DtasmtimeError::ModuleError(e));
            },
        }
        self.deallocs = Ghost(self.deallocs@ + 1);
        match call_in1_out0(&self.dealloc_fn, &mut self.store, res_ptr) {
            Ok(()) => {},
            Err(e) => {
                return Err(DtasmtimeError::ModuleError(e));
            },
        }
        self.deallocs = Ghost(self.deallocs@ + 1);
        Ok(bytes)
    }

    /// Free two buffers and report an internal error.
    fn free_two_and_internal(&mut self, a: i32, b: i32, msg: &str) -> (r: Result<
        Vec<u8>,
        DtasmtimeError,
    >)
        requires
            old(self).handles_wf(),
        ensures
            final(self).handles_wf(),
            final(self).md == old(self).md,
            final(self).var_types == old(self).var_types,
            final(self).builder == old(self).builder,
            r is Err,
            final(self).allocs == old(self).allocs,
            r matches Err(DtasmtimeError::DtasmError(_)) ==> final(self).deallocs@ == old(self).deallocs@ + 2,
            r matches Err(DtasmtimeError::DtasmError(e)) ==> (e matches
                DtasmError::DtasmInternalError(s) && s@ == msg@),
    {
        match call_in1_out0(&self.dealloc_fn, &mut self.store, a) {
            Ok(()) => {},
            Err(e) => {
                return Err(DtasmtimeError::ModuleError(e));
            },
        }
        self.deallocs = Ghost(self.deallocs@ + 1);
        match call_in1_out0(&self.dealloc_fn, &mut self.store, b) {
            Ok(()) => {},
            Err(e) => {
                return Err(DtasmtimeError::ModuleError(e));
            },
        }
        self.deallocs = Ghost(self.deallocs@ + 1);
        Err(internal_error(msg))
    }

    /// Initialize the instance with the given initial values and simulation
    /// parameters.
    ///
    /// Requires a cached model description (else `InvalidCallingOrder`),
    /// invokes the reactor hook if the module exports one, validates every
    /// initial value against the registry (any causality is allowed), and
    /// sends the encoded initialization request.
    ///
    /// * `initial_vals` - initial values for the state variables
    /// * `tmin` - initial time where simulation starts (double bits)
    /// * `tmax` - final time of the simulation (double bits)
    /// * `tol` - relative tolerance for the numerical solver (double bits)
    /// * `log_level` - maximal level at which log messages should be reported
    /// * `check` - whether to check validity of buffers
    pub fn initialize(
        &mut self,
        initial_vals: &DtasmVarValues,
        tmin: u64,
        tmax: Option<u64>,
        tol: Option<u64>,
        log_level: LogLevel,
        check: bool,
    ) -> (r: Result<Status, DtasmtimeError>)
        requires
            old(self).inv(),
            initial_vals.wf(),
        ensures
            final(self).inv(),
            final(self).has_md() == old(self).has_md(),
            final(self).registry() == old(self).registry(),
            !old(self).has_md() ==> r == Err::<Status, DtasmtimeError>(
                DtasmtimeError::DtasmError(DtasmError::InvalidCallingOrder),
            ) && *final(self) == *old(self),
            old(self).has_md() ==> match init_check(old(self).registry(), initial_vals@) {
                Some(e) => r == Err::<Status, DtasmtimeError>(DtasmtimeError::DtasmError(e))
                    || r matches Err(DtasmtimeError::ModuleError(_)),
                None => match r {
                    Ok(_) => true,
                    Err(DtasmtimeError::ModuleError(_)) => true,
                    Err(DtasmtimeError::DtasmError(e2)) => e2 matches
                        DtasmError::DtasmInternalError(_),
                },
            },
            r matches Err(DtasmtimeError::DtasmError(DtasmError::DtasmInternalError(s))) ==> (
                s@ == "Unexpected size returned from init request"@
                || s@ == "request exceeds the linear-memory ceiling"@
                || s@ == "request does not fit into linear memory"@
                || s@ == "callee reported more bytes than it wrote"@
                || s@ == "the initialization response could not be decoded"@),
            (r is Ok || r matches Err(DtasmtimeError::DtasmError(_))) ==> final(self).spec_allocs()
                - old(self).spec_allocs() == final(self).spec_deallocs() - old(self).spec_deallocs(),
    {
        if self.md.is_none() {
            return Err(DtasmtimeError::DtasmError(DtasmError::InvalidCallingOrder));
        }
        match &self.reactor_init_fn {
            None => {},
            Some(f) => {
                match func_call_noargs(f, &mut self.store) {
                    Ok(()) => {},
                    Err(e) => {
                        return Err(DtasmtimeError::ModuleError(e));
                    },
                }
            },
        }
        match check_init_values(&self.var_types, initial_vals) {
            Ok(()) => {},
            Err(e) => {
                proof {
                    crate::validate::lemma_init_check_variants(self.var_types@, initial_vals@);
                }
                return Err(DtasmtimeError::DtasmError(e));
            },
        }
        match &self.md {
            None => {},
            Some(m) => {
                write_str(&mut self.builder, m.model.id.as_str());
            },
        }
        write_u64(&mut self.builder, tmin);
        write_u64(
            &mut self.builder,
            match tmax {
                Some(v) => v,
                None => 0,
            },
        );
        write_bool(&mut self.builder, tmax.is_some());
        write_u64(
            &mut self.builder,
            match tol {
                Some(v) => v,
                None => 0,
            },
        );
        write_bool(&mut self.builder, tol.is_some());
        write_log_level(&mut self.builder, log_level);
        write_bool(&mut self.builder, check);
        write_var_values(&mut self.builder, initial_vals);
        let bytes = match self.send_request(
            FixedCallee::Init,
            STATUS_RES_SIZE,
            "Unexpected size returned from init request",
        ) {
            Ok(b) => b,
            Err(e) => {
                return Err(e);
            },
        };
        match read_status_res(bytes.as_slice(), 0) {
            None => Err(internal_error("the initialization response could not be decoded")),
            Some((status, _)) => Ok(status),
        }
    }

    /// Set values of input variables for the next timestep.
    ///
    /// Every id must be known, declared `Input` and placed in the mapping
    /// of its declared type; the first violation is reported exactly and
    /// nothing crosses the boundary on it.
    ///
    /// * `input_vals` - values for the input variables
    pub fn set_values(&mut self, input_vals: &DtasmVarValues) -> (r: Result<
        Status,
        DtasmtimeError,
    >)
        requires
            old(self).inv(),
            input_vals.wf(),
        ensures
            final(self).inv(),
            final(self).has_md() == old(self).has_md(),
            final(self).registry() == old(self).registry(),
            match set_check(old(self).registry(), input_vals@) {
                Some(e) => r == Err::<Status, DtasmtimeError>(DtasmtimeError::DtasmError(e))
                    && *final(self) == *old(self),
                None => match r {
                    Ok(_) => true,
                    Err(DtasmtimeError::ModuleError(_)) => true,
                    Err(DtasmtimeError::DtasmError(e2)) => e2 matches
                        DtasmError::DtasmInternalError(_),
                },
            },
            r matches Err(DtasmtimeError::DtasmError(DtasmError::DtasmInternalError(s))) ==> (
                s@ == "Unexpected size returned from setValues request"@
                || s@ == "request exceeds the linear-memory ceiling"@
                || s@ == "request does not fit into linear memory"@
                || s@ == "callee reported more bytes than it wrote"@
                || s@ == "the set-values response could not be decoded"@),
            (r is Ok || r matches Err(DtasmtimeError::DtasmError(_))) ==> final(self).spec_allocs()
                - old(self).spec_allocs() == final(self).spec_deallocs() - old(self).spec_deallocs(),
    {
        match check_set_values(&self.var_types, input_vals) {
            Ok(()) => {},
            Err(e) => {
                proof {
                    crate::validate::lemma_set_check_variants(self.var_types@, input_vals@);
                }
                return Err(DtasmtimeError::DtasmError(e));
            },
        }
        write_var_values(&mut self.builder, input_vals);
        let bytes = match self.send_request(
            FixedCallee::SetValues,
            STATUS_RES_SIZE,
            "Unexpected size returned from setValues request",
        ) {
            Ok(b) => b,
            Err(e) => {
                return Err(e);
            },
        };
        match read_status_res(bytes.as_slice(), 0) {
            None => Err(internal_error("the set-values response could not be decoded")),
            Some((status, _)) => Ok(status),
        }
    }

    /// Simulate a time step.
    ///
    /// * `current_time` - current time (double bits)
    /// * `timestep` - step to calculate forward in time (double bits)
    pub fn do_step(&mut self, current_time: u64, timestep: u64) -> (r: Result<
        DoStepResponse,
        DtasmtimeError,
    >)
        requires
            old(self).inv(),
        ensures
            final(self).inv(),
            final(self).has_md() == old(self).has_md(),
            final(self).registry() == old(self).registry(),
            (r is Ok || r matches Err(DtasmtimeError::DtasmError(_))) ==> final(self).spec_allocs()
                - old(self).spec_allocs() == final(self).spec_deallocs() - old(self).spec_deallocs(),
            r matches Err(DtasmtimeError::DtasmError(e)) ==> (e matches
                DtasmError::DtasmInternalError(s) && (
                s@ == "Unexpected size returned from doStep request"@
                || s@ == "request exceeds the linear-memory ceiling"@
                || s@ == "request does not fit into linear memory"@
                || s@ == "callee reported more bytes than it wrote"@
                || s@ == "the time-step response could not be decoded"@)),
    {
        write_do_step_req(&mut self.builder, current_time, timestep);
        let bytes = match self.send_request(
            FixedCallee::DoStep,
            BASE_MEM_SIZE,
            "Unexpected size returned from doStep request",
        ) {
            Ok(b) => b,
            Err(e) => {
                return Err(e);
            },
        };
        match read_do_step_res(bytes.as_slice(), 0) {
            None => Err(internal_error("the time-step response could not be decoded")),
            Some(((status, updated_time), _)) => Ok(DoStepResponse { status, updated_time }),
        }
    }
}

} // verus!

verus! {

impl Instance {
    /// Retrieve values of the output and state variables in the current
    /// timestep.
    ///
    /// Every requested id must be known and must not be declared `Input`;
    /// the first violation is reported exactly and nothing crosses the
    /// boundary on it. The response is read through the size-negotiated
    /// protocol, decoded, and every returned value is validated against the
    /// registry; a response with an unknown id or a value in the wrong
    /// typed slot is rejected whole.
    ///
    /// * `var_ids` - variable ids for which values shall be retrieved
    pub fn get_values(&mut self, var_ids: &Vec<i32>) -> (r: Result<
        GetValuesResponse,
        DtasmtimeError,
    >)
        requires
            old(self).inv(),
        ensures
            final(self).inv(),
            final(self).has_md() == old(self).has_md(),
            final(self).registry() == old(self).registry(),
            match get_check(old(self).registry(), var_ids@) {
                Some(e) => r == Err::<GetValuesResponse, DtasmtimeError>(
                    DtasmtimeError::DtasmError(e),
                ) && *final(self) == *old(self),
                None => match r {
                    Ok(resp) => resp.values.wf() && resp_check(
                        old(self).registry(),
                        resp.values@,
                    ) is None,
                    Err(DtasmtimeError::ModuleError(_)) => true,
                    Err(DtasmtimeError::DtasmError(e2)) => e2 matches
                        DtasmError::DtasmInternalError(_) || e2 matches
                        DtasmError::UnknownVariableId(_) || e2 matches
                        DtasmError::VariableTypeMismatch(_, _),
                },
            },
            (r is Ok || r matches Err(DtasmtimeError::DtasmError(_))) ==> final(self).spec_allocs()
                - old(self).spec_allocs() == final(self).spec_deallocs() - old(self).spec_deallocs(),
    {
        match check_get_ids(&self.var_types, var_ids) {
            Ok(()) => {},
            Err(e) => {
                return Err(DtasmtimeError::DtasmError(e));
            },
        }
        write_get_values_req(&mut self.builder, var_ids);
        let req_len = self.builder.len();
        if req_len > i32::MAX as usize {
            self.builder.clear();
            return Err(internal_error("request exceeds the linear-memory ceiling"));
        }
        let req_ptr = match call_in1_out1(&self.alloc_fn, &mut self.store, req_len as i32) {
            Ok(p) => p,
            Err(e) => {
                self.builder.clear();
                return Err(DtasmtimeError::ModuleError(e));
            },
        };
        self.allocs = Ghost(self.allocs@ + 1);
        let copied = memory_write(
            &self.memory,
            &mut self.store,
            req_ptr as usize,
            self.builder.as_slice(),
        );
        self.builder.clear();
        if !copied {
            match call_in1_out0(&self.dealloc_fn, &mut self.store, req_ptr) {
                Ok(()) => {},
                Err(e) => {
                    return Err(DtasmtimeError::ModuleError(e));
                },
            }
            self.deallocs = Ghost(self.deallocs@ + 1);
            return Err(internal_error("request does not fit into linear memory"));
        }
        let bytes = match self.negotiated_read(
            Callee::Values,
            req_ptr,
            req_len as i32,
            BASE_MEM_SIZE,
        ) {
            Ok(b) => b,
            Err(e) => {
                if matches!(e, DtasmtimeError::DtasmError(_)) {
                    match call_in1_out0(&self.dealloc_fn, &mut self.store, req_ptr) {
                        Ok(()) => {},
                        Err(e2) => {
                            return Err(DtasmtimeError::ModuleError(e2));
                        },
                    }
                    self.deallocs = Ghost(self.deallocs@ + 1);
                }
                return Err(e);
            },
        };
        match call_in1_out0(&self.dealloc_fn, &mut self.store, req_ptr) {
            Ok(()) => {},
            Err(e) => {
                return Err(DtasmtimeError::ModuleError(e));
            },
        }
        self.deallocs = Ghost(self.deallocs@ + 1);
        let decoded = crate::codec::read_get_values_res(bytes.as_slice(), 0);
        let (status, current_time, values) = match decoded {
            None => {
                return Err(internal_error("the get-values response could not be decoded"));
            },
            Some(((s, t, vv), _)) => (s, t, vv),
        };
        match check_response_values(&self.var_types, &values) {
            Ok(()) => {},
            Err(e) => {
                proof {
                    crate::validate::lemma_resp_check_variants(self.var_types@, values@);
                }
                return Err(DtasmtimeError::DtasmError(e));
            },
        }
        Ok(GetValuesResponse { status, current_time, values })
    }

    /// Load a serialized linear-memory snapshot into this instance.
    ///
    /// If the snapshot is larger than the current memory, the memory is
    /// grown first; the snapshot's size must then equal the memory's size
    /// exactly (a snapshot is always a whole number of pages). Both sides
    /// must come from the same module; nothing checks identity.
    pub fn load_state(&mut self, snapshot: &[u8]) -> (r: Result<(), DtasmtimeError>)
        requires
            old(self).inv(),
        ensures
            final(self).inv(),
            final(self).has_md() == old(self).has_md(),
            final(self).registry() == old(self).registry(),
            r is Ok ==> final(self).memory_bytes() == snapshot@,
            snapshot@.len() == old(self).memory_bytes().len() ==> r is Ok,
    {
        let state_size = snapshot.len() as u64;
        let pages = memory_size_pages(&self.memory, &self.store);
        let total = match pages.checked_mul(WASM_PAGE_SIZE) {
            Some(t) => t,
            None => {
                return Err(internal_error("linear memory size overflows"));
            },
        };
        if state_size > total {
            if state_size % WASM_PAGE_SIZE != 0 {
                return Err(internal_error("snapshot is not a whole number of pages"));
            }
            let add_pages = state_size / WASM_PAGE_SIZE - pages;
            match memory_grow(&self.memory, &mut self.store, add_pages) {
                Ok(_) => {},
                Err(e) => {
                    return Err(DtasmtimeError::ModuleError(e));
                },
            }
        }
        let pages2 = memory_size_pages(&self.memory, &self.store);
        let total2 = match pages2.checked_mul(WASM_PAGE_SIZE) {
            Some(t) => t,
            None => {
                return Err(internal_error("linear memory size overflows"));
            },
        };
        if state_size != total2 {
            return Err(internal_error("snapshot size does not match the memory size"));
        }
        let ok = memory_write(&self.memory, &mut self.store, 0, snapshot);
        if !ok {
            return Err(internal_error("snapshot does not fit into linear memory"));
        }
        proof {
            assert(mem_view(self.memory, self.store) =~= snapshot@);
        }
        Ok(())
    }

    /// Serialize the current state of the instance: the whole linear
    /// memory, with no framing and no versioning.
    pub fn save_state(&self) -> (r: Vec<u8>)
        requires
            self.inv(),
        ensures
            r@ == self.memory_bytes(),
    {
        memory_read_all(&self.memory, &self.store)
    }
}

} // verus!
