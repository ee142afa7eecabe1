//! The engine and module lifecycle against the real sandbox VM.
//!
//! No module binary that speaks the protocol is available here, so these
//! tests exercise loading and the required-export check; the call protocol
//! itself is covered by the dispatcher's contracts and by the guest-side
//! tests.

use dtasmtime::errors::{DtasmError, DtasmtimeError};
use dtasmtime::runtime::{Engine, Module};

#[test]
fn engine_construction() {
    assert!(Engine::new().is_ok());
}

#[test]
fn module_without_exports_is_refused() {
    let engine = Engine::new().unwrap();
    // the smallest valid module: magic and version, no sections
    let empty = [0x00u8, 0x61, 0x73, 0x6d, 0x01, 0x00, 0x00, 0x00];
    match Module::new(&empty, &engine) {
        Err(DtasmtimeError::DtasmError(DtasmError::MissingDtasmExport(name))) => {
            assert_eq!(name, "memory");
        },
        other => panic!("expected MissingDtasmExport, got {:?}", other.err().map(|e| format!("{:?}", e))),
    }
}

#[test]
fn invalid_bytes_are_refused() {
    let engine = Engine::new().unwrap();
    match Module::new(&[0xde, 0xad, 0xbe, 0xef], &engine) {
        Err(DtasmtimeError::ModuleError(_)) => {},
        other => panic!("expected ModuleError, got {:?}", other.err().map(|e| format!("{:?}", e))),
    }
}
