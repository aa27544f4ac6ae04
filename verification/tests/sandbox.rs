use gtest::sandbox::{ImportedMemory, Sandbox, SandboxError, WasmModule};

/// A module that has the given sections.
fn module(sections: &[&[u8]]) -> Vec<u8> {
    let mut code = vec![0x00, 0x61, 0x73, 0x6d, 0x01, 0x00, 0x00, 0x00];
    for section in sections {
        code.extend_from_slice(section);
    }
    code
}

/// One type of function: no parameters, no results.
const TYPES: &[u8] = &[0x01, 0x04, 0x01, 0x60, 0x00, 0x00];
/// One function, of that type.
const FUNCTIONS: &[u8] = &[0x03, 0x02, 0x01, 0x00];
/// The function is exported as `call`.
const EXPORT_CALL: &[u8] = &[0x07, 0x08, 0x01, 0x04, b'c', b'a', b'l', b'l', 0x00, 0x00];
/// The function is exported as `other`.
const EXPORT_OTHER: &[u8] = &[0x07, 0x09, 0x01, 0x05, b'o', b't', b'h', b'e', b'r', 0x00, 0x00];
/// The function is run at the start.
const START: &[u8] = &[0x08, 0x01, 0x00];
/// The function does nothing.
const RETURNS: &[u8] = &[0x0a, 0x04, 0x01, 0x02, 0x00, 0x0b];
/// The function traps.
const TRAPS: &[u8] = &[0x0a, 0x05, 0x01, 0x03, 0x00, 0x00, 0x0b];
/// One variable, zero at first.
const GLOBAL: &[u8] = &[0x06, 0x06, 0x01, 0x7f, 0x01, 0x41, 0x00, 0x0b];
/// The function traps if the variable is not zero, and else sets it to one.
const TRAPS_LATER: &[u8] = &[
    0x0a, 0x0e, 0x01, 0x0c, 0x00, 0x23, 0x00, 0x04, 0x40, 0x00, 0x0b, 0x41, 0x01, 0x24, 0x00, 0x0b,
];
/// The memory `memory` of `env` is imported, with at least one page.
const IMPORT_MEMORY: &[u8] = &[
    0x02, 0x0f, 0x01, 0x03, b'e', b'n', b'v', 0x06, b'm', b'e', b'm', b'o', b'r', b'y', 0x02, 0x00,
    0x01,
];

fn without_memory(code: Vec<u8>) -> WasmModule {
    WasmModule { code, memory: None }
}

fn with_memory(field: &str, min_pages: u32, max_pages: u32) -> WasmModule {
    WasmModule {
        code: module(&[TYPES, IMPORT_MEMORY, FUNCTIONS, EXPORT_CALL, RETURNS]),
        memory: Some(ImportedMemory {
            module: b"env".to_vec(),
            field: field.as_bytes().to_vec(),
            min_pages,
            max_pages,
        }),
    }
}

#[test]
fn call_is_invoked() {
    let code = module(&[TYPES, FUNCTIONS, EXPORT_CALL, RETURNS]);
    let mut sandbox = Sandbox::from_module(&without_memory(code)).ok().unwrap();
    assert_eq!(sandbox.invoke(), Ok(()));
    assert_eq!(sandbox.invoke(), Ok(()));
}

#[test]
fn trap_is_an_execution_error() {
    let code = module(&[TYPES, FUNCTIONS, EXPORT_CALL, TRAPS]);
    let mut sandbox = Sandbox::from_module(&without_memory(code)).ok().unwrap();
    assert_eq!(sandbox.invoke(), Err(SandboxError::Execution));
}

#[test]
fn missing_call_is_an_execution_error() {
    let code = module(&[TYPES, FUNCTIONS, EXPORT_OTHER, RETURNS]);
    let mut sandbox = Sandbox::from_module(&without_memory(code)).ok().unwrap();
    assert_eq!(sandbox.invoke(), Err(SandboxError::Execution));
}

#[test]
fn instance_keeps_its_state_between_calls() {
    let code = module(&[TYPES, FUNCTIONS, GLOBAL, EXPORT_CALL, TRAPS_LATER]);
    let mut sandbox = Sandbox::from_module(&without_memory(code.clone())).ok().unwrap();
    assert_eq!(sandbox.invoke(), Ok(()));
    assert_eq!(sandbox.invoke(), Err(SandboxError::Execution));
    let mut fresh = Sandbox::from_module(&without_memory(code)).ok().unwrap();
    assert_eq!(fresh.invoke(), Ok(()));
}

#[test]
fn invalid_code_is_a_module_error() {
    let sandbox = Sandbox::from_module(&without_memory(vec![1, 2, 3]));
    assert_eq!(sandbox.err(), Some(SandboxError::Module));
}

#[test]
fn trap_at_the_start_is_an_execution_error() {
    let code = module(&[TYPES, FUNCTIONS, EXPORT_CALL, START, TRAPS]);
    let sandbox = Sandbox::from_module(&without_memory(code));
    assert_eq!(sandbox.err(), Some(SandboxError::Execution));
}

#[test]
fn declared_memory_is_supplied() {
    let mut sandbox = Sandbox::from_module(&with_memory("memory", 1, 16)).ok().unwrap();
    assert_eq!(sandbox.invoke(), Ok(()));
}

#[test]
fn undeclared_memory_is_missing() {
    let mut module = with_memory("memory", 1, 16);
    module.memory = None;
    assert_eq!(Sandbox::from_module(&module).err(), Some(SandboxError::Module));
}

#[test]
fn memory_is_offered_under_its_name() {
    let sandbox = Sandbox::from_module(&with_memory("other", 1, 16));
    assert_eq!(sandbox.err(), Some(SandboxError::Module));
}

#[test]
fn memory_has_the_declared_size() {
    // The code asks for a memory of at least one page.
    let sandbox = Sandbox::from_module(&with_memory("memory", 0, 16));
    assert_eq!(sandbox.err(), Some(SandboxError::Module));
}

#[test]
fn impossible_memory_is_a_module_error() {
    for (min_pages, max_pages) in [(2, 1), (1, 65537), (65537, 65537)] {
        let sandbox = Sandbox::from_module(&with_memory("memory", min_pages, max_pages));
        assert_eq!(sandbox.err(), Some(SandboxError::Module));
    }
}
