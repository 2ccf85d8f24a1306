use uor_xiv::sandbox::{run_wasm_wasi, WasmRunLimits};

const HEADER: [u8; 8] = [0x00, 0x61, 0x73, 0x6d, 0x01, 0x00, 0x00, 0x00];

fn module(sections: &[&[u8]]) -> Vec<u8> {
    let mut m = HEADER.to_vec();
    for s in sections {
        m.extend_from_slice(s);
    }
    m
}

fn import_section(field: &str, ty: u8) -> Vec<u8> {
    let wasi = b"wasi_snapshot_preview1";
    let mut payload = vec![0x01, wasi.len() as u8];
    payload.extend_from_slice(wasi);
    payload.push(field.len() as u8);
    payload.extend_from_slice(field.as_bytes());
    payload.extend_from_slice(&[0x00, ty]);
    let mut s = vec![0x02, payload.len() as u8];
    s.extend(payload);
    s
}

/// `_start` does nothing.
fn empty_start() -> Vec<u8> {
    module(&[
        &[0x01, 0x04, 0x01, 0x60, 0x00, 0x00],
        &[0x03, 0x02, 0x01, 0x00],
        &[0x07, 0x0a, 0x01, 0x06, b'_', b's', b't', b'a', b'r', b't', 0x00, 0x00],
        &[0x0a, 0x04, 0x01, 0x02, 0x00, 0x0b],
    ])
}

/// `_start` calls `proc_exit(3)`.
fn exit_three() -> Vec<u8> {
    let import = import_section("proc_exit", 0);
    module(&[
        &[0x01, 0x08, 0x02, 0x60, 0x01, 0x7f, 0x00, 0x60, 0x00, 0x00],
        &import,
        &[0x03, 0x02, 0x01, 0x01],
        &[0x07, 0x0a, 0x01, 0x06, b'_', b's', b't', b'a', b'r', b't', 0x00, 0x01],
        &[0x0a, 0x08, 0x01, 0x06, 0x00, 0x41, 0x03, 0x10, 0x00, 0x0b],
    ])
}

/// `_start` loops forever.
fn endless_loop() -> Vec<u8> {
    module(&[
        &[0x01, 0x04, 0x01, 0x60, 0x00, 0x00],
        &[0x03, 0x02, 0x01, 0x00],
        &[0x07, 0x0a, 0x01, 0x06, b'_', b's', b't', b'a', b'r', b't', 0x00, 0x00],
        &[0x0a, 0x09, 0x01, 0x07, 0x00, 0x03, 0x40, 0x0c, 0x00, 0x0b, 0x0b],
    ])
}

#[test]
fn guest_that_returns_exits_with_zero() {
    let o = run_wasm_wasi(&empty_start(), &[], &WasmRunLimits::default()).unwrap();
    assert_eq!(o.exit_code, 0);
    assert!(o.stdout.is_empty());
    assert!(o.stderr.is_empty());
}

#[test]
fn guest_that_runs_out_of_fuel_fails() {
    let limits = WasmRunLimits { fuel: 1000, ..WasmRunLimits::default() };
    let r = run_wasm_wasi(&endless_loop(), &[], &limits);
    assert!(r.unwrap_err().starts_with("wasm _start: "));
}

#[test]
fn guest_whose_wasi_call_fails_is_refused() {
    // `proc_exit` needs the module to export its memory; this one has none.
    let r = run_wasm_wasi(&exit_three(), &["a".to_string()], &WasmRunLimits::default());
    assert!(r.unwrap_err().starts_with("wasm _start: "));
}

#[test]
fn malformed_module_is_refused() {
    let r = run_wasm_wasi(b"not wasm", &[], &WasmRunLimits::default());
    assert!(r.unwrap_err().starts_with("parse wasm module: "));
}

#[test]
fn module_without_start_is_refused() {
    let mut m = empty_start();
    let at = m.len() - 6 - 12;
    m[at + 4..at + 10].copy_from_slice(b"_begin");
    let r = run_wasm_wasi(&m, &[], &WasmRunLimits::default());
    assert!(r.unwrap_err().starts_with("missing _start export; build with wasm32-wasi target: "));
}
