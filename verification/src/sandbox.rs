//! Running a guest (a WASI preview1 module) under wasmtime with fuel and
//! captured stdout/stderr: the limits, the run and its outcome.

use vstd::prelude::*;
use vstd::string::StringExecFns;

verus! {

/// Resource limits for guest code.
#[derive(Debug, Clone, PartialEq, Eq)]
pub struct WasmRunLimits {
    pub fuel: u64,
    pub stdout_capacity: usize,
    pub stderr_capacity: usize,
}

impl Default for WasmRunLimits {
    /// Ten million units of fuel, 256 KiB of stdout and of stderr.
    fn default() -> (l: Self)
        ensures
            l.fuel == 10_000_000,
            l.stdout_capacity == 256 * 1024,
            l.stderr_capacity == 256 * 1024,
    {
        WasmRunLimits { fuel: 10_000_000, stdout_capacity: 256 * 1024, stderr_capacity: 256 * 1024 }
    }
}

/// What a guest run produced.
#[derive(Debug, Clone, PartialEq, Eq)]
pub struct WasmRunOutcome {
    pub exit_code: i32,
    pub stdout: Vec<u8>,
    pub stderr: Vec<u8>,
}

/// How a guest's `_start` call ended.
#[derive(Debug, Clone, Copy, PartialEq, Eq)]
pub enum GuestEnd {
    /// `_start` returned.
    Returned,
    /// The guest called WASI `proc_exit` with this status.
    Exited(i32),
    /// The call failed in any other way (a trap, fuel running out, ...).
    Failed,
}

/// The exit code of a run that ended so: 0 when `_start` returned, the
/// status given to `proc_exit` when the guest exited, none when it failed.
pub open spec fn exit_code_spec(end: GuestEnd) -> Option<i32> {
    match end {
        GuestEnd::Returned => Some(0i32),
        GuestEnd::Exited(status) => Some(status),
        GuestEnd::Failed => None::<i32>,
    }
}

/// The exit code of a run that ended so: 0 when `_start` returned, the
/// status given to `proc_exit` when the guest exited, none when it failed.
pub fn exit_code_of(end: GuestEnd) -> (c: Option<i32>)
    ensures
        c == exit_code_spec(end),
{
    match end {
        GuestEnd::Returned => Some(0),
        GuestEnd::Exited(status) => Some(status),
        GuestEnd::Failed => None,
    }
}

/// The outcome of a run that ended so with this output: its exit code and
/// the captured stdout and stderr; none when the run failed.
pub fn outcome_of(end: GuestEnd, stdout: Vec<u8>, stderr: Vec<u8>) -> (r: Option<WasmRunOutcome>)
    ensures
        r is Some <==> !(end is Failed),
        r matches Some(o) ==> o.stdout == stdout && o.stderr == stderr && Some(o.exit_code)
            == exit_code_spec(end),
{
    match exit_code_of(end) {
        Some(exit_code) => Some(WasmRunOutcome { exit_code, stdout, stderr }),
        None => None,
    }
}

/// How a `_start` call ended, from what the call gave back: it returned,
/// it failed with WASI's exit error carrying this status, or it failed
/// otherwise (`None`).
pub open spec fn call_end(call: Result<(), Option<i32>>) -> GuestEnd {
    match call {
        Ok(()) => GuestEnd::Returned,
        Err(Some(status)) => GuestEnd::Exited(status),
        Err(None) => GuestEnd::Failed,
    }
}

/// How a `_start` call ended, from what the call gave back: `Ok` is a
/// return, an error with an exit status is an exit with that status, any
/// other error is a failure.
pub fn run_end(call: Result<(), Option<i32>>) -> (e: GuestEnd)
    ensures
        e == call_end(call),
{
    match call {
        Ok(()) => GuestEnd::Returned,
        Err(Some(status)) => GuestEnd::Exited(status),
        Err(None) => GuestEnd::Failed,
    }
}

/// How a guest is started: the module's bytes, its arguments, its fuel, the
/// export it starts at, and the capacities of the fresh pipes that its fd 1
/// and fd 2 write to.
pub struct GuestLaunch {
    pub module: Seq<u8>,
    pub args: Seq<Seq<char>>,
    pub fuel: u64,
    pub export: Seq<char>,
    pub stdout_capacity: usize,
    pub stderr_capacity: usize,
}

/// The launch that `run_wasm_wasi` makes of its arguments.
pub open spec fn launch_of(wasm_bytes: Seq<u8>, args: Seq<Seq<char>>, limits: WasmRunLimits) -> GuestLaunch {
    GuestLaunch {
        module: wasm_bytes,
        args,
        fuel: limits.fuel,
        export: START_EXPORT@,
        stdout_capacity: limits.stdout_capacity,
        stderr_capacity: limits.stderr_capacity,
    }
}

/// The names of the steps of a run, which start the text of the error that a
/// failing step gives.
pub open spec fn run_step(name: Seq<char>) -> bool {
    ||| name == "wasm engine"@
    ||| name == "fuel"@
    ||| name == "link wasi preview1"@
    ||| name == "parse wasm module"@
    ||| name == "instantiate"@
    ||| name == "missing _start export; build with wasm32-wasi target"@
    ||| name == "wasm _start"@
}

/// An error text of a run: a step's name, a colon and a space, then the cause.
pub open spec fn run_error(m: Seq<char>) -> bool {
    exists|name: Seq<char>| #[trigger] run_step(name) && (name + ": "@).is_prefix_of(m)
}

/// `context`, a colon and `cause`: how an error is described together with
/// the step it came from.
pub fn with_context(context: &str, cause: String) -> (m: String)
    ensures
        m@ == context@ + ": "@ + cause@,
{
    let mut m = context.to_owned();
    m.append(": ");
    m.append(cause.as_str());
    proof {
        reveal_strlit(": ");
    }
    m
}

/// The export a WASI command module starts at.
pub const START_EXPORT: &'static str = "_start";

/// A wasmtime engine (opaque here).
#[verifier::external_type_specification]
#[verifier::external_body]
pub struct ExEngine(wasmtime::Engine);

/// A compiled wasm module (opaque here).
#[verifier::external_type_specification]
#[verifier::external_body]
pub struct ExModule(wasmtime::Module);

/// A wasmtime store with its host data (opaque here).
#[verifier::external_type_specification]
#[verifier::external_body]
#[verifier::reject_recursive_types(T)]
pub struct ExStore<T>(wasmtime::Store<T>);

/// A wasmtime linker (opaque here).
#[verifier::external_type_specification]
#[verifier::external_body]
#[verifier::reject_recursive_types(T)]
pub struct ExLinker<T>(wasmtime::Linker<T>);

/// The WASI preview1 state of a guest (opaque here).
#[verifier::external_type_specification]
#[verifier::external_body]
pub struct ExWasiP1Ctx(wasmtime_wasi::preview1::WasiP1Ctx);

/// An in-memory output pipe of wasmtime-wasi (opaque here).
#[verifier::external_type_specification]
#[verifier::external_body]
pub struct ExMemoryOutputPipe(wasmtime_wasi::pipe::MemoryOutputPipe);

/// An error of wasmtime (an `anyhow::Error`, opaque here).
#[verifier::external_type_specification]
#[verifier::external_body]
pub struct ExAnyhowError(anyhow::Error);

/// The capacity that the pipe `p` was made with.
pub uninterp spec fn pipe_capacity(p: wasmtime_wasi::pipe::MemoryOutputPipe) -> usize;

/// What `Engine::is_async` returns for `e`.
pub uninterp spec fn engine_is_async(e: wasmtime::Engine) -> bool;

/// What `Store::engine` returns for `s`.
pub uninterp spec fn store_engine(s: wasmtime::Store<wasmtime_wasi::preview1::WasiP1Ctx>) -> wasmtime::Engine;

/// What `Linker::engine` returns for `l`.
pub uninterp spec fn linker_engine(l: wasmtime::Linker<wasmtime_wasi::preview1::WasiP1Ctx>) -> wasmtime::Engine;

/// Whether a guest started as `launch` may end as `end`, having written
/// `stdout` to fd 1 and `stderr` to fd 2 (the bytes its pipes accepted).
/// What it does depends on the guest, and on the host's clock and randomness
/// that it may read, so this is a relation (several runs may be possible),
/// not a function; it is only ever asserted of a run that happened.
pub uninterp spec fn guest_may_run(launch: GuestLaunch, end: GuestEnd, stdout: Seq<u8>, stderr: Seq<u8>) -> bool;

/// Whether nothing has yet been written to the pipe `p` (nor to a clone of
/// it). A pipe shares its buffer with its clones, so this holds of a pipe
/// from its making until it is handed to a run, which consumes it.
pub uninterp spec fn pipe_is_fresh(p: wasmtime_wasi::pipe::MemoryOutputPipe) -> bool;

/// The pipe that the WASI state `c` gives its guest as fd 1.
pub uninterp spec fn wasi_stdout(c: wasmtime_wasi::preview1::WasiP1Ctx) -> wasmtime_wasi::pipe::MemoryOutputPipe;

/// The pipe that the WASI state `c` gives its guest as fd 2.
pub uninterp spec fn wasi_stderr(c: wasmtime_wasi::preview1::WasiP1Ctx) -> wasmtime_wasi::pipe::MemoryOutputPipe;

/// The arguments that the WASI state `c` gives its guest (`args_get`).
pub uninterp spec fn wasi_args(c: wasmtime_wasi::preview1::WasiP1Ctx) -> Seq<Seq<char>>;

/// What `Store::data` returns for `s`: its WASI state.
pub uninterp spec fn store_data(s: wasmtime::Store<wasmtime_wasi::preview1::WasiP1Ctx>) -> wasmtime_wasi::preview1::WasiP1Ctx;

/// What `Store::get_fuel` gives for `s`: the fuel left to its guests.
pub uninterp spec fn store_fuel(s: wasmtime::Store<wasmtime_wasi::preview1::WasiP1Ctx>) -> u64;

/// The bytes the module `m` was compiled from (`Module::from_binary`).
pub uninterp spec fn compiled_from(m: wasmtime::Module) -> Seq<u8>;

/// What a `_start` call gave back, as a plain value: `Ok`, or the exit
/// status carried by its error, if any.
pub open spec fn call_status(call: Result<(), (Option<i32>, anyhow::Error)>) -> Result<(), Option<i32>> {
    match call {
        Ok(()) => Ok(()),
        Err((status, _)) => Err(status),
    }
}

/// Calls `Config::new`, `Config::consume_fuel(consume_fuel)` and
/// `Engine::new`. Stated: the engine is not asynchronous (`Config::new`
/// leaves async support off).
#[verifier::external_body]
fn fuel_engine(consume_fuel: bool) -> (r: Result<wasmtime::Engine, anyhow::Error>)
    ensures
        r matches Ok(e) ==> !engine_is_async(e),
{
    let mut config = wasmtime::Config::new();
    config.consume_fuel(consume_fuel);
    wasmtime::Engine::new(&config)
}

/// Calls `MemoryOutputPipe::new(capacity)`. Stated: the pipe has that
/// capacity and nothing written to it.
#[verifier::external_body]
fn output_pipe(capacity: usize) -> (p: wasmtime_wasi::pipe::MemoryOutputPipe)
    ensures
        pipe_capacity(p) == capacity,
        pipe_is_fresh(p),
{
    wasmtime_wasi::pipe::MemoryOutputPipe::new(capacity)
}

/// Calls `WasiCtxBuilder::new`, `stdout` and `stderr` (with clones of the
/// pipes), `args` and `build_p1`: the WASI state of a guest whose output goes
/// to the two pipes and whose arguments are `args` (none added when empty).
/// Stated: the guest is given exactly `args`, its fd 1 is `stdout` and its
/// fd 2 is `stderr`.
#[verifier::external_body]
fn wasi_context(
    args: &[String],
    stdout: &wasmtime_wasi::pipe::MemoryOutputPipe,
    stderr: &wasmtime_wasi::pipe::MemoryOutputPipe,
) -> (c: wasmtime_wasi::preview1::WasiP1Ctx)
    ensures
        wasi_args(c) == args.deep_view(),
        wasi_stdout(c) == *stdout,
        wasi_stderr(c) == *stderr,
{
    let mut builder = wasmtime_wasi::WasiCtxBuilder::new();
    builder.stdout(stdout.clone()).stderr(stderr.clone()).args(args);
    builder.build_p1()
}

/// Calls `Store::new(engine, wasi)`. Stated: the store's engine is `engine`
/// and its data is `wasi`.
#[verifier::external_body]
fn guest_store(engine: &wasmtime::Engine, wasi: wasmtime_wasi::preview1::WasiP1Ctx) -> (s:
    wasmtime::Store<wasmtime_wasi::preview1::WasiP1Ctx>)
    ensures
        store_engine(s) == *engine,
        store_data(s) == wasi,
{
    wasmtime::Store::new(engine, wasi)
}

/// Calls `Store::set_fuel`. Stated: the store keeps its engine and its data,
/// and when the call succeeds its fuel is `fuel`.
#[verifier::external_body]
fn set_fuel(store: &mut wasmtime::Store<wasmtime_wasi::preview1::WasiP1Ctx>, fuel: u64) -> (r:
    Result<(), anyhow::Error>)
    ensures
        store_engine(*final(store)) == store_engine(*old(store)),
        store_data(*final(store)) == store_data(*old(store)),
        r is Ok ==> store_fuel(*final(store)) == fuel,
{
    store.set_fuel(fuel)
}

/// Calls `Linker::new(engine)` and `preview1::add_to_linker_sync` (the WASI
/// state is the store's data itself). Stated: the linker's engine is `engine`.
#[verifier::external_body]
fn wasi_linker(engine: &wasmtime::Engine) -> (r: Result<
    wasmtime::Linker<wasmtime_wasi::preview1::WasiP1Ctx>,
    anyhow::Error,
>)
    ensures
        r matches Ok(l) ==> linker_engine(l) == *engine,
{
    let mut linker = wasmtime::Linker::new(engine);
    wasmtime_wasi::preview1::add_to_linker_sync(&mut linker, |c| c)?;
    Ok(linker)
}

/// Calls `Module::from_binary(engine, bytes)`. Stated: a module it gives is
/// compiled from `bytes`.
#[verifier::external_body]
fn compile_module(engine: &wasmtime::Engine, bytes: &[u8]) -> (r: Result<wasmtime::Module, anyhow::Error>)
    ensures
        r matches Ok(m) ==> compiled_from(m) == bytes@,
{
    wasmtime::Module::from_binary(engine, bytes)
}

/// Calls `Linker::instantiate`, then `Instance::get_typed_func::<(), ()>` for
/// `export`, then `TypedFunc::call`, pairing a failed call's error with the
/// exit status it carries (`downcast_ref::<I32Exit>`), then
/// `MemoryOutputPipe::contents` of the two pipes. The outer error is the
/// instantiation's, the inner one the lookup's. The store and the pipes are
/// consumed, so a pipe serves one run. It panics on a store of another engine
/// or with async support, which `requires` leaves out; its WASI calls block
/// on the tokio runtime, so it must not run inside an async task. Stated:
/// the guest, started with the module, the WASI arguments and the fuel of the
/// store, from `export`, with fd 1 and fd 2 on the two fresh pipes, may run
/// as this one did: ending as the call says, having written the bytes read
/// from the pipes, which never pass their capacities (a pipe refuses a
/// write that would). It returns once the guest ends: fuel bounds the
/// guest's instructions, but a WASI clock wait (`poll_oneoff`) makes the host
/// wait as long as the guest asks.
#[verifier::external_body]
fn run_export(
    linker: &wasmtime::Linker<wasmtime_wasi::preview1::WasiP1Ctx>,
    store: wasmtime::Store<wasmtime_wasi::preview1::WasiP1Ctx>,
    module: &wasmtime::Module,
    export: &str,
    stdout: wasmtime_wasi::pipe::MemoryOutputPipe,
    stderr: wasmtime_wasi::pipe::MemoryOutputPipe,
) -> (r: Result<
    Result<(Result<(), (Option<i32>, anyhow::Error)>, Vec<u8>, Vec<u8>), anyhow::Error>,
    anyhow::Error,
>)
    requires
        linker_engine(*linker) == store_engine(store),
        !engine_is_async(store_engine(store)),
        wasi_stdout(store_data(store)) == stdout,
        wasi_stderr(store_data(store)) == stderr,
        pipe_is_fresh(stdout),
        pipe_is_fresh(stderr),
    ensures
        r matches Ok(Ok((call, out, err))) ==> {
            &&& out@.len() <= pipe_capacity(stdout)
            &&& err@.len() <= pipe_capacity(stderr)
            &&& guest_may_run(
                (GuestLaunch {
                    module: compiled_from(*module),
                    args: wasi_args(store_data(store)),
                    fuel: store_fuel(store),
                    export: export@,
                    stdout_capacity: pipe_capacity(stdout),
                    stderr_capacity: pipe_capacity(stderr),
                }),
                call_end(call_status(call)),
                out@,
                err@,
            )
        },
{
    let mut store = store;
    let instance = linker.instantiate(&mut store, module)?;
    let start = match instance.get_typed_func::<(), ()>(&mut store, export) {
        Ok(f) => f,
        Err(e) => return Ok(Err(e)),
    };
    let call = start.call(&mut store, ()).map_err(|e| (e.downcast_ref::<wasmtime_wasi::I32Exit>().map(|x| x.0), e));
    Ok(Ok((call, stdout.contents().to_vec(), stderr.contents().to_vec())))
}

/// Calls the alternate `Display` of `anyhow::Error`: the message with its
/// causes.
#[verifier::external_body]
fn error_text(e: &anyhow::Error) -> String {
    format!("{:#}", e)
}

/// Runs the WASI module `wasm_bytes` from `_start` with the arguments `args`,
/// `limits.fuel` units of fuel, and fd 1 and fd 2 captured in pipes of the
/// limits' capacities. On success the run ended in a way that a guest so
/// started may end, not by failing, having written the outcome's stdout and
/// stderr; the exit code is the one `exit_code_of` gives for that end (0 for
/// a return, the `proc_exit` status for an exit). A failing step (engine,
/// fuel, linking, parsing, instantiation, a missing `_start`, or a `_start`
/// that failed in any other way than an exit) gives an error whose text is
/// the step's name and the cause. The run lasts as long as the guest: fuel
/// bounds its instructions, not the time it asks the host to wait. Its WASI
/// calls block on the tokio runtime, so it must not run inside an async task.
pub fn run_wasm_wasi(wasm_bytes: &[u8], args: &[String], limits: &WasmRunLimits) -> (r: Result<
    WasmRunOutcome,
    String,
>)
    ensures
        r matches Ok(o) ==> {
            &&& o.stdout@.len() <= limits.stdout_capacity
            &&& o.stderr@.len() <= limits.stderr_capacity
            &&& exists|end: GuestEnd|
                #[trigger] guest_may_run(
                    launch_of(wasm_bytes@, args.deep_view(), *limits),
                    end,
                    o.stdout@,
                    o.stderr@,
                ) && !(end is Failed) && Some(o.exit_code) == exit_code_spec(end)
        },
        r matches Err(m) ==> run_error(m@),
        r matches Err(m) && ("wasm _start: "@).is_prefix_of(m@) ==> exists|out: Seq<u8>, err: Seq<u8>|
            #[trigger] guest_may_run(
                launch_of(wasm_bytes@, args.deep_view(), *limits),
                GuestEnd::Failed,
                out,
                err,
            ),
{
    proof {
        reveal_strlit("wasm engine");
        reveal_strlit("fuel");
        reveal_strlit("link wasi preview1");
        reveal_strlit("parse wasm module");
        reveal_strlit("instantiate");
        reveal_strlit("missing _start export; build with wasm32-wasi target");
        reveal_strlit("wasm _start");
        reveal_strlit(": ");
        assert("wasm engine"@[5] != "wasm _start"@[5]);
        assert("fuel"@[0] != "wasm _start"@[0]);
        assert("link wasi preview1"@[0] != "wasm _start"@[0]);
        assert("parse wasm module"@[0] != "wasm _start"@[0]);
        assert("instantiate"@[0] != "wasm _start"@[0]);
        assert("missing _start export; build with wasm32-wasi target"@[0] != "wasm _start"@[0]);
    }
    let engine = match fuel_engine(true) {
        Ok(e) => e,
        Err(e) => return Err(step_error("wasm engine", error_text(&e))),
    };
    let stdout = output_pipe(limits.stdout_capacity);
    let stderr = output_pipe(limits.stderr_capacity);
    let wasi = wasi_context(args, &stdout, &stderr);
    let mut store = guest_store(&engine, wasi);
    match set_fuel(&mut store, limits.fuel) {
        Ok(()) => {},
        Err(e) => return Err(step_error("fuel", error_text(&e))),
    }
    let linker = match wasi_linker(&engine) {
        Ok(l) => l,
        Err(e) => return Err(step_error("link wasi preview1", error_text(&e))),
    };
    let module = match compile_module(&engine, wasm_bytes) {
        Ok(m) => m,
        Err(e) => return Err(step_error("parse wasm module", error_text(&e))),
    };
    let ghost launch = launch_of(wasm_bytes@, args.deep_view(), *limits);
    proof {
        reveal_strlit("_start");
    }
    let found = match run_export(&linker, store, &module, START_EXPORT, stdout, stderr) {
        Ok(found) => found,
        Err(e) => return Err(step_error("instantiate", error_text(&e))),
    };
    let (call, out, err) = match found {
        Ok(ran) => ran,
        Err(e) => return Err(
            step_error("missing _start export; build with wasm32-wasi target", error_text(&e)),
        ),
    };
    let ghost raw = call;
    let (status, failure) = match call {
        Ok(()) => (Ok(()), None),
        Err((s, e)) => (Err(s), Some(e)),
    };
    let end = run_end(status);
    proof {
        assert(status == call_status(raw));
        assert(guest_may_run(launch, end, out@, err@));
    }
    if let GuestEnd::Failed = end {
        assert(guest_may_run(launch, GuestEnd::Failed, out@, err@));
        return Err(step_error("wasm _start", error_text(&failure.unwrap())));
    }
    let o = outcome_of(end, out, err).unwrap();
    assert(guest_may_run(launch, end, o.stdout@, o.stderr@));
    Ok(o)
}

/// The error text of a failing step: `with_context` of the step's name.
fn step_error(step: &str, cause: String) -> (m: String)
    requires
        run_step(step@),
    ensures
        run_error(m@),
        ("wasm _start: "@).is_prefix_of(m@) <==> step@ == "wasm _start"@,
{
    let m = with_context(step, cause);
    assert(m@.subrange(0, (step@ + ": "@).len() as int) =~= step@ + ": "@);
    assert(run_step(step@) && (step@ + ": "@).is_prefix_of(m@));
    proof {
        reveal_strlit("wasm engine");
        reveal_strlit("fuel");
        reveal_strlit("link wasi preview1");
        reveal_strlit("parse wasm module");
        reveal_strlit("instantiate");
        reveal_strlit("missing _start export; build with wasm32-wasi target");
        reveal_strlit("wasm _start");
        reveal_strlit("wasm _start: ");
        reveal_strlit(": ");
        let w = "wasm _start: "@;
        if step@ == "wasm _start"@ {
            assert(m@.subrange(0, w.len() as int) =~= w);
        } else if ("wasm _start: "@).is_prefix_of(m@) {
            if step@ == "wasm engine"@ {
                assert(m@[5] == step@[5]);
                assert(m@[5] == w[5]);
            } else {
                assert(m@[0] == step@[0]);
                assert(m@[0] == w[0]);
            }
        }
    }
    m
}

} // verus!
