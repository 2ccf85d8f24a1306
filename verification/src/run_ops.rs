//! The run record that describes a finished guest run.

use vstd::prelude::*;
use crate::ipld::{run_issue, RunRecord, TraceMetricsRecord, RUN_KIND};
use crate::sandbox::WasmRunOutcome;
use crate::uor_impl::SandboxTraceMetrics;

verus! {

/// Metrics of a run: one step; stdout length as ring distance, stderr length
/// as Hamming distance.
pub fn trace_metrics_of(out: &WasmRunOutcome) -> (m: SandboxTraceMetrics)
    ensures
        m.step_count == 1,
        m.total_ring_distance == out.stdout@.len(),
        m.total_hamming_distance == out.stderr@.len(),
{
    SandboxTraceMetrics {
        step_count: 1,
        total_ring_distance: out.stdout.len() as u64,
        total_hamming_distance: out.stderr.len() as u64,
    }
}

/// The run record of `out` for the module `wasm_cid` whose stdout and stderr
/// were stored under `stdout_cid` and `stderr_cid`; refused when the record
/// would not be valid.
pub fn run_record_for(
    wasm_cid: &str,
    input_cids: Vec<String>,
    out: &WasmRunOutcome,
    stdout_cid: String,
    stderr_cid: String,
) -> (r: Result<RunRecord, &'static str>)
    ensures
        match r {
            Ok(rec) => {
                &&& run_issue(RUN_KIND@, wasm_cid@, stdout_cid@, stderr_cid@) is None
                &&& rec.kind@ == RUN_KIND@
                &&& rec.wasm_cid@ == wasm_cid@
                &&& rec.input_cids == input_cids
                &&& rec.exit_code == out.exit_code
                &&& rec.stdout_cid == stdout_cid
                &&& rec.stderr_cid == stderr_cid
                &&& rec.trace_cid@ == Seq::<char>::empty()
                &&& rec.metrics.step_count == 1
                &&& rec.metrics.total_ring_distance == out.stdout@.len()
                &&& rec.metrics.total_hamming_distance == out.stderr@.len()
                &&& rec.issue() is None
            },
            Err(m) => run_issue(RUN_KIND@, wasm_cid@, stdout_cid@, stderr_cid@) == Some(m@),
        },
{
    let metrics = trace_metrics_of(out);
    let record = RunRecord {
        kind: RUN_KIND.to_owned(),
        wasm_cid: wasm_cid.to_owned(),
        input_cids,
        exit_code: out.exit_code,
        stdout_cid,
        stderr_cid,
        trace_cid: String::new(),
        metrics: TraceMetricsRecord {
            step_count: metrics.step_count,
            total_ring_distance: metrics.total_ring_distance,
            total_hamming_distance: metrics.total_hamming_distance,
        },
    };
    record.validate()?;
    Ok(record)
}

} // verus!
