use std::path::PathBuf;
use uor_xiv::digest::{hex_u64, sha256_hex, to_hex_lower};
use uor_xiv::entries::EntryMap;
use uor_xiv::ipld::{RunRecord, TraceMetricsRecord, WorkspaceRoot, RUN_KIND, SCHEMA_VERSION, WORKSPACE_KIND};
use uor_xiv::requests::{parse_decimal_u64, parse_strategy, stdout_preview, RunRequest, RunRequestError};
use uor_xiv::run_ops::{run_record_for, trace_metrics_of};
use uor_xiv::sandbox::{exit_code_of, outcome_of, run_end, GuestEnd, WasmRunLimits, WasmRunOutcome};
use uor_xiv::store::{
    CidError, IpfsCliError, IpfsCliStore, LocalFsStore, MemoryStore, StoreError, LOCAL_BLOB_PREFIX,
    LOCAL_DAG_PREFIX,
};
use uor_xiv::text::{compare_text, same_text, strip_prefix, TextOrder};
use uor_xiv::uor_impl::CidAddress;
use uor_xiv::workspace::{fork_workspace, merge_workspaces, put_entry, MergeStrategy, WorkspaceError};

const ABC_SHA256: &str = "ba7816bf8f01cfea414140de5dae2223b00361a396177a9cb410ff61f20015ad";

fn manifest(pairs: &[(&str, &str)]) -> WorkspaceRoot {
    let mut w = WorkspaceRoot::empty();
    for (k, v) in pairs {
        w = put_entry(w, k.to_string(), v.to_string());
    }
    w
}

#[test]
fn text_order_is_bytewise() {
    assert_eq!(compare_text("a", "b"), TextOrder::Less);
    assert_eq!(compare_text("ab", "a"), TextOrder::Greater);
    assert_eq!(compare_text("same", "same"), TextOrder::Equal);
    assert_eq!(compare_text("\u{e9}", "z"), TextOrder::Greater);
    assert_eq!(compare_text("", "a"), TextOrder::Less);
    assert!(same_text("cid", "cid"));
    assert!(!same_text("cid", "cia"));
    assert_eq!(strip_prefix("uorx-b-abc", "uorx-b-"), Some("abc"));
    assert_eq!(strip_prefix("uorx-d-abc", "uorx-b-"), None);
}

#[test]
fn entry_map_keeps_names_sorted_and_unique() {
    let mut m = EntryMap::new();
    assert_eq!(m.insert("b".into(), "2".into()), None);
    assert_eq!(m.insert("a".into(), "1".into()), None);
    assert_eq!(m.insert("c".into(), "3".into()), None);
    assert_eq!(m.insert("b".into(), "22".into()), Some("2".to_string()));
    assert_eq!(m.len(), 3);
    let names: Vec<String> = (0..m.len()).map(|i| m.entry(i).0.clone()).collect();
    assert_eq!(names, vec!["a".to_string(), "b".to_string(), "c".to_string()]);
    assert_eq!(m.get("b").map(String::as_str), Some("22"));
    assert_eq!(m.get("d"), None);
    assert!(m.contains_key("a"));
    assert!(!m.contains_key("z"));
    let copy = m.clone();
    assert_eq!(copy, m);
}

#[test]
fn empty_workspace_is_valid() {
    let w = WorkspaceRoot::empty();
    assert_eq!(w.kind, WORKSPACE_KIND);
    assert_eq!(w.version, SCHEMA_VERSION);
    assert_eq!(w.entries.len(), 0);
    assert!(w.parents.is_empty());
    assert_eq!(w.validate(), Ok(()));
}

#[test]
fn workspace_validation_errors() {
    let mut w = WorkspaceRoot::empty();
    w.kind = "other".into();
    assert_eq!(w.validate(), Err("workspace.kind mismatch"));

    let mut w = WorkspaceRoot::empty();
    w.version = 1;
    assert_eq!(w.validate(), Err("workspace.version unsupported"));

    let w = manifest(&[("a", ""), ("", "cid")]);
    assert_eq!(w.validate(), Err("workspace.entries empty name"));

    let w = manifest(&[("a", "cid"), ("b", "")]);
    assert_eq!(w.validate(), Err("workspace.entries empty cid"));

    let w = manifest(&[("a", "cid"), ("b", "cid2")]);
    assert_eq!(w.validate(), Ok(()));
}

fn record(kind: &str, wasm: &str, out: &str, err: &str) -> RunRecord {
    RunRecord {
        kind: kind.into(),
        wasm_cid: wasm.into(),
        input_cids: vec![],
        exit_code: 0,
        stdout_cid: out.into(),
        stderr_cid: err.into(),
        trace_cid: String::new(),
        metrics: TraceMetricsRecord { step_count: 1, total_ring_distance: 0, total_hamming_distance: 0 },
    }
}

#[test]
fn run_record_validation_errors() {
    assert_eq!(record(RUN_KIND, "w", "o", "e").validate(), Ok(()));
    assert_eq!(record("x", "w", "o", "e").validate(), Err("run.kind mismatch"));
    assert_eq!(record(RUN_KIND, "", "o", "e").validate(), Err("run.wasm_cid empty"));
    assert_eq!(record(RUN_KIND, "w", "", "e").validate(), Err("run stdout/stderr cid empty"));
    assert_eq!(record(RUN_KIND, "w", "o", "").validate(), Err("run stdout/stderr cid empty"));
}

#[test]
fn fork_keeps_slots_and_sets_parent() {
    let w = manifest(&[("paper", "cid-p")]);
    let f = fork_workspace(&w, "root-1");
    assert_eq!(f.parents, vec!["root-1".to_string()]);
    assert_eq!(f.entries, w.entries);
    assert_eq!(f.kind, w.kind);
    assert_eq!(f.validate(), Ok(()));
}

#[test]
fn put_entry_replaces_a_slot() {
    let w = manifest(&[("a", "1")]);
    let w = put_entry(w, "a".into(), "2".into());
    assert_eq!(w.entries.get("a").map(String::as_str), Some("2"));
    assert_eq!(w.entries.len(), 1);
}

#[test]
fn merge_reports_first_conflict_in_name_order() {
    let base = manifest(&[("a", "1"), ("c", "3"), ("e", "5")]);
    let incoming = manifest(&[("e", "6"), ("c", "4"), ("a", "1")]);
    let r = merge_workspaces(&base, "base", &incoming, "other", MergeStrategy::Strict);
    assert_eq!(r, Err(WorkspaceError::MergeConflict("c".into())));
}

#[test]
fn merge_strategies_and_parents() {
    let base = manifest(&[("a", "1"), ("c", "3")]);
    let incoming = manifest(&[("b", "2"), ("c", "4")]);
    let ours = merge_workspaces(&base, "base", &incoming, "other", MergeStrategy::Ours).unwrap();
    assert_eq!(ours.parents, vec!["base".to_string(), "other".to_string()]);
    assert_eq!(ours.entries.get("c").map(String::as_str), Some("3"));
    assert_eq!(ours.entries.get("b").map(String::as_str), Some("2"));
    assert_eq!(ours.entries.len(), 3);
    let theirs = merge_workspaces(&base, "base", &incoming, "other", MergeStrategy::Theirs).unwrap();
    assert_eq!(theirs.entries.get("c").map(String::as_str), Some("4"));
    assert_eq!(theirs.entries.get("a").map(String::as_str), Some("1"));
    let same = manifest(&[("a", "1")]);
    let strict = merge_workspaces(&base, "base", &same, "other", MergeStrategy::Strict).unwrap();
    assert_eq!(strict.entries, base.entries);
    assert_eq!(strict.validate(), Ok(()));
}

#[test]
fn merge_with_itself_changes_nothing() {
    let w = manifest(&[("a", "1"), ("b", "2")]);
    for s in [MergeStrategy::Ours, MergeStrategy::Theirs, MergeStrategy::Strict] {
        let m = merge_workspaces(&w, "x", &w, "y", s).unwrap();
        assert_eq!(m.entries, w.entries);
    }
}

#[test]
fn merge_sides_swap_with_strategies() {
    let a = manifest(&[("x", "left"), ("y", "1")]);
    let b = manifest(&[("x", "right"), ("z", "2")]);
    let ours = merge_workspaces(&a, "a", &b, "b", MergeStrategy::Ours).unwrap();
    let theirs = merge_workspaces(&b, "b", &a, "a", MergeStrategy::Theirs).unwrap();
    assert_eq!(ours.entries, theirs.entries);
    assert!(merge_workspaces(&a, "a", &b, "b", MergeStrategy::Strict).is_err());
    assert!(merge_workspaces(&b, "b", &a, "a", MergeStrategy::Strict).is_err());
}

#[test]
fn merge_with_empty_keeps_the_other_side() {
    let w = manifest(&[("a", "1"), ("b", "2")]);
    let e = WorkspaceRoot::empty();
    for s in [MergeStrategy::Ours, MergeStrategy::Theirs, MergeStrategy::Strict] {
        assert_eq!(merge_workspaces(&w, "w", &e, "e", s).unwrap().entries, w.entries);
        assert_eq!(merge_workspaces(&e, "e", &w, "w", s).unwrap().entries, w.entries);
    }
}

#[test]
fn strategies_agree_without_conflict() {
    let a = manifest(&[("a", "1"), ("s", "same")]);
    let b = manifest(&[("b", "2"), ("s", "same")]);
    let ours = merge_workspaces(&a, "a", &b, "b", MergeStrategy::Ours).unwrap();
    let theirs = merge_workspaces(&a, "a", &b, "b", MergeStrategy::Theirs).unwrap();
    let strict = merge_workspaces(&a, "a", &b, "b", MergeStrategy::Strict).unwrap();
    assert_eq!(ours.entries, theirs.entries);
    assert_eq!(strict.entries, theirs.entries);
    assert_eq!(strict.entries.len(), 3);
}

#[test]
fn hex_encodings() {
    assert_eq!(to_hex_lower(&[0xbe, 0xef, 0x01]), "beef01");
    assert_eq!(hex_u64(255), "00000000000000ff");
    assert_eq!(hex_u64(u64::MAX), "ffffffffffffffff");
    assert_eq!(sha256_hex(b"abc"), ABC_SHA256);
}

#[test]
fn memory_store_reads_back_what_it_wrote() {
    let mut s = MemoryStore::new();
    let blob = s.add_blob(b"hello");
    assert_eq!(blob, "bafymemb0000000000000001");
    let v = serde_json::Value::from(vec![1, 2, 3]);
    let dag = s.dag_put_json(&v);
    assert_eq!(dag, "bafymemd0000000000000002");
    assert_eq!(s.allocated_count(), 2);
    assert_eq!(s.cat_blob(&blob), Ok(b"hello".to_vec()));
    assert_eq!(s.dag_get_json(&dag), Ok(v));
    assert_eq!(s.cat_blob(&dag), Err(StoreError::UnknownBlob(dag.clone())));
    assert_eq!(s.dag_get_json("nope"), Err(StoreError::UnknownDag("nope".into())));
    assert_eq!(s.pin(&blob), Ok(()));
    let second = s.add_blob(b"hello");
    assert_ne!(second, blob);
}

#[test]
fn local_store_cids_are_sha256_digests() {
    let cid = LocalFsStore::blob_cid(b"abc");
    assert!(cid.starts_with(LOCAL_BLOB_PREFIX));
    assert_eq!(cid, format!("{}{}", LOCAL_BLOB_PREFIX, ABC_SHA256));
    assert_eq!(LocalFsStore::checked_blob_hex(&cid), Ok(ABC_SHA256));
    let dag = LocalFsStore::dag_cid(b"abc");
    assert!(dag.starts_with(LOCAL_DAG_PREFIX));
    assert_eq!(LocalFsStore::checked_dag_hex(&dag), Ok(ABC_SHA256));
    assert_eq!(LocalFsStore::parse_blob_cid(&dag), Err(CidError::MissingBlobPrefix));
    assert_eq!(LocalFsStore::parse_dag_cid(&cid), Err(CidError::MissingDagPrefix));
    assert_eq!(LocalFsStore::checked_blob_hex("uorx-b-zz"), Err(CidError::InvalidBlobHash));
    assert_eq!(LocalFsStore::checked_dag_hex("uorx-d-"), Err(CidError::InvalidDagHash));
    assert!(LocalFsStore::is_digest_hex(&ABC_SHA256.to_uppercase()));
    assert_eq!(LocalFsStore::pin_marker_name("uorx-b-ab/c:d"), "uorx-b-ab_c_d");
    assert_eq!(LocalFsStore::pin_marker_name("caf\u{e9}!"), "caf\u{e9}_");
    let s = LocalFsStore::new(PathBuf::from("/tmp/store"));
    assert_eq!(s.root(), &PathBuf::from("/tmp/store"));
}

#[test]
fn local_store_layout_paths() {
    let s = LocalFsStore::new(PathBuf::from("/tmp/store"));
    assert_eq!(s.blob_path(ABC_SHA256), PathBuf::from(format!("/tmp/store/blobs/{}", ABC_SHA256)));
    assert_eq!(s.dag_path("00ff"), PathBuf::from("/tmp/store/dags/00ff"));
    assert_eq!(s.pin_path("uorx-d-a/b"), PathBuf::from("/tmp/store/pins/uorx-d-a_b"));
}

#[test]
fn ipfs_command_outputs() {
    assert_eq!(IpfsCliStore::text_output(true, b"  Qm123\n".to_vec(), b""), Ok("Qm123".to_string()));
    assert_eq!(
        IpfsCliStore::text_output(false, b"ignored".to_vec(), b" boom \n"),
        Err(IpfsCliError::Command("boom".into()))
    );
    assert_eq!(IpfsCliStore::text_output(true, vec![0xff, 0xfe], b""), Err(IpfsCliError::Utf8));
    assert_eq!(IpfsCliStore::bytes_output(true, vec![0xff], b""), Ok(vec![0xff]));
    assert_eq!(
        IpfsCliStore::bytes_output(false, vec![], b"no such cid"),
        Err(IpfsCliError::Command("no such cid".into()))
    );
    assert_eq!(IpfsCliStore::new("ipfs".into()).program, "ipfs");
}

#[test]
fn cid_address_fields() {
    let a = CidAddress::from_cid("baf\u{e9}");
    assert_eq!(a.cid(), "baf\u{e9}");
    assert_eq!(a.glyph(), "baf\u{e9}");
    assert_eq!(a.addresses(), "baf\u{e9}");
    assert_eq!(a.digest(), "baf\u{e9}");
    assert_eq!(a.digest_algorithm(), "cidv1");
    assert_eq!(a.canonical_bytes(), "");
    assert_eq!(a.quantum(), 8);
    assert_eq!(a.length(), 4);
    let b = CidAddress::with_canonical_digest("cid", "sha2-256", "abcd", "QUJD", 16);
    assert_eq!(b.digest(), "abcd");
    assert_eq!(b.digest_algorithm(), "sha2-256");
    assert_eq!(b.canonical_bytes(), "QUJD");
    assert_eq!(b.quantum(), 16);
    assert_eq!(b.glyph(), "cid");
}

#[test]
fn run_records_of_outcomes() {
    let out = WasmRunOutcome { exit_code: 3, stdout: b"hi".to_vec(), stderr: b"oops!".to_vec() };
    let m = trace_metrics_of(&out);
    assert_eq!((m.step_count, m.total_ring_distance, m.total_hamming_distance), (1, 2, 5));
    let rec = run_record_for("wasm", vec!["in".into()], &out, "o".into(), "e".into()).unwrap();
    assert_eq!(rec.kind, RUN_KIND);
    assert_eq!(rec.exit_code, 3);
    assert_eq!(rec.input_cids, vec!["in".to_string()]);
    assert_eq!(rec.trace_cid, "");
    assert_eq!(rec.metrics.total_ring_distance, 2);
    assert_eq!(rec.validate(), Ok(()));
    assert_eq!(
        run_record_for("wasm", vec![], &out, "".into(), "e".into()),
        Err("run stdout/stderr cid empty")
    );
    assert_eq!(run_record_for("", vec![], &out, "o".into(), "e".into()), Err("run.wasm_cid empty"));
}

#[test]
fn default_limits() {
    let l = WasmRunLimits::default();
    assert_eq!(l.fuel, 10_000_000);
    assert_eq!(l.stdout_capacity, 262144);
    assert_eq!(l.stderr_capacity, 262144);
}

#[test]
fn guest_exit_codes() {
    assert_eq!(exit_code_of(GuestEnd::Returned), Some(0));
    assert_eq!(exit_code_of(GuestEnd::Exited(3)), Some(3));
    assert_eq!(exit_code_of(GuestEnd::Exited(-1)), Some(-1));
    assert_eq!(exit_code_of(GuestEnd::Failed), None);
}

#[test]
fn start_call_results_classify_runs() {
    assert_eq!(run_end(Ok(())), GuestEnd::Returned);
    assert_eq!(run_end(Err(Some(3))), GuestEnd::Exited(3));
    assert_eq!(run_end(Err(None)), GuestEnd::Failed);
    let o = outcome_of(run_end(Err(Some(3))), vec![], b"e".to_vec()).unwrap();
    assert_eq!(o, WasmRunOutcome { exit_code: 3, stdout: vec![], stderr: b"e".to_vec() });
    assert_eq!(outcome_of(run_end(Ok(())), b"o".to_vec(), vec![]).unwrap().exit_code, 0);
    assert!(outcome_of(run_end(Err(None)), vec![], vec![]).is_none());
}

#[test]
fn strategy_names() {
    assert_eq!(parse_strategy("strict"), Ok(MergeStrategy::Strict));
    assert_eq!(parse_strategy("OURS"), Ok(MergeStrategy::Ours));
    assert_eq!(parse_strategy("Theirs"), Ok(MergeStrategy::Theirs));
    assert_eq!(parse_strategy("mine"), Err("strategy must be strict, ours, or theirs"));
    assert_eq!(parse_strategy(" ours"), Err("strategy must be strict, ours, or theirs"));
}

#[test]
fn decimal_numbers() {
    assert_eq!(parse_decimal_u64("123"), Some(123));
    assert_eq!(parse_decimal_u64("+7"), Some(7));
    assert_eq!(parse_decimal_u64("007"), Some(7));
    assert_eq!(parse_decimal_u64(""), None);
    assert_eq!(parse_decimal_u64("+"), None);
    assert_eq!(parse_decimal_u64("-1"), None);
    assert_eq!(parse_decimal_u64(" 1"), None);
    assert_eq!(parse_decimal_u64("12a"), None);
    assert_eq!(parse_decimal_u64("18446744073709551615"), Some(u64::MAX));
    assert_eq!(parse_decimal_u64("18446744073709551616"), None);
    for n in ["0", "42", "99999"] {
        assert_eq!(parse_decimal_u64(n), n.parse::<u64>().ok());
    }
}

#[test]
fn stdout_previews() {
    assert_eq!(stdout_preview(b"hello"), "hello");
    let long = vec![b'a'; 5000];
    let p = stdout_preview(&long);
    assert_eq!(p, format!("{}\u{2026}", "a".repeat(4096)));
    assert_eq!(stdout_preview(&[0xff]), "\u{fffd}");
}

#[test]
fn run_request_fields() {
    let mut r = RunRequest::new();
    assert_eq!(r.fuel, 10_000_000);
    assert_eq!(r.apply_field("fuel", b"42".to_vec()), Ok(()));
    assert_eq!(r.fuel, 42);
    assert_eq!(r.apply_field("fuel", b"lots".to_vec()), Err(RunRequestError::InvalidFuel));
    assert_eq!(r.fuel, 42);
    assert_eq!(r.apply_field("args", b" [\"a\", \"b\"] ".to_vec()), Ok(()));
    assert_eq!(r.guest_args, vec!["a".to_string(), "b".to_string()]);
    assert!(matches!(r.apply_field("args", b"nope".to_vec()), Err(RunRequestError::ArgsJson(_))));
    assert_eq!(r.apply_field("input_cids", b"[\"cid-1\"]".to_vec()), Ok(()));
    assert_eq!(r.input_cids, vec!["cid-1".to_string()]);
    assert!(matches!(r.apply_field("input_cids", b"{}".to_vec()), Err(RunRequestError::InputCidsJson(_))));
    assert_eq!(r.apply_field("other", b"x".to_vec()), Ok(()));
    assert!(r.wasm.is_none());
    let r2 = RunRequest::new();
    assert!(matches!(r2.finish(), Err(RunRequestError::MissingWasm)));
    assert_eq!(r.apply_field("wasm", b"\0asm".to_vec()), Ok(()));
    let (wasm, limits, args, cids) = r.finish().unwrap();
    assert_eq!(wasm, b"\0asm".to_vec());
    assert_eq!(limits.fuel, 42);
    assert_eq!(limits.stdout_capacity, 262144);
    assert_eq!(args.len(), 2);
    assert_eq!(cids, vec!["cid-1".to_string()]);
}

#[test]
fn run_request_json_errors_carry_the_parser_message() {
    let expected = serde_json::from_str::<Vec<String>>("nope").unwrap_err().to_string();
    let mut r = RunRequest::new();
    assert_eq!(r.apply_field("args", b" nope\n".to_vec()), Err(RunRequestError::ArgsJson(expected.clone())));
    assert_eq!(r.apply_field("input_cids", b"nope".to_vec()), Err(RunRequestError::InputCidsJson(expected)));
    assert!(r.guest_args.is_empty());
    assert!(r.input_cids.is_empty());
}

#[test]
fn trimming_matches_str_trim() {
    for s in ["  a b \t\n", "\u{3000}x\u{a0}", "   ", "", "keep", "\u{85}y\u{2029}", "\u{200b}z"] {
        assert_eq!(uor_xiv::text::trim(s), s.trim());
    }
    for c in ['\t', '\n', '\u{b}', ' ', '\u{a0}', '\u{1680}', '\u{2007}', '\u{3000}', 'a', '\u{200b}', '_'] {
        assert_eq!(uor_xiv::text::is_white_space(c), c.is_whitespace());
    }
}

#[test]
fn memory_store_calls_get_distinct_cids_and_keep_their_data() {
    let mut s = MemoryStore::new();
    let first = s.add_blob(b"same");
    let node = serde_json::Value::from("n");
    let dag = s.dag_put_json(&node);
    let second = s.add_blob(b"same");
    let third = s.add_blob(b"other");
    assert_ne!(first, second);
    assert_ne!(first, dag);
    assert_eq!(third, "bafymemb0000000000000004");
    assert_eq!(s.cat_blob(&first), Ok(b"same".to_vec()));
    assert_eq!(s.cat_blob(&second), Ok(b"same".to_vec()));
    assert_eq!(s.cat_blob(&third), Ok(b"other".to_vec()));
    assert_eq!(s.dag_get_json(&dag), Ok(node));
    assert_eq!(s.cat_blob("bafymemb0000000000000002"), Err(StoreError::UnknownBlob("bafymemb0000000000000002".into())));
}

#[test]
fn pin_markers_hold_no_separators() {
    assert_eq!(LocalFsStore::pin_marker_name("../x/.y\\z"), "___x__y_z");
}
