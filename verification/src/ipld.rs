//! Workspace manifests and run records (the IPLD nodes this crate writes),
//! with the checks a manifest must pass before it is stored or used.

use vstd::prelude::*;
use crate::entries::EntryMap;
use crate::text::{lemma_empty_text_least, same_text, text_lt};

verus! {

/// `kind` field of a [`WorkspaceRoot`].
pub const WORKSPACE_KIND: &'static str = "uor-xiv/workspace@v0";

/// `kind` field of a [`RunRecord`].
pub const RUN_KIND: &'static str = "uor-xiv/run@v0";

/// Current manifest schema version.
pub const SCHEMA_VERSION: u32 = 0;

/// Workspace manifest: named slots map to content CIDs; `parents` record the
/// workspaces it was forked or merged from (none for a fresh workspace).
#[derive(Debug, Clone, PartialEq, Eq)]
pub struct WorkspaceRoot {
    pub kind: String,
    pub version: u32,
    /// Slot name to CID of a blob or a nested DAG.
    pub entries: EntryMap,
    /// CIDs of the parent workspace roots.
    pub parents: Vec<String>,
}

/// Why a manifest with these fields is not valid, or `None` when it is.
pub open spec fn workspace_issue(
    kind: Seq<char>,
    version: u32,
    entries: Map<Seq<char>, Seq<char>>,
) -> Option<Seq<char>> {
    if kind != WORKSPACE_KIND@ {
        Some("workspace.kind mismatch"@)
    } else if version != SCHEMA_VERSION {
        Some("workspace.version unsupported"@)
    } else if entries.contains_key(Seq::<char>::empty()) {
        Some("workspace.entries empty name"@)
    } else if exists|k: Seq<char>| #[trigger] entries.contains_key(k) && entries[k].len() == 0 {
        Some("workspace.entries empty cid"@)
    } else {
        None
    }
}

impl WorkspaceRoot {
    /// Why this manifest is not valid, or `None` when it is.
    pub open spec fn issue(&self) -> Option<Seq<char>> {
        workspace_issue(self.kind@, self.version, self.entries@)
    }

    /// A fresh manifest: current kind and version, no slots, no parents.
    pub fn empty() -> (w: Self)
        ensures
            w.kind@ == WORKSPACE_KIND@,
            w.version == SCHEMA_VERSION,
            w.entries@ == Map::<Seq<char>, Seq<char>>::empty(),
            w.parents@.len() == 0,
            w.issue() is None,
    {
        let w = WorkspaceRoot {
            kind: WORKSPACE_KIND.to_owned(),
            version: SCHEMA_VERSION,
            entries: EntryMap::new(),
            parents: Vec::new(),
        };
        assert(!w.entries@.contains_key(Seq::<char>::empty()));
        w
    }

    /// Checks the manifest: its kind and version, and that no slot has an
    /// empty name or an empty CID (slots are checked in ascending order of name).
    pub fn validate(&self) -> (r: Result<(), &'static str>)
        ensures
            match r {
                Ok(()) => self.issue() is None,
                Err(m) => self.issue() == Some(m@),
            },
    {
        if !same_text(self.kind.as_str(), WORKSPACE_KIND) {
            return Err("workspace.kind mismatch");
        }
        if self.version != SCHEMA_VERSION {
            return Err("workspace.version unsupported");
        }
        let n = self.entries.len();
        let mut i: usize = 0;
        while i < n
            invariant
                n == self.entries.pairs().len(),
                crate::entries::ascending(self.entries.pairs()),
                self.kind@ == WORKSPACE_KIND@,
                self.version == SCHEMA_VERSION,
                i <= n,
                forall|j: int|
                    0 <= j < i ==> (#[trigger] self.entries.pairs()[j]).0.len() > 0
                        && self.entries.pairs()[j].1.len() > 0,
            decreases n - i,
        {
            let (name, cid) = self.entries.entry(i);
            if name.as_str().is_empty() {
                assert(name@ =~= Seq::<char>::empty());
                return Err("workspace.entries empty name");
            }
            if cid.as_str().is_empty() {
                proof {
                    self.lemma_no_empty_name_after(i as int);
                    assert(self.entries@.contains_key(name@) && self.entries@[name@].len() == 0);
                }
                return Err("workspace.entries empty cid");
            }
            i = i + 1;
        }
        proof {
            crate::entries::lemma_map_of_ascending(self.entries.pairs());
            assert forall|k: Seq<char>| #[trigger] self.entries@.contains_key(k) implies k.len()
                > 0 && self.entries@[k].len() > 0 by {
                let j = choose|j: int|
                    0 <= j < self.entries.pairs().len() && #[trigger] self.entries.pairs()[j].0
                        == k;
                assert(self.entries.pairs()[j].0.len() > 0);
            }
            assert(!self.entries@.contains_key(Seq::<char>::empty()));
        }
        Ok(())
    }

    /// When the names before `i` are all non-empty and so is the `i`-th,
    /// no slot has an empty name.
    proof fn lemma_no_empty_name_after(&self, i: int)
        requires
            crate::entries::ascending(self.entries.pairs()),
            0 <= i < self.entries.pairs().len(),
            self.entries.pairs()[i].0.len() > 0,
            forall|j: int| 0 <= j < i ==> (#[trigger] self.entries.pairs()[j]).0.len() > 0,
        ensures
            !self.entries@.contains_key(Seq::<char>::empty()),
    {
        let s = self.entries.pairs();
        crate::entries::lemma_map_of_ascending(s);
        if self.entries@.contains_key(Seq::<char>::empty()) {
            let j = choose|j: int| 0 <= j < s.len() && #[trigger] s[j].0 == Seq::<char>::empty();
            if j < i {
                assert(s[j].0.len() > 0);
            } else {
                assert(j != i);
                assert(text_lt(s[i].0, s[j].0));
                lemma_empty_text_least(s[i].0);
            }
        }
    }
}

/// Summary metrics of a guest run.
#[derive(Debug, Clone, PartialEq, Eq)]
pub struct TraceMetricsRecord {
    pub step_count: u64,
    pub total_ring_distance: u64,
    pub total_hamming_distance: u64,
}

/// Record of a guest run: large payloads are referenced by CID.
#[derive(Debug, Clone, PartialEq, Eq)]
pub struct RunRecord {
    pub kind: String,
    pub wasm_cid: String,
    pub input_cids: Vec<String>,
    pub exit_code: i32,
    pub stdout_cid: String,
    pub stderr_cid: String,
    /// CID of an extended trace, empty when there is none.
    pub trace_cid: String,
    pub metrics: TraceMetricsRecord,
}

/// Why a run record with these fields is not valid, or `None` when it is.
pub open spec fn run_issue(
    kind: Seq<char>,
    wasm_cid: Seq<char>,
    stdout_cid: Seq<char>,
    stderr_cid: Seq<char>,
) -> Option<Seq<char>> {
    if kind != RUN_KIND@ {
        Some("run.kind mismatch"@)
    } else if wasm_cid.len() == 0 {
        Some("run.wasm_cid empty"@)
    } else if stdout_cid.len() == 0 || stderr_cid.len() == 0 {
        Some("run stdout/stderr cid empty"@)
    } else {
        None
    }
}

impl RunRecord {
    /// Why this record is not valid, or `None` when it is.
    pub open spec fn issue(&self) -> Option<Seq<char>> {
        run_issue(self.kind@, self.wasm_cid@, self.stdout_cid@, self.stderr_cid@)
    }

    /// Checks the record's kind and that the module, stdout and stderr CIDs are set.
    pub fn validate(&self) -> (r: Result<(), &'static str>)
        ensures
            match r {
                Ok(()) => self.issue() is None,
                Err(m) => self.issue() == Some(m@),
            },
    {
        if !same_text(self.kind.as_str(), RUN_KIND) {
            return Err("run.kind mismatch");
        }
        if self.wasm_cid.as_str().is_empty() {
            return Err("run.wasm_cid empty");
        }
        if self.stdout_cid.as_str().is_empty() || self.stderr_cid.as_str().is_empty() {
            return Err("run stdout/stderr cid empty");
        }
        Ok(())
    }
}

/// A run record is valid exactly when its kind is the run kind and its
/// module, stdout and stderr CIDs are all non-empty; in particular the two
/// output CIDs may be equal (a guest that wrote nothing to either stores the
/// same empty blob twice).
pub proof fn law_run_record_validity(kind: Seq<char>, wasm_cid: Seq<char>, stdout_cid: Seq<char>, stderr_cid: Seq<char>)
    ensures
        run_issue(kind, wasm_cid, stdout_cid, stderr_cid) is None <==> (kind == RUN_KIND@
            && wasm_cid.len() > 0 && stdout_cid.len() > 0 && stderr_cid.len() > 0),
{
}

} // verus!
