//! Fork, merge and slot updates over workspace manifests.

use vstd::prelude::*;
use crate::entries::{ascending, lemma_map_of_ascending, lemma_map_of_insert, map_of_pairs};
use crate::ipld::{workspace_issue, WorkspaceRoot};

verus! {

/// Error of a workspace operation.
#[derive(Debug, Clone, PartialEq, Eq)]
pub enum WorkspaceError {
    /// Both sides name a different CID for this slot.
    MergeConflict(String),
}

/// How a merge settles a slot that both sides name with different CIDs.
#[derive(Debug, Clone, Copy, PartialEq, Eq)]
pub enum MergeStrategy {
    /// Keep the base side's CID.
    Ours,
    /// Take the incoming side's CID.
    Theirs,
    /// Refuse the merge.
    Strict,
}

/// Both maps name slot `k`, with different CIDs.
pub open spec fn in_conflict(
    base: Map<Seq<char>, Seq<char>>,
    incoming: Map<Seq<char>, Seq<char>>,
    k: Seq<char>,
) -> bool {
    &&& base.contains_key(k)
    &&& incoming.contains_key(k)
    &&& base[k] != incoming[k]
}

/// The slots of a merge: every slot of either side; on a conflict the
/// incoming CID under `Theirs`, the base CID otherwise.
pub open spec fn merged_entries(
    base: Map<Seq<char>, Seq<char>>,
    incoming: Map<Seq<char>, Seq<char>>,
    strategy: MergeStrategy,
) -> Map<Seq<char>, Seq<char>> {
    match strategy {
        MergeStrategy::Theirs => base.union_prefer_right(incoming),
        _ => incoming.union_prefer_right(base),
    }
}

/// A new manifest with the parent's kind, version and slots, whose only
/// parent is `parent_cid`.
pub fn fork_workspace(parent: &WorkspaceRoot, parent_cid: &str) -> (w: WorkspaceRoot)
    ensures
        w.kind == parent.kind,
        w.version == parent.version,
        w.entries@ == parent.entries@,
        w.entries.pairs() == parent.entries.pairs(),
        w.parents.deep_view() == seq![parent_cid@],
        w.issue() == parent.issue(),
{
    let w = WorkspaceRoot {
        kind: parent.kind.clone(),
        version: parent.version,
        entries: parent.entries.clone(),
        parents: vec![parent_cid.to_owned()],
    };
    assert(w.parents.deep_view() =~= seq![parent_cid@]);
    w
}

/// Sets slot `name` to `cid`, leaving everything else as it was.
pub fn put_entry(w: WorkspaceRoot, name: String, cid: String) -> (r: WorkspaceRoot)
    ensures
        r.kind == w.kind,
        r.version == w.version,
        r.parents == w.parents,
        r.entries@ == w.entries@.insert(name@, cid@),
        w.issue() is None && name@.len() > 0 && cid@.len() > 0 ==> r.issue() is None,
{
    proof {
        if w.issue() is None && name@.len() > 0 && cid@.len() > 0 {
            law_put_entry_keeps_validity(w.kind@, w.version, w.entries@, name@, cid@);
        }
    }
    let mut w = w;
    w.entries.insert(name, cid);
    w
}

/// Merges `incoming` into `base`: the result has the base's kind and version,
/// the slots of both sides (a conflict settled by `strategy`), and the parents
/// `[base_cid, other_cid]`. Under `Strict` the first conflicting slot, in
/// ascending order of name, is reported instead.
pub fn merge_workspaces(
    base: &WorkspaceRoot,
    base_cid: &str,
    incoming: &WorkspaceRoot,
    other_cid: &str,
    strategy: MergeStrategy,
) -> (r: Result<WorkspaceRoot, WorkspaceError>)
    ensures
        r is Ok <==> !(strategy == MergeStrategy::Strict && exists|k: Seq<char>|
            #[trigger] in_conflict(base.entries@, incoming.entries@, k)),
        r matches Ok(w) ==> {
            &&& w.kind == base.kind
            &&& w.version == base.version
            &&& w.entries@ == merged_entries(base.entries@, incoming.entries@, strategy)
            &&& w.parents.deep_view() == seq![base_cid@, other_cid@]
            &&& base.issue() is None && incoming.issue() is None ==> w.issue() is None
        },
        r matches Err(WorkspaceError::MergeConflict(k)) ==> exists|i: int|
            0 <= i < incoming.entries.pairs().len() && #[trigger] incoming.entries.pairs()[i].0 == k@
                && in_conflict(base.entries@, incoming.entries@, k@) && forall|j: int|
                0 <= j < i ==> !in_conflict(
                    base.entries@,
                    incoming.entries@,
                    #[trigger] incoming.entries.pairs()[j].0,
                ),
{
    let mut entries = base.entries.clone();
    let n = incoming.entries.len();
    let ghost s = incoming.entries.pairs();
    let ghost bm = base.entries@;
    let ghost im = incoming.entries@;
    proof {
        lemma_map_of_ascending(s);
        assert(map_of_pairs(s.take(0)) =~= Map::<Seq<char>, Seq<char>>::empty());
        assert(entries@ =~= merged_entries(bm, map_of_pairs(s.take(0)), strategy));
    }
    let mut i: usize = 0;
    while i < n
        invariant
            n == s.len(),
            s == incoming.entries.pairs(),
            im == incoming.entries@,
            bm == base.entries@,
            ascending(s),
            im == map_of_pairs(s),
            i <= n,
            entries@ == merged_entries(bm, map_of_pairs(s.take(i as int)), strategy),
            strategy == MergeStrategy::Strict ==> forall|j: int|
                0 <= j < i ==> !in_conflict(bm, im, #[trigger] s[j].0),
        decreases n - i,
    {
        let (k, v_in) = incoming.entries.entry(i);
        let ghost prefix = s.take(i as int);
        let ghost next = s.take(i + 1);
        proof {
            assert forall|j: int| 0 <= j < prefix.len() implies crate::text::text_lt(
                #[trigger] prefix[j].0,
                k@,
            ) by {
                assert(prefix[j] == s[j]);
                assert(crate::text::text_lt(s[j].0, s[i as int].0));
            }
            assert(ascending(prefix)) by {
                assert forall|a: int, b: int| 0 <= a < b < prefix.len() implies crate::text::text_lt(
                    #[trigger] prefix[a].0,
                    #[trigger] prefix[b].0,
                ) by {
                    assert(prefix[a] == s[a] && prefix[b] == s[b]);
                }
            }
            lemma_map_of_insert(prefix, i as int, k@, v_in@);
            assert(prefix.insert(i as int, (k@, v_in@)) =~= next);
            assert(im.contains_key(k@) && im[k@] == v_in@);
        }
        let same = match entries.get(k.as_str()) {
            None => None,
            Some(v_base) => Some(*v_base == *v_in),
        };
        match same {
            None => {
                entries.insert(k.clone(), v_in.clone());
                proof {
                    assert(!bm.contains_key(k@));
                    assert(entries@ =~= merged_entries(bm, map_of_pairs(next), strategy));
                }
            },
            Some(true) => {
                proof {
                    assert(bm.contains_key(k@) && bm[k@] == v_in@);
                    assert(entries@ =~= merged_entries(bm, map_of_pairs(next), strategy));
                }
            },
            Some(false) => {
                proof {
                    assert(bm.contains_key(k@) && bm[k@] != v_in@);
                    assert(in_conflict(bm, im, k@));
                }
                match strategy {
                    MergeStrategy::Ours => {
                        proof {
                            assert(entries@ =~= merged_entries(bm, map_of_pairs(next), strategy));
                        }
                    },
                    MergeStrategy::Theirs => {
                        entries.insert(k.clone(), v_in.clone());
                        proof {
                            assert(entries@ =~= merged_entries(bm, map_of_pairs(next), strategy));
                        }
                    },
                    MergeStrategy::Strict => {
                        assert(incoming.entries.pairs()[i as int].0 == k@);
                        assert(forall|j: int|
                            0 <= j < i ==> !in_conflict(
                                bm,
                                im,
                                #[trigger] incoming.entries.pairs()[j].0,
                            ));
                        return Err(WorkspaceError::MergeConflict(k.clone()));
                    },
                }
            },
        }
        i = i + 1;
    }
    proof {
        assert(s.take(n as int) =~= s);
        if strategy == MergeStrategy::Strict {
            assert forall|k: Seq<char>| !#[trigger] in_conflict(bm, im, k) by {
                if in_conflict(bm, im, k) {
                    let j = choose|j: int| 0 <= j < s.len() && #[trigger] s[j].0 == k;
                }
            }
        }
    }
    proof {
        if base.issue() is None && incoming.issue() is None {
            law_merge_keeps_validity(
                base.kind@,
                base.version,
                bm,
                incoming.kind@,
                incoming.version,
                im,
                strategy,
            );
        }
    }
    let w = WorkspaceRoot {
        kind: base.kind.clone(),
        version: base.version,
        entries,
        parents: vec![base_cid.to_owned(), other_cid.to_owned()],
    };
    assert(w.parents.deep_view() =~= seq![base_cid@, other_cid@]);
    Ok(w)
}

/// Without a conflicting slot, the three strategies merge to the same slots.
pub proof fn law_merge_strategies_agree_without_conflict(
    base: Map<Seq<char>, Seq<char>>,
    incoming: Map<Seq<char>, Seq<char>>,
)
    requires
        forall|k: Seq<char>| !#[trigger] in_conflict(base, incoming, k),
    ensures
        merged_entries(base, incoming, MergeStrategy::Ours) == merged_entries(
            base,
            incoming,
            MergeStrategy::Theirs,
        ),
        merged_entries(base, incoming, MergeStrategy::Strict) == merged_entries(
            base,
            incoming,
            MergeStrategy::Theirs,
        ),
{
    let a = incoming.union_prefer_right(base);
    let b = base.union_prefer_right(incoming);
    assert forall|k: Seq<char>| #[trigger] a.contains_key(k) implies a[k] == b[k] by {
        assert(!in_conflict(base, incoming, k));
    }
    assert(a =~= b);
}

/// A merge names exactly the slots named by either side; a slot that only
/// one side names, or that both name with the same CID, keeps that CID.
pub proof fn law_merge_keeps_every_slot(
    base: Map<Seq<char>, Seq<char>>,
    incoming: Map<Seq<char>, Seq<char>>,
    strategy: MergeStrategy,
)
    ensures
        merged_entries(base, incoming, strategy).dom() == base.dom().union(incoming.dom()),
        forall|k: Seq<char>|
            #[trigger] base.contains_key(k) && !incoming.contains_key(k) ==> merged_entries(
                base,
                incoming,
                strategy,
            )[k] == base[k],
        forall|k: Seq<char>|
            #[trigger] incoming.contains_key(k) && !in_conflict(base, incoming, k) ==> merged_entries(
                base,
                incoming,
                strategy,
            )[k] == incoming[k],
{
    assert(merged_entries(base, incoming, strategy).dom() =~= base.dom().union(incoming.dom()));
}

/// Swapping the sides of a merge swaps the strategies: keeping the base CIDs
/// of `a` against `b` gives the slots that taking the incoming CIDs of `a`
/// against `b` gives, and a slot conflicts in one order exactly when it
/// conflicts in the other.
pub proof fn law_merge_sides_swap(a: Map<Seq<char>, Seq<char>>, b: Map<Seq<char>, Seq<char>>)
    ensures
        merged_entries(a, b, MergeStrategy::Ours) == merged_entries(b, a, MergeStrategy::Theirs),
        forall|k: Seq<char>| #[trigger] in_conflict(a, b, k) == in_conflict(b, a, k),
{
    assert(merged_entries(a, b, MergeStrategy::Ours) =~= merged_entries(b, a, MergeStrategy::Theirs));
}

/// Merging a slot table with itself never conflicts and changes nothing.
pub proof fn law_merge_with_itself(m: Map<Seq<char>, Seq<char>>, strategy: MergeStrategy)
    ensures
        forall|k: Seq<char>| !#[trigger] in_conflict(m, m, k),
        merged_entries(m, m, strategy) == m,
{
    assert(merged_entries(m, m, strategy) =~= m);
}

/// Merging with a workspace that has no slots keeps the other side's slots.
pub proof fn law_merge_with_empty(m: Map<Seq<char>, Seq<char>>, strategy: MergeStrategy)
    ensures
        merged_entries(m, Map::empty(), strategy) == m,
        merged_entries(Map::empty(), m, strategy) == m,
        forall|k: Seq<char>| !#[trigger] in_conflict(m, Map::empty(), k),
{
    assert(merged_entries(m, Map::empty(), strategy) =~= m);
    assert(merged_entries(Map::empty(), m, strategy) =~= m);
}

/// Merging two valid manifests gives a valid manifest (with the base's kind and version).
pub proof fn law_merge_keeps_validity(
    kind: Seq<char>,
    version: u32,
    base: Map<Seq<char>, Seq<char>>,
    other_kind: Seq<char>,
    other_version: u32,
    incoming: Map<Seq<char>, Seq<char>>,
    strategy: MergeStrategy,
)
    requires
        workspace_issue(kind, version, base) is None,
        workspace_issue(other_kind, other_version, incoming) is None,
    ensures
        workspace_issue(kind, version, merged_entries(base, incoming, strategy)) is None,
{
    let m = merged_entries(base, incoming, strategy);
    assert forall|k: Seq<char>| #[trigger] m.contains_key(k) implies k.len() > 0 && m[k].len() > 0 by {
        if base.contains_key(k) {
            assert(base[k].len() > 0);
        }
        if incoming.contains_key(k) {
            assert(incoming[k].len() > 0);
        }
        if k.len() == 0 {
            assert(k =~= Seq::<char>::empty());
        }
    }
    assert(!m.contains_key(Seq::<char>::empty()));
}

/// Setting a slot with a non-empty name and CID keeps a valid manifest valid.
pub proof fn law_put_entry_keeps_validity(
    kind: Seq<char>,
    version: u32,
    entries: Map<Seq<char>, Seq<char>>,
    name: Seq<char>,
    cid: Seq<char>,
)
    requires
        workspace_issue(kind, version, entries) is None,
        name.len() > 0,
        cid.len() > 0,
    ensures
        workspace_issue(kind, version, entries.insert(name, cid)) is None,
{
    let m = entries.insert(name, cid);
    assert forall|k: Seq<char>| #[trigger] m.contains_key(k) implies k.len() > 0 && m[k].len() > 0 by {
        if k != name {
            assert(entries.contains_key(k));
            assert(entries[k].len() > 0);
        }
        if k.len() == 0 {
            assert(k =~= Seq::<char>::empty());
        }
    }
    assert(!m.contains_key(Seq::<char>::empty()));
}

} // verus!
