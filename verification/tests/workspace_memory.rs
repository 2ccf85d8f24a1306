use serde_json::{Map as JsonMap, Value};
use uor_xiv::entries::EntryMap;
use uor_xiv::ipld::WorkspaceRoot;
use uor_xiv::store::MemoryStore;
use uor_xiv::workspace::{fork_workspace, merge_workspaces, put_entry, MergeStrategy};

fn to_value(w: &WorkspaceRoot) -> Value {
    let mut entries = JsonMap::new();
    for i in 0..w.entries.len() {
        let (k, v) = w.entries.entry(i);
        entries.insert(k.clone(), Value::String(v.clone()));
    }
    let mut obj = JsonMap::new();
    obj.insert("kind".to_string(), Value::String(w.kind.clone()));
    obj.insert("version".to_string(), Value::from(w.version));
    obj.insert("entries".to_string(), Value::Object(entries));
    obj.insert(
        "parents".to_string(),
        Value::Array(w.parents.iter().map(|p| Value::String(p.clone())).collect()),
    );
    Value::Object(obj)
}

fn from_value(v: &Value) -> WorkspaceRoot {
    let obj = v.as_object().unwrap();
    let mut entries = EntryMap::new();
    for (k, c) in obj["entries"].as_object().unwrap() {
        entries.insert(k.clone(), c.as_str().unwrap().to_string());
    }
    WorkspaceRoot {
        kind: obj["kind"].as_str().unwrap().to_string(),
        version: obj["version"].as_u64().unwrap() as u32,
        entries,
        parents: obj["parents"]
            .as_array()
            .unwrap()
            .iter()
            .map(|p| p.as_str().unwrap().to_string())
            .collect(),
    }
}

fn save_workspace(s: &mut MemoryStore, w: &WorkspaceRoot) -> String {
    w.validate().unwrap();
    s.dag_put_json(&to_value(w))
}

fn load_workspace(s: &MemoryStore, cid: &str) -> WorkspaceRoot {
    let w = from_value(&s.dag_get_json(cid).unwrap());
    w.validate().unwrap();
    w
}

#[test]
fn memory_roundtrip_fork_merge() {
    let mut s = MemoryStore::new();
    let w = WorkspaceRoot::empty();
    let r0 = save_workspace(&mut s, &w);

    let w0 = load_workspace(&s, &r0);
    let w1 = put_entry(w0.clone(), "a".into(), "cid-a".into());
    let r1 = save_workspace(&mut s, &w1);

    let forked = fork_workspace(&w1, &r1);
    let r_fork = save_workspace(&mut s, &forked);
    let wf = load_workspace(&s, &r_fork);
    assert_eq!(wf.parents, vec![r1.clone()]);
    assert_eq!(wf.entries.get("a").map(String::as_str), Some("cid-a"));

    let mut other = WorkspaceRoot::empty();
    other.entries.insert("a".into(), "cid-a".into());
    other.entries.insert("b".into(), "cid-b".into());
    let r_other = save_workspace(&mut s, &other);

    let merged = merge_workspaces(&w1, &r1, &other, &r_other, MergeStrategy::Strict).unwrap();
    assert_eq!(merged.entries.get("b").map(String::as_str), Some("cid-b"));

    let conflict_left = put_entry(WorkspaceRoot::empty(), "x".into(), "left".into());
    let r_left = save_workspace(&mut s, &conflict_left);
    let wl = load_workspace(&s, &r_left);

    let conflict_right = put_entry(WorkspaceRoot::empty(), "x".into(), "right".into());
    let r_right = save_workspace(&mut s, &conflict_right);
    let wr = load_workspace(&s, &r_right);

    assert!(merge_workspaces(&wl, &r_left, &wr, &r_right, MergeStrategy::Strict).is_err());
    let m_ours = merge_workspaces(&wl, &r_left, &wr, &r_right, MergeStrategy::Ours).unwrap();
    assert_eq!(m_ours.entries.get("x").map(String::as_str), Some("left"));
    let m_theirs = merge_workspaces(&wl, &r_left, &wr, &r_right, MergeStrategy::Theirs).unwrap();
    assert_eq!(m_theirs.entries.get("x").map(String::as_str), Some("right"));
}

#[test]
fn workspace_roundtrip() {
    let mut w = WorkspaceRoot::empty();
    w.entries.insert("doc".into(), "bafyfoo".into());
    w.parents.push("bafyparent".into());
    let v = to_value(&w);
    let wire: Value = serde_json::from_str(
        r#"{"kind":"uor-xiv/workspace@v0","version":0,"entries":{"doc":"bafyfoo"},"parents":["bafyparent"]}"#,
    )
    .unwrap();
    assert_eq!(v, wire);
    let w2 = from_value(&wire);
    assert_eq!(w, w2);
    w2.validate().unwrap();
}
