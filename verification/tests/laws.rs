use minikv::kv_store::apply_operation;
use minikv::KvStore;

fn same(a: &KvStore, b: &KvStore, keys: &[&str]) {
    assert_eq!(a.len(), b.len());
    for k in keys {
        assert_eq!(a.get(k), b.get(k));
    }
}

#[test]
fn log_line_replays_its_set() {
    let mut live = KvStore::new();
    let mut replayed = KvStore::new();
    let changes = [("x", "1"), ("y", "dos \"2\""), ("x", ""), ("z z", "tres"), ("a\\b", "c\\d")];
    for (k, v) in changes {
        let line = live.set(k, v);
        apply_operation(&mut replayed, &line);
        same(&live, &replayed, &["x", "y", "z z", "a\\b"]);
    }
}

#[test]
fn log_append_rebuilds_each_step() {
    let mut live = KvStore::new();
    let snapshot = Vec::new();
    let mut log = Vec::new();
    for (k, v) in [("a", "1"), ("b", "2"), ("a", "uno"), ("b", "")] {
        log.push(live.set(k, v));
        let loaded = KvStore::load(&snapshot, &log).unwrap();
        same(&live, &loaded, &["a", "b"]);
    }
}

#[test]
fn snapshot_gives_back_its_state() {
    let mut live = KvStore::new();
    let _ = live.set("k1", "v1");
    let _ = live.set("k2", "con \"comillas\"");
    let _ = live.set("k 3", "con espacios");
    let loaded = KvStore::load(&live.snapshot(), &Vec::new()).unwrap();
    same(&live, &loaded, &["k1", "k2", "k 3"]);
}

#[test]
fn read_after_set() {
    let mut store = KvStore::new();
    let _ = store.set("k", "v");
    let _ = store.set("other", "o");
    assert_eq!(store.get("k"), Some("v"));
    let _ = store.set("k", "");
    assert_eq!(store.get("k"), None);
    assert_eq!(store.get("other"), Some("o"));
}

#[test]
fn key_with_quote_does_not_replay() {
    // outside the law's inputs: a key holding a double quote
    let mut live = KvStore::new();
    let mut replayed = KvStore::new();
    let line = live.set("a\"b", "v");
    apply_operation(&mut replayed, &line);
    assert_eq!(live.get("a\"b"), Some("v"));
    assert_ne!(replayed.get("a\"b"), Some("v"));
}

#[test]
fn count_after_sets() {
    let mut store = KvStore::new();
    for (k, v) in [("a", "1"), ("b", "2"), ("c", "3"), ("a", ""), ("b", "22"), ("d", ""), ("c", "")] {
        let _ = store.set(k, v);
    }
    // only "b" still holds a value
    assert_eq!(store.len(), 1);
    assert_eq!(store.get("b"), Some("22"));
}

#[test]
fn load_after_history_of_sets_and_snapshots() {
    let mut live = KvStore::new();
    let mut snapshot: Vec<String> = Vec::new();
    let mut log: Vec<String> = Vec::new();
    let steps: [Option<(&str, &str)>; 8] = [
        Some(("a", "1")),
        Some(("b", "dos")),
        None,
        Some(("a", "")),
        Some(("c", "tres \"3\"")),
        None,
        Some(("b", "2")),
        Some(("d", "4")),
    ];
    for step in steps {
        match step {
            Some((k, v)) => log.push(live.set(k, v)),
            None => {
                snapshot = live.snapshot();
                log.clear();
            }
        }
        let loaded = KvStore::load(&snapshot, &log).unwrap();
        same(&live, &loaded, &["a", "b", "c", "d"]);
    }
}
