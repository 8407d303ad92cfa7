use minikv::KvStore;

#[test]
fn integracion01_flujo_completo_set_snapshot_load() {
    let mut store = KvStore::new();
    let mut log = Vec::new();
    log.push(store.set("usuario", "juan"));
    log.push(store.set("email", "juan@example.com"));
    log.push(store.set("edad", "25"));

    let loaded = KvStore::load(&Vec::new(), &log).unwrap();
    let snapshot = loaded.snapshot();

    let loaded = KvStore::load(&snapshot, &Vec::new()).unwrap();
    assert_eq!(loaded.len(), 3);
    assert_eq!(loaded.get("usuario"), Some("juan"));
    assert_eq!(loaded.get("email"), Some("juan@example.com"));
    assert_eq!(loaded.get("edad"), Some("25"));
}

#[test]
fn integracion02_flujo_con_operaciones_log_complejas() {
    let mut store = KvStore::new();
    let mut log = Vec::new();
    log.push(store.set("a", "1"));
    log.push(store.set("b", "2"));
    log.push(store.set("c", "3"));
    log.push(store.set("d", "4"));
    log.push(store.set("e", "5"));

    let loaded = KvStore::load(&Vec::new(), &log).unwrap();
    let snapshot = loaded.snapshot();

    let loaded = KvStore::load(&snapshot, &Vec::new()).unwrap();
    assert_eq!(loaded.len(), 5);
    assert_eq!(loaded.get("a"), Some("1"));
    assert_eq!(loaded.get("b"), Some("2"));
    assert_eq!(loaded.get("c"), Some("3"));
    assert_eq!(loaded.get("d"), Some("4"));
    assert_eq!(loaded.get("e"), Some("5"));
}

#[test]
fn log_after_snapshot_rebuilds_state() {
    let mut store = KvStore::new();
    let _ = store.set("a", "1");
    let _ = store.set("b", "2");
    let snapshot = store.snapshot();
    let mut log = Vec::new();
    log.push(store.set("b", ""));
    log.push(store.set("c", "tres \"3\""));
    let loaded = KvStore::load(&snapshot, &log).unwrap();
    assert_eq!(loaded.len(), store.len());
    for key in ["a", "b", "c"] {
        assert_eq!(loaded.get(key), store.get(key));
    }
}
