use minikv::kv_store::{apply_operation, parse_kv};
use minikv::KvStore;

/// Loads the store that a snapshot and a log, given by their lines, rebuild.
fn reload(snapshot: &[String], log: &[String]) -> KvStore {
    KvStore::load(&snapshot.to_vec(), &log.to_vec()).expect("Error al cargar")
}

#[test]
fn test01_new_store_empty() {
    let store = KvStore::new();
    assert_eq!(store.len(), 0);
    assert_eq!(store.get("inexistente"), None);
}

#[test]
fn test02_set_get_value() {
    let mut store = KvStore::new();
    let log = vec![store.set("nombre", "jose")];
    let loaded = reload(&[], &log);
    assert_eq!(loaded.get("nombre"), Some("jose"));
    assert_eq!(loaded.len(), 1);
}

#[test]
fn test03_set_overwrite_value() {
    let mut store = KvStore::new();
    let mut log = Vec::new();
    log.push(store.set("nombre", "maria"));
    log.push(store.set("nombre", "juana"));
    let loaded = reload(&[], &log);
    assert_eq!(loaded.get("nombre"), Some("juana"));
    assert_eq!(loaded.len(), 1);
}

#[test]
fn test04_set_empty_remove_key() {
    let mut store = KvStore::new();
    let mut log = Vec::new();
    log.push(store.set("clave", "valor"));
    log.push(store.set("clave", ""));
    let loaded = reload(&[], &log);
    assert_eq!(loaded.get("clave"), None);
    assert_eq!(loaded.len(), 0);
}

#[test]
fn test05_length_count_keys() {
    let mut store = KvStore::new();
    let mut log = Vec::new();
    log.push(store.set("a", "1"));
    log.push(store.set("b", "2"));
    log.push(store.set("a", ""));
    let loaded = reload(&[], &log);
    assert_eq!(loaded.get("a"), None);
    assert_eq!(loaded.get("b"), Some("2"));
    assert_eq!(loaded.len(), 1);
}

#[test]
fn test06_load_store_after_set_unset() {
    let mut store = KvStore::new();
    let mut log = Vec::new();
    log.push(store.set("frase", "hola mundo"));
    log.push(store.set("tmp", "123"));
    log.push(store.set("tmp", ""));
    let loaded = reload(&[], &log);
    assert_eq!(loaded.get("frase"), Some("hola mundo"));
    assert_eq!(loaded.get("tmp"), None);
    assert_eq!(loaded.len(), 1);
}

#[test]
fn test07_snapshot_persist_and_truncate_log() {
    let mut store = KvStore::new();
    let mut log = Vec::new();
    log.push(store.set("a", "uno"));
    log.push(store.set("b", "dos palabras"));
    let loaded = reload(&[], &log);
    let snapshot = loaded.snapshot();
    // after a snapshot the log is emptied
    let loaded = reload(&snapshot, &[]);
    assert_eq!(loaded.get("a"), Some("uno"));
    assert_eq!(loaded.get("b"), Some("dos palabras"));
    assert_eq!(loaded.len(), 2);
}

#[test]
fn test08_apply_operation_with_quotes() {
    let mut data = KvStore::new();
    apply_operation(&mut data, "set clave \"valor con espacios\"");
    assert_eq!(data.get("clave"), Some("valor con espacios"));
}

#[test]
fn test09_is_empty_new_store() {
    let store = KvStore::new();
    assert!(store.is_empty());
}

#[test]
fn test10_is_empty_after_set() {
    let mut store = KvStore::new();
    let log = vec![store.set("clave", "valor")];
    let loaded = reload(&[], &log);
    assert!(!loaded.is_empty());
}

#[test]
fn test11_set_get_value_with_escaped_quotes() {
    let mut store = KvStore::new();
    let value_with_quotes = "dijo \"hola\" y se fue";
    let log = vec![store.set("frase", value_with_quotes)];
    let loaded = reload(&[], &log);
    assert_eq!(loaded.get("frase"), Some(value_with_quotes));
}

#[test]
fn test12_set_get_key_with_spaces() {
    let mut store = KvStore::new();
    let log = vec![store.set("mi clave", "mi valor")];
    let loaded = reload(&[], &log);
    assert_eq!(loaded.get("mi clave"), Some("mi valor"));
}

#[test]
fn test13_apply_operation_with_escaped_quotes() {
    let mut data = KvStore::new();
    apply_operation(&mut data, "set \"clave\" \"valor con \\\"comillas\\\"\"");
    assert_eq!(data.get("clave"), Some("valor con \"comillas\""));
}

#[test]
fn test14_apply_operation_unset() {
    let mut data = KvStore::new();
    let _ = data.set("clave", "valor");
    apply_operation(&mut data, "set \"clave\"");
    assert_eq!(data.get("clave"), None);
}

#[test]
fn test15_parse_kv_simple() {
    let (key, value) = parse_kv("\"clave\" \"valor\"");
    assert_eq!(key, "clave");
    assert_eq!(value, "valor");
}

#[test]
fn test16_parse_kv_empty_value() {
    let (key, value) = parse_kv("\"clave\"");
    assert_eq!(key, "clave");
    assert_eq!(value, "");
}

#[test]
fn test17_parse_kv_with_spaces() {
    let (key, value) = parse_kv("\"mi clave\" \"mi valor\"");
    assert_eq!(key, "mi clave");
    assert_eq!(value, "mi valor");
}

// Further cases

#[test]
fn set_returns_the_log_line() {
    let mut store = KvStore::new();
    assert_eq!(store.set("k", "v"), "set \"k\" \"v\"");
    assert_eq!(store.set("k", "a \"b\""), "set \"k\" \"a \\\"b\\\"\"");
    assert_eq!(store.set("k", ""), "set \"k\"");
    assert!(store.is_empty());
}

#[test]
fn set_replaces_and_removes_in_memory() {
    let mut store = KvStore::new();
    let _ = store.set("a", "1");
    let _ = store.set("b", "2");
    let _ = store.set("a", "3");
    assert_eq!(store.get("a"), Some("3"));
    assert_eq!(store.get("b"), Some("2"));
    assert_eq!(store.len(), 2);
    let _ = store.set("missing", "");
    assert_eq!(store.len(), 2);
    let _ = store.set("a", "");
    assert_eq!(store.get("a"), None);
    assert_eq!(store.len(), 1);
}

#[test]
fn apply_operation_ignores_other_lines() {
    let mut data = KvStore::new();
    apply_operation(&mut data, "get \"clave\" \"valor\"");
    apply_operation(&mut data, "set");
    assert!(data.is_empty());
    apply_operation(&mut data, "set \"\" \"vacío\"");
    assert_eq!(data.get(""), Some("vacío"));
}

#[test]
fn snapshot_lines_escape_quotes() {
    let mut store = KvStore::new();
    let _ = store.set("frase", "dijo \"hola\"");
    assert_eq!(store.snapshot(), vec!["\"frase\" \"dijo \\\"hola\\\"\"".to_string()]);
}

#[test]
fn load_replays_log_over_snapshot() {
    let snapshot = vec!["\"a\" \"1\"".to_string(), "".to_string(), "\"b\" \"2\"".to_string()];
    let log = vec![
        "set \"a\" \"10\"".to_string(),
        "   ".to_string(),
        "set \"b\"".to_string(),
        "set \"c\" \"3\"".to_string(),
    ];
    let store = reload(&snapshot, &log);
    assert_eq!(store.get("a"), Some("10"));
    assert_eq!(store.get("b"), None);
    assert_eq!(store.get("c"), Some("3"));
    assert_eq!(store.len(), 2);
}

#[test]
fn load_refuses_invalid_files() {
    let bad_snapshot = vec!["linea sin formato correcto".to_string()];
    let bad_log = vec!["invalid_command clave valor".to_string()];
    assert_eq!(
        KvStore::load(&bad_snapshot, &bad_log).err(),
        Some(minikv::Error::InvalidDataFile)
    );
    assert_eq!(
        KvStore::load(&vec![], &bad_log).err(),
        Some(minikv::Error::InvalidLogFile)
    );
}

#[test]
fn later_snapshot_line_wins() {
    let snapshot = vec!["\"k\" \"1\"".to_string(), "\"k\" \"2\"".to_string()];
    let store = reload(&snapshot, &[]);
    assert_eq!(store.get("k"), Some("2"));
    assert_eq!(store.len(), 1);
}
