use minikv::persistence::log::{format_operation, read_all_operations};
use minikv::persistence::store::{load_snapshot, parse_data_line, save_snapshot};
use minikv::Error;

fn lines(ls: &[&str]) -> Vec<String> {
    ls.iter().map(|l| l.to_string()).collect()
}

#[test]
fn log_test02_read_all_operations() {
    let log = lines(&["set clave1 valor1", "set clave2 valor2", "set clave2"]);
    match read_all_operations(&log) {
        Ok(ops) => assert_eq!(ops.len(), 3, "Expected 3 operations, got: {ops:?}"),
        Err(e) => panic!("Error al leer operaciones: {e:?}"),
    }
}

#[test]
fn log_test04_truncate_log() {
    // a truncated log holds no line
    match read_all_operations(&Vec::new()) {
        Ok(ops) => assert_eq!(ops.len(), 0, "Expected empty log after truncate"),
        Err(e) => panic!("Error al leer log después de truncate: {e:?}"),
    }
}

#[test]
fn test05_read_operations_invalid_format() {
    let log = lines(&["invalid_command clave valor"]);
    let result = read_all_operations(&log);
    assert!(result.is_err(), "Debería fallar con formato inválido");
    let error = result.expect_err("Debería ser error");
    assert!(
        error.code().contains("INVALID LOG FILE"),
        "El error debería indicar log inválido"
    );
}

#[test]
fn test06_add_multiple_operations_order() {
    let log = lines(&["set a 1", "set b 2", "set c 3"]);
    match read_all_operations(&log) {
        Ok(ops) => {
            assert_eq!(ops.len(), 3);
            assert_eq!(ops.first(), Some(&"set a 1".to_string()));
            assert_eq!(ops.get(1), Some(&"set b 2".to_string()));
            assert_eq!(ops.get(2), Some(&"set c 3".to_string()));
        }
        Err(e) => panic!("Error al leer operaciones: {e:?}"),
    }
}

#[test]
fn read_all_operations_skips_blank_lines() {
    let log = lines(&["", "set a 1", " \t ", "set b 2"]);
    assert_eq!(read_all_operations(&log), Ok(lines(&["set a 1", "set b 2"])));
    assert_eq!(
        read_all_operations(&lines(&["set a 1", "setx"])),
        Err(Error::InvalidLogFile)
    );
}

#[test]
fn format_operation_lines() {
    assert_eq!(format_operation("clave", "valor"), "set \"clave\" \"valor\"");
    assert_eq!(format_operation("clave", ""), "set \"clave\"");
    assert_eq!(format_operation("c", "\"x\""), "set \"c\" \"\\\"x\\\"\"");
}

#[test]
fn test_load_snapshot_invalid_format() {
    let data = lines(&["linea sin formato correcto"]);
    let result = load_snapshot(&data);
    assert!(result.is_err(), "Debería fallar con formato inválido");
    let error = result.expect_err("Debería ser error");
    assert!(
        error.code().contains("INVALID DATA FILE"),
        "El error debería indicar archivo inválido"
    );
}

#[test]
fn store_test_save_and_load_snapshot_success() {
    let data = vec![
        ("clave1".to_string(), "valor1".to_string()),
        ("clave2".to_string(), "valor2".to_string()),
    ];
    let saved = save_snapshot(&data);
    match load_snapshot(&saved) {
        Ok(loaded) => assert_eq!(loaded, data),
        Err(e) => panic!("Error al cargar snapshot: {e:?}"),
    }
}

#[test]
fn store_test_load_snapshot_nonexistent_file() {
    // a missing snapshot file reads as no line
    match load_snapshot(&Vec::new()) {
        Ok(data) => assert_eq!(data.len(), 0, "El snapshot debería estar vacío"),
        Err(e) => panic!("Error al cargar snapshot inexistente: {e:?}"),
    }
}

#[test]
fn test_save_load_snapshot_with_quotes_in_value() {
    let data = vec![("frase".to_string(), "dijo \"hola\"".to_string())];
    let saved = save_snapshot(&data);
    match load_snapshot(&saved) {
        Ok(loaded) => assert_eq!(
            loaded,
            data,
            "El valor con comillas no coincide"
        ),
        Err(e) => panic!("Error al cargar snapshot: {e:?}"),
    }
}

#[test]
fn parse_data_line_cases() {
    assert_eq!(
        parse_data_line("\"k\" \"v\""),
        Ok(("k".to_string(), "v".to_string()))
    );
    assert_eq!(
        parse_data_line("\"k\" \"\""),
        Ok(("k".to_string(), String::new()))
    );
    assert_eq!(
        parse_data_line("\"k\" \"a\\\"b\""),
        Ok(("k".to_string(), "a\"b".to_string()))
    );
    assert_eq!(parse_data_line("\"\" \"v\""), Err(Error::InvalidDataFile));
    assert_eq!(parse_data_line("\"k\""), Err(Error::InvalidDataFile));
    assert_eq!(parse_data_line("k v"), Err(Error::InvalidDataFile));
}
