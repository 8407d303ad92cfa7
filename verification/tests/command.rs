use minikv::{Command, CommandType, Error};

// Valid arguments
#[test]
fn test01_verify_command_set() {
    let args: Vec<String> = vec![
        "program".into(),
        "set".into(),
        "clave".into(),
        "valor".into(),
    ];
    let cmd = Command::new(&args).unwrap();
    assert_eq!(cmd.get_type(), CommandType::SetValue);
    assert_eq!(cmd.get_key(), Ok("clave".to_string()));
    assert_eq!(cmd.get_value(), Ok("valor".to_string()));
}

#[test]
fn test02_verify_command_get() {
    let args: Vec<String> = vec!["program".into(), "get".into(), "clave".into()];
    let cmd = Command::new(&args).unwrap();
    assert_eq!(cmd.get_type(), CommandType::Get);
    assert_eq!(cmd.get_key(), Ok("clave".to_string()));
}

#[test]
fn test03_verify_command_length() {
    let args: Vec<String> = vec!["program".into(), "length".into()];
    let cmd = Command::new(&args).unwrap();
    assert_eq!(cmd.get_type(), CommandType::Length);
}

#[test]
fn test04_verify_command_snapshot() {
    let args: Vec<String> = vec!["program".into(), "snapshot".into()];
    let cmd = Command::new(&args).unwrap();
    assert_eq!(cmd.get_type(), CommandType::Snapshot);
}

// Invalid arguments
#[test]
fn test05_verify_command_unknown() {
    let args: Vec<String> = vec!["program".into(), "unknown".into()];
    let result = Command::new(&args);
    assert!(result.is_err());
}

#[test]
fn test06_verify_command_set_without_parameters() {
    let args: Vec<String> = vec!["program".into(), "set".into()];
    let result = Command::new(&args);
    assert!(result.is_err());
}

#[test]
fn test07_verify_command_set_one_parameter() {
    let args: Vec<String> = vec!["program".into(), "set".into(), "clave".into()];
    let cmd = Command::new(&args).unwrap();
    assert_eq!(cmd.get_type(), CommandType::SetValue);
    assert_eq!(cmd.get_key(), Ok("clave".to_string()));
}

#[test]
fn test08_verify_command_get_missing_arguments() {
    let args: Vec<String> = vec!["program".into(), "get".into()];
    let result = Command::new(&args);
    assert!(result.is_err());
}

#[test]
fn test09_verify_command_no_arguments() {
    let args: Vec<String> = vec!["program".into()];
    let result = Command::new(&args);
    assert!(result.is_err());
}

#[test]
fn test10_verify_command_set_too_many_arguments() {
    let args: Vec<String> = vec![
        "program".into(),
        "set".into(),
        "clave".into(),
        "valor".into(),
        "extra".into(),
    ];
    let result = Command::new(&args);
    assert!(result.is_err());
}

#[test]
fn test11_verify_command_get_too_many_arguments() {
    let args: Vec<String> = vec![
        "program".into(),
        "get".into(),
        "clave".into(),
        "extra".into(),
    ];
    let result = Command::new(&args);
    assert!(result.is_err());
}

#[test]
fn test12_verify_command_length_with_arguments() {
    let args: Vec<String> = vec!["program".into(), "length".into(), "extra".into()];
    let result = Command::new(&args);
    assert!(result.is_err());
}

#[test]
fn test13_verify_command_snapshot_with_arguments() {
    let args: Vec<String> = vec!["program".into(), "snapshot".into(), "extra".into()];
    let result = Command::new(&args);
    assert!(result.is_err());
}

#[test]
fn test14_get_key_returns_key() {
    let args: Vec<String> = vec![
        "program".into(),
        "set".into(),
        "mi_clave".into(),
        "mi_valor".into(),
    ];
    let cmd = Command::new(&args).expect("Debería crear comando");
    assert_eq!(cmd.get_key(), Ok("mi_clave".to_string()));
}

#[test]
fn test15_get_value_returns_value() {
    let args: Vec<String> = vec![
        "program".into(),
        "set".into(),
        "clave".into(),
        "valor".into(),
    ];
    let cmd = Command::new(&args).expect("Debería crear comando");
    assert_eq!(cmd.get_value(), Ok("valor".to_string()));
}

#[test]
fn test16_get_value_for_set_without_value_returns_empty() {
    let args: Vec<String> = vec!["program".into(), "set".into(), "clave".into()];
    let cmd = Command::new(&args).expect("Debería crear comando");
    assert_eq!(cmd.get_value(), Ok(String::new()));
}

#[test]
fn test17_cmd_type_min_argument_count() {
    assert_eq!(CommandType::SetValue.min_argument_count(), 1);
    assert_eq!(CommandType::Get.min_argument_count(), 1);
    assert_eq!(CommandType::Length.min_argument_count(), 0);
    assert_eq!(CommandType::Snapshot.min_argument_count(), 0);
}

#[test]
fn test18_cmd_type_max_argument_count() {
    assert_eq!(CommandType::SetValue.max_argument_count(), 2);
    assert_eq!(CommandType::Get.max_argument_count(), 1);
    assert_eq!(CommandType::Length.max_argument_count(), 0);
    assert_eq!(CommandType::Snapshot.max_argument_count(), 0);
}

#[test]
fn test19_parse_from_string_valid() {
    let cmd = Command::parse_from_string("set clave valor").unwrap();
    assert_eq!(cmd.get_type(), CommandType::SetValue);
    assert_eq!(cmd.get_key(), Ok("clave".to_string()));
    assert_eq!(cmd.get_value(), Ok("valor".to_string()));
}

#[test]
fn test20_parse_from_string_invalid() {
    let result = Command::parse_from_string("unknown cmd");
    assert!(result.is_err());
}

#[test]
fn test21_parse_mayus_minus() {
    let cmd = Command::parse_from_string("SeT clave valor").unwrap();
    assert_eq!(cmd.get_type(), CommandType::SetValue);
    assert_eq!(cmd.get_key(), Ok("clave".to_string()));
    assert_eq!(cmd.get_value(), Ok("valor".to_string()));
}

// Further cases

#[test]
fn command_type_parse_names() {
    assert_eq!(CommandType::parse("set"), Some(CommandType::SetValue));
    assert_eq!(CommandType::parse("get"), Some(CommandType::Get));
    assert_eq!(CommandType::parse("length"), Some(CommandType::Length));
    assert_eq!(CommandType::parse("snapshot"), Some(CommandType::Snapshot));
    assert_eq!(CommandType::parse("SNAPSHOT"), Some(CommandType::Snapshot));
    assert_eq!(CommandType::parse("LeNgTh"), Some(CommandType::Length));
    assert_eq!(CommandType::parse("unknown"), None);
    assert_eq!(CommandType::parse(""), None);
    assert_eq!(CommandType::parse("sets"), None);
}

#[test]
fn command_errors_name_their_cause() {
    let no_name: Vec<String> = vec!["program".into()];
    assert_eq!(Command::new(&no_name).err(), Some(Error::UnknownCommand));
    let unknown: Vec<String> = vec!["program".into(), "del".into(), "k".into()];
    assert_eq!(Command::new(&unknown).err(), Some(Error::UnknownCommand));
    let missing: Vec<String> = vec!["program".into(), "get".into()];
    assert_eq!(Command::new(&missing).err(), Some(Error::MissingArgument));
    let extra: Vec<String> = vec!["program".into(), "length".into(), "x".into()];
    assert_eq!(Command::new(&extra).err(), Some(Error::ExtraArgument));
}

#[test]
fn command_key_and_value_absent() {
    let cmd = Command::parse_from_string("length").unwrap();
    assert_eq!(cmd.get_key(), Err(Error::NotFound));
    assert_eq!(cmd.get_value(), Err(Error::NotFound));
    let get = Command::parse_from_string("get k").unwrap();
    assert_eq!(get.get_value(), Err(Error::NotFound));
}

#[test]
fn parse_from_string_splits_on_any_white_space() {
    let cmd = Command::parse_from_string("  set\tclave \u{3000} valor \n").unwrap();
    assert_eq!(cmd.get_type(), CommandType::SetValue);
    assert_eq!(cmd.get_key(), Ok("clave".to_string()));
    assert_eq!(cmd.get_value(), Ok("valor".to_string()));
    assert_eq!(Command::parse_from_string("   ").err(), Some(Error::UnknownCommand));
    assert_eq!(Command::parse_from_string("").err(), Some(Error::UnknownCommand));
}
