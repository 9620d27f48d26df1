use pkgsync::config::{
    find_config_tables, get_list_from_table, get_text_from_table, parse_config,
    toml_value_to_cmd_array, ConfigTable, ConfigValue,
};
use pkgsync::error::{ErrorKind, SyncError};
use pkgsync::global_config::GlobalConfig;

fn list(names: &[&str]) -> Vec<String> {
    names.iter().map(|n| n.to_string()).collect()
}

fn text(s: &str) -> ConfigValue {
    ConfigValue::String(s.to_string())
}

fn texts(items: &[&str]) -> ConfigValue {
    ConfigValue::Array(items.iter().map(|s| text(s)).collect())
}

fn table(entries: Vec<(&str, ConfigValue)>) -> ConfigTable {
    ConfigTable { entries: entries.into_iter().map(|(k, v)| (k.to_string(), v)).collect() }
}

#[test]
fn table_get_finds_the_value_of_a_key() {
    let t = table(vec![("a", text("x")), ("b", ConfigValue::Boolean(true))]);
    assert_eq!(t.get("a"), Some(&text("x")));
    assert_eq!(t.get("b"), Some(&ConfigValue::Boolean(true)));
    assert_eq!(t.get("c"), None);
    assert!(t.contains_key("a"));
    assert!(!t.contains_key("A"));
    assert_eq!(ConfigTable::new().get("a"), None);
}

#[test]
fn table_get_takes_the_first_entry_of_a_key() {
    let t = table(vec![("a", text("x")), ("a", text("y"))]);
    assert_eq!(t.get("a"), Some(&text("x")));
}

#[test]
fn parse_config_reads_a_document() {
    let doc = parse_config(
        "dry_mode = false\n[pacman]\ntype = \"pacman\"\npackages = [\"vim\", \"bash\"]\nn = 3\nf = 1.5\nd = 1979-05-27\n",
    )
    .unwrap();
    let expected = table(vec![
        ("dry_mode", ConfigValue::Boolean(false)),
        (
            "pacman",
            ConfigValue::Table(table(vec![
                ("d", ConfigValue::Datetime("1979-05-27".to_string())),
                ("f", ConfigValue::Float),
                ("n", ConfigValue::Integer(3)),
                ("packages", texts(&["vim", "bash"])),
                ("type", text("pacman")),
            ])),
        ),
    ]);
    assert_eq!(doc, expected);
}

#[test]
fn parse_config_of_an_empty_text_is_an_empty_table() {
    assert_eq!(parse_config("").unwrap(), ConfigTable::new());
}

#[test]
fn parse_config_refuses_what_is_no_toml() {
    let err = parse_config("packages = [").unwrap_err();
    assert!(matches!(err, SyncError::Parse(_)));
    assert_eq!(err.kind(), ErrorKind::ConfigSchema);
    assert!(!err.message().is_empty());
}

#[test]
fn a_table_with_a_type_is_a_configuration_table() {
    let t = table(vec![("type", text("pacman")), ("sub", ConfigValue::Table(table(vec![("type", text("x"))])))]);
    let found = find_config_tables(table(vec![
        ("type", text("pacman")),
        ("sub", ConfigValue::Table(table(vec![("type", text("x"))]))),
    ]));
    assert_eq!(found, vec![t]);
}

#[test]
fn configuration_tables_are_found_at_any_depth() {
    let a = table(vec![("type", text("a"))]);
    let b = table(vec![("type", text("b")), ("n", ConfigValue::Integer(1))]);
    let c = table(vec![("type", text("c"))]);
    let doc = table(vec![
        ("x", ConfigValue::Table(table(vec![("type", text("a"))]))),
        ("n", ConfigValue::Integer(7)),
        (
            "y",
            ConfigValue::Table(table(vec![
                ("z", ConfigValue::Table(table(vec![("type", text("b")), ("n", ConfigValue::Integer(1))]))),
                ("list", ConfigValue::Array(vec![ConfigValue::Table(table(vec![("type", text("no"))]))])),
                ("w", ConfigValue::Table(table(vec![("type", text("c"))]))),
            ])),
        ),
    ]);
    assert_eq!(find_config_tables(doc), vec![a, b, c]);
}

#[test]
fn a_document_without_a_type_has_no_configuration_table() {
    assert!(find_config_tables(ConfigTable::new()).is_empty());
    assert!(find_config_tables(table(vec![("a", text("x")), ("t", ConfigValue::Table(ConfigTable::new()))])).is_empty());
}

#[test]
fn a_command_from_a_text_is_its_words() {
    assert_eq!(toml_value_to_cmd_array(&text("sudo  pacman -S")), Ok(list(&["sudo", "pacman", "-S"])));
    assert_eq!(toml_value_to_cmd_array(&text("")), Ok(list(&[])));
}

#[test]
fn a_command_from_a_list_is_its_items() {
    assert_eq!(toml_value_to_cmd_array(&texts(&["doas", "pacman -S"])), Ok(list(&["doas", "pacman -S"])));
    assert_eq!(toml_value_to_cmd_array(&ConfigValue::Array(Vec::new())), Ok(list(&[])));
}

#[test]
fn a_command_from_a_list_with_other_items_is_refused() {
    let value = ConfigValue::Array(vec![text("pacman"), ConfigValue::Integer(1)]);
    let err = toml_value_to_cmd_array(&value).unwrap_err();
    assert_eq!(err, SyncError::NonStringElements);
    assert_eq!(err.message(), "Array contains non-String Elements.");
    assert_eq!(err.kind(), ErrorKind::TemplateRender);
    let dated = ConfigValue::Array(vec![ConfigValue::Datetime("1979-05-27".to_string())]);
    assert_eq!(toml_value_to_cmd_array(&dated), Err(SyncError::NonStringElements));
}

#[test]
fn a_command_from_another_value_is_refused() {
    let err = toml_value_to_cmd_array(&ConfigValue::Boolean(true)).unwrap_err();
    assert_eq!(err, SyncError::NotStringOrArray);
    assert_eq!(err.message(), "Value is not String or Array!");
    assert_eq!(err.kind(), ErrorKind::TemplateRender);
    assert_eq!(toml_value_to_cmd_array(&ConfigValue::Float), Err(SyncError::NotStringOrArray));
    assert_eq!(
        toml_value_to_cmd_array(&ConfigValue::Table(ConfigTable::new())),
        Err(SyncError::NotStringOrArray)
    );
}

#[test]
fn a_text_setting_or_its_default() {
    let t = table(vec![("sudo_cmd", text("doas")), ("when", ConfigValue::Datetime("07:32:00".to_string())), ("n", ConfigValue::Integer(1))]);
    assert_eq!(get_text_from_table(&t, "sudo_cmd", "sudo".to_string()), Ok("doas".to_string()));
    assert_eq!(get_text_from_table(&t, "other", "sudo".to_string()), Ok("sudo".to_string()));
    assert_eq!(get_text_from_table(&t, "when", "sudo".to_string()), Ok("07:32:00".to_string()));
    assert_eq!(get_text_from_table(&t, "n", "sudo".to_string()), Err(SyncError::WrongType("n".to_string())));
}

#[test]
fn a_list_setting_or_its_default() {
    let t = table(vec![
        ("packages", texts(&["vim", "bash"])),
        ("mixed", ConfigValue::Array(vec![text("a"), ConfigValue::Boolean(false)])),
        ("dated", ConfigValue::Array(vec![text("a"), ConfigValue::Datetime("1979-05-27".to_string())])),
        ("one", text("vim")),
    ]);
    assert_eq!(get_list_from_table(&t, "packages", Vec::new()), Ok(list(&["vim", "bash"])));
    assert_eq!(get_list_from_table(&t, "groups", list(&["x"])), Ok(list(&["x"])));
    assert_eq!(get_list_from_table(&t, "dated", Vec::new()), Ok(list(&["a", "1979-05-27"])));
    assert_eq!(get_list_from_table(&t, "mixed", Vec::new()), Err(SyncError::WrongType("mixed".to_string())));
    assert_eq!(get_list_from_table(&t, "one", Vec::new()), Err(SyncError::WrongType("one".to_string())));
}

#[test]
fn the_wrong_type_error_names_the_key() {
    let err = SyncError::WrongType("packages".to_string());
    assert_eq!(err.message(), "Value has the wrong type: packages");
    assert_eq!(err.kind(), ErrorKind::ConfigSchema);
    assert_eq!(err.duplicate(), err);
}

#[test]
fn global_config_default_is_a_dry_run() {
    assert!(GlobalConfig::default().dry_mode);
}

#[test]
fn global_config_reads_dry_mode() {
    let off = table(vec![("dry_mode", ConfigValue::Boolean(false)), ("pacman", ConfigValue::Table(ConfigTable::new()))]);
    assert_eq!(GlobalConfig::new(&off), Ok(GlobalConfig { dry_mode: false }));
    let on = table(vec![("dry_mode", ConfigValue::Boolean(true))]);
    assert_eq!(GlobalConfig::new(&on), Ok(GlobalConfig { dry_mode: true }));
    assert_eq!(GlobalConfig::new(&ConfigTable::new()), Ok(GlobalConfig { dry_mode: true }));
}

#[test]
fn global_config_wants_a_boolean() {
    let t = table(vec![("dry_mode", text("no"))]);
    let err = GlobalConfig::new(&t).unwrap_err();
    assert_eq!(err, SyncError::NotABool);
    assert_eq!(err.message(), "Value is not a Bool!");
    assert_eq!(err.kind(), ErrorKind::ConfigSchema);
}

#[test]
fn global_config_refuses_unknown_keys() {
    let t = table(vec![("dry_mode", ConfigValue::Boolean(false)), ("colour", text("red"))]);
    let err = GlobalConfig::new(&t).unwrap_err();
    assert_eq!(err, SyncError::UnknownGlobalKey("colour".to_string()));
    assert_eq!(err.message(), "Unknown key in global configuration: colour");
    assert_eq!(err.kind(), ErrorKind::ConfigSchema);
}

#[test]
fn global_config_from_a_parsed_document() {
    let doc = parse_config("dry_mode = false\n[pacman]\ntype = \"pacman\"\n").unwrap();
    assert_eq!(GlobalConfig::new(&doc), Ok(GlobalConfig { dry_mode: false }));
}
