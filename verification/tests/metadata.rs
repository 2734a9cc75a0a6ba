use libbuildpack::metadata::Metadata;

#[test]
fn it_inserts_and_fetches_toml_value() {
    let mut metadata = Metadata::new();
    metadata.insert("foo", toml::Value::from("bar"));

    assert_eq!(
        Some(&toml::Value::String("bar".to_string())),
        metadata.get("foo")
    );
}

#[test]
fn new_metadata_is_empty() {
    let metadata = Metadata::new();

    assert!(metadata.is_empty());
    assert_eq!(metadata.get("foo"), None);
}

#[test]
fn metadata_with_an_entry_is_not_empty() {
    let mut metadata = Metadata::new();
    metadata.insert("foo", toml::Value::Integer(1));

    assert!(!metadata.is_empty());
}

#[test]
fn metadata_insert_replaces_the_value() {
    let mut metadata = Metadata::new();
    metadata.insert("foo", toml::Value::Integer(1));
    metadata.insert("bar", toml::Value::Integer(2));
    metadata.insert("foo", toml::Value::Integer(3));

    assert_eq!(metadata.get("foo"), Some(&toml::Value::Integer(3)));
    assert_eq!(metadata.get("bar"), Some(&toml::Value::Integer(2)));
}

#[test]
fn metadata_copies_a_table_in_order() {
    let mut table = toml::map::Map::new();
    table.insert("z".to_string(), toml::Value::Integer(1));
    table.insert("a".to_string(), toml::Value::from("x"));
    let mut inner = toml::map::Map::new();
    inner.insert("k".to_string(), toml::Value::Boolean(false));
    table.insert("m".to_string(), toml::Value::Table(inner));

    let metadata = Metadata::from_table(&table);

    assert_eq!(metadata.to_value(), toml::Value::Table(table.clone()));
    assert_eq!(
        toml::to_string(&metadata.to_value()).unwrap(),
        "z = 1\na = \"x\"\n\n[m]\nk = false\n"
    );
}
