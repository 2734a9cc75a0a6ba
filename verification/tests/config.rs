use libbuildpack::error::ErrorKind;
use libbuildpack::layers::config::Config;

#[test]
fn it_serializes_metadata_to_toml() {
    let mut config = Config::new();
    config.metadata.insert("foo", toml::Value::from("bar"));

    let toml_string = config.serialize();
    assert!(toml_string.is_ok());
    if let Ok(string) = toml_string {
        assert_eq!(
            r#"build = false
cache = false
launch = false

[metadata]
foo = "bar"
"#,
            string
        );
    }
}

#[test]
fn it_doesnt_serialize_metadata_to_toml() {
    let mut config = Config::new();
    config.launch = true;

    let toml_string = config.serialize();
    assert!(toml_string.is_ok());
    if let Ok(string) = toml_string {
        assert_eq!(
            r#"build = false
cache = false
launch = true
"#,
            string
        );
    }
}

#[test]
fn new_config_has_nothing_set() {
    let config = Config::new();

    assert!(!config.build);
    assert!(!config.cache);
    assert!(!config.launch);
    assert!(config.metadata.is_empty());
}

#[test]
fn config_round_trip_for_every_choice_of_flags() {
    for bits in 0..8 {
        let mut config = Config::new();
        config.build = bits & 1 != 0;
        config.cache = bits & 2 != 0;
        config.launch = bits & 4 != 0;
        config.metadata.insert("foo", toml::Value::from("bar"));
        config.metadata.insert("n", toml::Value::Integer(7));

        let text = config.serialize().unwrap();
        assert!(text.contains("[metadata]"));
        let read = Config::parse(&text).unwrap();

        assert_eq!(read.build, config.build);
        assert_eq!(read.cache, config.cache);
        assert_eq!(read.launch, config.launch);
        assert_eq!(read.metadata.to_value(), config.metadata.to_value());
    }
}

#[test]
fn config_round_trip_without_metadata() {
    for bits in 0..8 {
        let mut config = Config::new();
        config.build = bits & 1 != 0;
        config.cache = bits & 2 != 0;
        config.launch = bits & 4 != 0;

        let text = config.serialize().unwrap();
        assert!(!text.contains("metadata"));
        let read = Config::parse(&text).unwrap();

        assert_eq!(read.build, config.build);
        assert_eq!(read.cache, config.cache);
        assert_eq!(read.launch, config.launch);
        assert!(read.metadata.is_empty());
    }
}

#[test]
fn config_flags_that_are_absent_are_off() {
    let config = Config::parse("launch = true\n").unwrap();

    assert!(!config.build);
    assert!(!config.cache);
    assert!(config.launch);
    assert!(config.metadata.is_empty());

    let config = Config::parse("").unwrap();
    assert!(!config.build && !config.cache && !config.launch);
}

#[test]
fn config_passes_over_fields_it_does_not_know() {
    let config = Config::parse("other = 1\nbuild = true\n").unwrap();

    assert!(config.build);
}

#[test]
fn config_flag_of_the_wrong_kind_is_an_invalid_shape() {
    let result = Config::parse("build = \"yes\"\n");

    assert!(matches!(
        result.unwrap_err().kind(),
        ErrorKind::InvalidShape(kind) if kind == "bool"
    ));
}

#[test]
fn config_metadata_of_the_wrong_kind_is_an_invalid_shape() {
    let result = Config::parse("metadata = 1\n");

    assert!(matches!(
        result.unwrap_err().kind(),
        ErrorKind::InvalidShape(kind) if kind == "toml::value::Table"
    ));
}

#[test]
fn config_text_that_is_no_toml_is_a_decode_error() {
    let result = Config::parse("build = ");

    assert!(matches!(result.unwrap_err().kind(), ErrorKind::TomlDe(_)));
}

#[test]
fn config_whose_text_is_no_toml_is_not_read_back() {
    let mut config = Config::new();
    let mixed = vec![
        toml::Value::Table(toml::map::Map::new()),
        toml::Value::Integer(1),
    ];
    config.metadata.insert("a", toml::Value::Array(mixed));

    let text = config.serialize().unwrap();

    assert!(matches!(
        Config::parse(&text).unwrap_err().kind(),
        ErrorKind::TomlDe(_)
    ));
}

#[test]
fn config_that_cannot_be_written_is_an_encode_error() {
    let mut config = Config::new();
    let tables = vec![toml::Value::Table(toml::map::Map::new())];
    let mixed = vec![
        toml::Value::Integer(1),
        toml::Value::Table(toml::map::Map::new()),
    ];
    config.metadata.insert("a", toml::Value::Array(tables));
    config.metadata.insert("b", toml::Value::Array(mixed));

    let result = config.serialize();

    assert!(matches!(result.unwrap_err().kind(), ErrorKind::TomlSer(_)));
}
