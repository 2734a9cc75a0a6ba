use libbuildpack::buildpack::{Buildpack, Info, Stack};
use libbuildpack::error::ErrorKind;

#[test]
fn stack_serializes_to_toml() {
    let stack = Stack::new("aspen");

    let toml_string = toml::to_string(&stack.to_value());
    assert!(toml_string.is_ok());
    if let Ok(toml_string) = toml_string {
        assert_eq!(
            r#"id = "aspen"
"#,
            toml_string
        );
    }
}

#[test]
fn stack_deserializes_from_toml() {
    let toml_string = r#"id = "aspen""#;
    let value: toml::Value = toml::from_str(toml_string).unwrap();
    let stack = Stack::from_value(&value).unwrap();

    assert_eq!(stack.id, "aspen");
}

#[test]
fn buildpack_serializes_to_toml_bare() {
    let buildpack = Buildpack::new("heroku/ruby", "Heroku Ruby", "1.0.0");

    let toml_string = toml::to_string_pretty(&buildpack.to_value());
    assert!(toml_string.is_ok());
    if let Ok(toml_string) = toml_string {
        assert_eq!(
            r#"[buildpack]
id = 'heroku/ruby'
name = 'Heroku Ruby'
version = '1.0.0'
"#,
            toml_string
        );
    }
}

#[test]
fn buildpack_serializes_to_toml() {
    let mut buildpack = Buildpack::new("heroku/ruby", "Heroku Ruby", "1.0.0");
    let mut heroku18 = Stack::new("heroku-18");
    heroku18
        .build_images
        .push("heroku/heroku-18:build".to_string());
    heroku18.run_images.push("heroku/heroku-18".to_string());
    buildpack.stacks.push(heroku18);
    let mut heroku16 = Stack::new("heroku-16");
    heroku16
        .build_images
        .push("heroku/heroku-16:build".to_string());
    heroku16.run_images.push("heroku/heroku-16".to_string());
    buildpack.stacks.push(heroku16);

    let toml_string = buildpack.serialize();
    assert!(toml_string.is_ok());
    if let Ok(toml_string) = toml_string {
        assert_eq!(
            r#"[buildpack]
id = "heroku/ruby"
name = "Heroku Ruby"
version = "1.0.0"

[[stacks]]
id = "heroku-18"
build-images = ["heroku/heroku-18:build"]
run-images = ["heroku/heroku-18"]

[[stacks]]
id = "heroku-16"
build-images = ["heroku/heroku-16:build"]
run-images = ["heroku/heroku-16"]
"#,
            toml_string
        );
    }
}

#[test]
fn buildpack_deserialize_from_toml() {
    let toml_string = r#"[buildpack]
id = 'heroku/ruby'
name = 'Heroku Ruby'
version = '1.0.0'
"#;
    let buildpack = Buildpack::from_file("buildpack.toml", Some(toml_string)).unwrap();

    assert_eq!("heroku/ruby", buildpack.info.id);
}

#[test]
fn buildpack_from_file_returns_not_found_error() {
    let result = Buildpack::from_file("/tmp/buildpack", None);
    assert!(result.is_err());
    assert!(matches!(
        result.unwrap_err().kind(),
        ErrorKind::FileNotFound(path) if path == "/tmp/buildpack"
    ));
}

#[test]
fn info_holds_what_it_was_given() {
    let info = Info::new("heroku/ruby", "Heroku Ruby", "1.0.0");

    assert_eq!(info.id, "heroku/ruby");
    assert_eq!(info.name, "Heroku Ruby");
    assert_eq!(info.version, "1.0.0");
    assert_eq!(
        toml::to_string(&info.to_value()).unwrap(),
        "id = \"heroku/ruby\"\nname = \"Heroku Ruby\"\nversion = \"1.0.0\"\n"
    );
}

#[test]
fn new_stack_has_no_lists() {
    let stack = Stack::new("aspen");

    assert_eq!(stack.id, "aspen");
    assert!(stack.mixins.is_empty());
    assert!(stack.build_images.is_empty());
    assert!(stack.run_images.is_empty());
}

#[test]
fn buildpack_round_trip() {
    let mut buildpack = Buildpack::new("a/b", "A B", "0.1");
    let mut stack = Stack::new("s");
    stack.mixins.push("m1".to_string());
    stack.mixins.push("m2".to_string());
    stack.run_images.push("r".to_string());
    buildpack.stacks.push(stack);
    buildpack.metadata.insert("k", toml::Value::Integer(1));

    let text = buildpack.serialize().unwrap();
    let read = Buildpack::from_file("buildpack.toml", Some(&text)).unwrap();

    assert_eq!(read.info.id, "a/b");
    assert_eq!(read.info.name, "A B");
    assert_eq!(read.info.version, "0.1");
    assert_eq!(read.stacks.len(), 1);
    assert_eq!(read.stacks[0].id, "s");
    assert_eq!(read.stacks[0].mixins, vec!["m1".to_string(), "m2".to_string()]);
    assert!(read.stacks[0].build_images.is_empty());
    assert_eq!(read.stacks[0].run_images, vec!["r".to_string()]);
    assert_eq!(read.metadata.get("k"), Some(&toml::Value::Integer(1)));
}

#[test]
fn buildpack_without_its_table_is_a_missing_field() {
    let result = Buildpack::from_file("f", Some("[[stacks]]\nid = \"s\"\n"));

    assert!(matches!(
        result.unwrap_err().kind(),
        ErrorKind::MissingField(field) if field == "buildpack"
    ));
}

#[test]
fn buildpack_without_a_name_is_a_missing_field() {
    let result = Buildpack::from_file("f", Some("[buildpack]\nid = \"s\"\nversion = \"1\"\n"));

    assert!(matches!(
        result.unwrap_err().kind(),
        ErrorKind::MissingField(field) if field == "name"
    ));
}

#[test]
fn buildpack_with_a_bad_stack_is_an_invalid_shape() {
    let text = "stacks = [1]\n[buildpack]\nid = \"s\"\nname = \"n\"\nversion = \"1\"\n";
    assert!(matches!(
        Buildpack::from_file("f", Some(text)).unwrap_err().kind(),
        ErrorKind::InvalidShape(kind) if kind == "Not a TOML Table"
    ));

    let text = "stacks = 1\n[buildpack]\nid = \"s\"\nname = \"n\"\nversion = \"1\"\n";
    assert!(matches!(
        Buildpack::from_file("f", Some(text)).unwrap_err().kind(),
        ErrorKind::InvalidShape(kind) if kind == "array"
    ));

    let text =
        "[buildpack]\nid = \"s\"\nname = \"n\"\nversion = \"1\"\n[[stacks]]\nid = \"x\"\nmixins = [\"a\", 2]\n";
    assert!(matches!(
        Buildpack::from_file("f", Some(text)).unwrap_err().kind(),
        ErrorKind::InvalidShape(_)
    ));
}

#[test]
fn buildpack_text_that_is_no_toml_is_a_decode_error() {
    let result = Buildpack::from_file("f", Some("[buildpack"));

    assert!(matches!(result.unwrap_err().kind(), ErrorKind::TomlDe(_)));
}
