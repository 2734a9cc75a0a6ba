use libbuildpack::env::VarError;
use libbuildpack::error::{BuildpackError, ErrorKind};
use libbuildpack::layers::config::Config;
use libbuildpack::layers::layer::{first_failure, DirWrite, Layer};

fn setup() -> Layer {
    Layer::new("/tmp/libbuildpack.rs/layers", "foo")
}

fn file<'a>(write: &'a DirWrite, name: &str) -> Option<&'a [u8]> {
    write
        .files
        .iter()
        .find(|(n, _)| n == name)
        .map(|(_, contents)| contents.as_slice())
}

fn three_files() -> Vec<(String, Vec<u8>)> {
    vec![
        ("FOO".to_string(), b"foo".to_vec()),
        ("BAR.append".to_string(), b"bar".to_vec()),
        ("BAZ.override".to_string(), b"baz".to_vec()),
    ]
}

#[test]
fn it_creates_a_new_layer() {
    let layer = setup();

    assert_eq!(layer.layer_path(), "/tmp/libbuildpack.rs/layers/foo");
    assert_eq!(layer.root, "/tmp/libbuildpack.rs/layers");
    assert_eq!(layer.name, "foo");
}

#[test]
fn it_can_set_config() {
    let mut layer = setup();

    let write = layer.config(|mut c: Config| {
        c.launch = true;
        c.build = true;
        c.cache = false;
        c
    });
    assert!(write.is_ok());

    assert_eq!(true, layer.config.launch);
    assert_eq!(true, layer.config.build);
    assert_eq!(false, layer.config.cache);
    let write = write.unwrap();
    assert_eq!(write.path, "/tmp/libbuildpack.rs/layers/foo.toml");
    assert_eq!(
        write.contents,
        b"build = true\ncache = false\nlaunch = true\n".to_vec()
    );
}

#[test]
fn it_writes_metdata() {
    let mut layer = setup();

    layer.config.launch = true;
    layer.config.build = false;

    layer
        .config
        .metadata
        .insert("foo", toml::Value::String("bar".to_string()));
    let write = layer.write_metadata();
    assert!(write.is_ok());
    let write = write.unwrap();
    assert_eq!(write.path, "/tmp/libbuildpack.rs/layers/foo.toml");

    let contents = String::from_utf8(write.contents).unwrap();
    let config = Config::parse(&contents).unwrap();
    assert_eq!(config.launch, true);
    assert_eq!(config.build, false);
    assert_eq!(config.cache, false);
    assert_eq!(config.metadata.get("foo").unwrap().as_str(), Some("bar"));
}

#[test]
fn it_reads_metadata() {
    let mut layer = setup();

    let read = layer.read_metadata(Some(
        r#"
launch = true
build = false

[metadata]
foo = "bar"
"#,
    ));
    assert!(read.is_ok());
    assert_eq!(layer.config.launch, true);
    assert_eq!(layer.config.build, false);
    assert_eq!(layer.config.cache, false);
    assert_eq!(
        layer.config.metadata.get("foo").unwrap().as_str(),
        Some("bar")
    );
}

#[test]
fn it_reads_metadata_when_no_file() {
    let mut layer = setup();
    let read = layer.read_metadata(None);
    assert!(read.is_ok());

    assert_eq!(layer.config.build, false);
    assert_eq!(layer.config.cache, false);
    assert_eq!(layer.config.launch, false);
    assert!(layer.config.metadata.is_empty());
}

#[test]
fn reading_no_file_keeps_what_was_set() {
    let mut layer = setup();
    layer.config.cache = true;
    layer.config.metadata.insert("k", toml::Value::Integer(1));

    assert!(layer.read_metadata(None).is_ok());

    assert!(layer.config.cache);
    assert_eq!(layer.config.metadata.get("k"), Some(&toml::Value::Integer(1)));
}

#[test]
fn reading_a_file_replaces_the_metadata_as_a_whole() {
    let mut layer = setup();
    layer.config.cache = true;
    layer.config.metadata.insert("k", toml::Value::Integer(1));

    assert!(layer.read_metadata(Some("build = true\n")).is_ok());

    assert!(layer.config.build);
    assert!(!layer.config.cache);
    assert!(layer.config.metadata.is_empty());
}

#[test]
fn reading_a_bad_file_fails_and_changes_nothing() {
    let mut layer = setup();
    layer.config.cache = true;

    let read = layer.read_metadata(Some("build = 1\n"));

    assert!(matches!(
        read.unwrap_err().kind(),
        ErrorKind::InvalidShape(_)
    ));
    assert!(layer.config.cache);

    let read = layer.read_metadata(Some("build ="));
    assert!(matches!(read.unwrap_err().kind(), ErrorKind::TomlDe(_)));
    assert!(layer.config.cache);
}

#[test]
fn it_can_set_build_env_vars() {
    let mut layer = setup();
    let build_env = &mut layer.envs.build;

    build_env.append_path.set_var("FOO", "foo");
    build_env.append.set_var("BAR", "bar");
    build_env.override_.set_var("BAZ", "baz");
    let writes = layer.write_envs();
    let write = &writes[0];
    assert_eq!(write.path, "/tmp/libbuildpack.rs/layers/foo/env.build");
    assert_eq!(file(write, "FOO"), Some(&b"foo"[..]));
    assert_eq!(file(write, "BAR.append"), Some(&b"bar"[..]));
    assert_eq!(file(write, "BAZ.override"), Some(&b"baz"[..]));
    assert_eq!(write.files.len(), 3);
}

#[test]
fn it_can_set_launch_env_vars() {
    let mut layer = setup();
    let launch_env = &mut layer.envs.launch;

    launch_env.append_path.set_var("FOO", "foo");
    launch_env.append.set_var("BAR", "bar");
    launch_env.override_.set_var("BAZ", "baz");
    let writes = layer.write_envs();
    let write = &writes[2];
    assert_eq!(write.path, "/tmp/libbuildpack.rs/layers/foo/env.launch");
    assert_eq!(file(write, "FOO"), Some(&b"foo"[..]));
    assert_eq!(file(write, "BAR.append"), Some(&b"bar"[..]));
    assert_eq!(file(write, "BAZ.override"), Some(&b"baz"[..]));
    assert_eq!(write.files.len(), 3);
}

#[test]
fn it_can_set_shared_env_vars() {
    let mut layer = setup();
    let shared_env = &mut layer.envs.shared;

    shared_env.append_path.set_var("FOO", "foo");
    shared_env.append.set_var("BAR", "bar");
    shared_env.override_.set_var("BAZ", "baz");
    let writes = layer.write_envs();
    let write = &writes[1];
    assert_eq!(write.path, "/tmp/libbuildpack.rs/layers/foo/env");
    assert_eq!(file(write, "FOO"), Some(&b"foo"[..]));
    assert_eq!(file(write, "BAR.append"), Some(&b"bar"[..]));
    assert_eq!(file(write, "BAZ.override"), Some(&b"baz"[..]));
    assert_eq!(write.files.len(), 3);
}

#[test]
fn env_directories_come_as_build_shared_launch() {
    let layer = setup();
    let writes = layer.write_envs();

    assert_eq!(writes.len(), 3);
    assert_eq!(writes[0].path, "/tmp/libbuildpack.rs/layers/foo/env.build");
    assert_eq!(writes[1].path, "/tmp/libbuildpack.rs/layers/foo/env");
    assert_eq!(writes[2].path, "/tmp/libbuildpack.rs/layers/foo/env.launch");
    assert!(writes.iter().all(|write| write.files.is_empty()));
}

#[test]
fn it_can_read_build_env_vars() {
    let mut layer = setup();
    let files = three_files();

    assert!(layer.read_envs(Ok(Some(files)), Ok(None), Ok(None)).is_ok());

    assert_eq!(
        layer.envs.build.append_path.var("FOO"),
        Ok("foo".to_string())
    );
    assert_eq!(layer.envs.build.append.var("BAR"), Ok("bar".to_string()));
    assert_eq!(layer.envs.build.override_.var("BAZ"), Ok("baz".to_string()));
    assert!(layer.envs.launch.files().is_empty());
    assert!(layer.envs.shared.files().is_empty());
}

#[test]
fn it_can_read_launch_env_vars() {
    let mut layer = setup();
    let files = three_files();

    assert!(layer.read_envs(Ok(None), Ok(Some(files)), Ok(None)).is_ok());

    assert_eq!(
        layer.envs.launch.append_path.var("FOO"),
        Ok("foo".to_string())
    );
    assert_eq!(layer.envs.launch.append.var("BAR"), Ok("bar".to_string()));
    assert_eq!(
        layer.envs.launch.override_.var("BAZ"),
        Ok("baz".to_string())
    );
    assert!(layer.envs.build.files().is_empty());
    assert!(layer.envs.shared.files().is_empty());
}

#[test]
fn it_can_read_shared_env_vars() {
    let mut layer = setup();
    let files = three_files();

    assert!(layer.read_envs(Ok(None), Ok(None), Ok(Some(files))).is_ok());

    assert_eq!(
        layer.envs.shared.append_path.var("FOO"),
        Ok("foo".to_string())
    );
    assert_eq!(layer.envs.shared.append.var("BAR"), Ok("bar".to_string()));
    assert_eq!(
        layer.envs.shared.override_.var("BAZ"),
        Ok("baz".to_string())
    );
    assert!(layer.envs.build.files().is_empty());
    assert!(layer.envs.launch.files().is_empty());
}

#[test]
fn reading_a_directory_drops_what_was_there() {
    let mut layer = setup();
    layer.envs.build.append.set_var("STALE", "x");
    layer.envs.launch.append.set_var("KEPT", "y");
    let files = three_files();

    assert!(layer.read_envs(Ok(Some(files)), Ok(None), Ok(None)).is_ok());

    assert_eq!(
        layer.envs.build.append.var("STALE"),
        Err(VarError::NotPresent)
    );
    assert_eq!(layer.envs.launch.append.var("KEPT"), Ok("y".to_string()));
}

#[test]
fn a_directory_that_cannot_be_read_leaves_its_set_empty() {
    let mut layer = setup();
    layer.envs.build.append.set_var("A", "1");
    layer.envs.launch.append.set_var("B", "2");
    layer.envs.shared.append.set_var("C", "3");
    let broken = || BuildpackError::from(std::io::Error::new(std::io::ErrorKind::Other, "x"));

    let outcome = layer.read_envs(Err(broken()), Ok(None), Ok(Some(three_files())));

    assert!(matches!(outcome.unwrap_err().kind(), ErrorKind::Io(_)));
    assert!(layer.envs.build.files().is_empty());
    assert_eq!(layer.envs.launch.append.var("B"), Ok("2".to_string()));
    assert_eq!(layer.envs.shared.append.var("BAR"), Ok("bar".to_string()));
    assert_eq!(layer.envs.shared.append.var("C"), Err(VarError::NotPresent));
}

#[test]
fn the_first_directory_that_cannot_be_read_is_reported() {
    let mut layer = setup();
    let outcome = layer.read_envs(
        Ok(None),
        Err(BuildpackError::new(ErrorKind::NoArgs)),
        Err(BuildpackError::new(ErrorKind::OsString(vec![1]))),
    );
    assert!(matches!(outcome.unwrap_err().kind(), ErrorKind::NoArgs));

    let outcome = layer.read_envs(
        Err(BuildpackError::new(ErrorKind::OsString(vec![1]))),
        Err(BuildpackError::new(ErrorKind::NoArgs)),
        Ok(None),
    );
    assert!(matches!(outcome.unwrap_err().kind(), ErrorKind::OsString(_)));

    let outcome = layer.read_envs(
        Ok(None),
        Ok(None),
        Err(BuildpackError::new(ErrorKind::NoArgs)),
    );
    assert!(matches!(outcome.unwrap_err().kind(), ErrorKind::NoArgs));
}

#[test]
fn written_envs_read_back_give_the_same_envs() {
    let mut layer = setup();
    layer.envs.build.append.set_var("A", "1");
    layer.envs.build.append_path.set_var("PATH", "/opt/bin");
    layer.envs.shared.override_.set_var("B", "2");
    layer.envs.launch.append_path.set_var("C", "3");
    layer.envs.launch.append.set_var("C", "4");
    let writes = layer.write_envs();

    let mut read = setup();
    let outcome = read.read_envs(
        Ok(Some(writes[0].files.clone())),
        Ok(Some(writes[2].files.clone())),
        Ok(Some(writes[1].files.clone())),
    );
    assert!(outcome.is_ok());

    assert_eq!(read.envs.build.files(), layer.envs.build.files());
    assert_eq!(read.envs.shared.files(), layer.envs.shared.files());
    assert_eq!(read.envs.launch.files(), layer.envs.launch.files());
    assert_eq!(read.envs.build.append.var("A"), Ok("1".to_string()));
    assert_eq!(read.envs.launch.append.var("C"), Ok("4".to_string()));
    assert_eq!(read.envs.launch.append_path.var("C"), Ok("3".to_string()));
}

#[test]
fn it_removes_metadata_that_does_not_exist() {
    let layer = setup();

    assert_eq!(layer.remove_metadata(false), None);
}

#[test]
fn it_removes_metadata_that_does_exist() {
    let layer = setup();

    assert_eq!(
        layer.remove_metadata(true),
        Some("/tmp/libbuildpack.rs/layers/foo.toml".to_string())
    );
}

#[test]
fn it_writes_profile_d() {
    let layer = setup();

    let write = layer.write_profile_d("foo.sh", "exit 0");

    assert_eq!(write.path, "/tmp/libbuildpack.rs/layers/foo/profile.d");
    assert_eq!(write.files.len(), 1);
    assert_eq!(file(&write, "foo.sh"), Some(&b"exit 0"[..]));
}

#[test]
fn paths_of_a_layer() {
    let layer = Layer::new("/layers", "ruby");

    assert_eq!(layer.config_path(), "/layers/ruby.toml");
    assert_eq!(layer.layer_path(), "/layers/ruby");
    assert_eq!(layer.profile_d_path(), "/layers/ruby/profile.d");
}

#[test]
fn the_first_failure_is_reported() {
    let one = || Err(BuildpackError::new(ErrorKind::NoArgs));
    let two = || Err(BuildpackError::new(ErrorKind::OsString(vec![1])));
    let three = || Err(BuildpackError::new(ErrorKind::FileNotFound("p".to_string())));

    assert!(first_failure(Ok(()), Ok(()), Ok(())).is_ok());
    assert!(matches!(
        first_failure(one(), two(), three()).unwrap_err().kind(),
        ErrorKind::NoArgs
    ));
    assert!(matches!(
        first_failure(Ok(()), two(), three()).unwrap_err().kind(),
        ErrorKind::OsString(_)
    ));
    assert!(matches!(
        first_failure(Ok(()), Ok(()), three()).unwrap_err().kind(),
        ErrorKind::FileNotFound(_)
    ));
    assert!(matches!(
        first_failure(one(), Ok(()), three()).unwrap_err().kind(),
        ErrorKind::NoArgs
    ));
}
