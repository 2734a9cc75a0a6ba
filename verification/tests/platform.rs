use libbuildpack::env::VarError;
use libbuildpack::platform::{variable_name, Platform};

#[test]
fn it_reads_env() {
    let files = vec![
        ("FOO".to_string(), b"BAR".to_vec()),
        ("BAR".to_string(), b"BAZ".to_vec()),
    ];

    let platform = Platform::new(Some(&files));

    assert_eq!(platform.env.var("FOO").unwrap(), "BAR");
    assert_eq!(platform.env.var("BAR").unwrap(), "BAZ");
}

#[test]
fn it_doesnt_blow_up_on_no_env_dir() {
    let platform = Platform::new(None);

    assert!(platform.env.is_empty());
}

#[test]
fn platform_keys_are_file_names_without_extension() {
    let files = vec![
        ("FOO.txt".to_string(), b"1".to_vec()),
        ("BAR.tar.gz".to_string(), b"2".to_vec()),
        (".hidden".to_string(), b"3".to_vec()),
        ("BAZ.".to_string(), b"4".to_vec()),
    ];

    let platform = Platform::new(Some(&files));

    assert_eq!(platform.env.var("FOO").unwrap(), "1");
    assert_eq!(platform.env.var("BAR.tar").unwrap(), "2");
    assert_eq!(platform.env.var(".hidden").unwrap(), "3");
    assert_eq!(platform.env.var("BAZ").unwrap(), "4");
    assert_eq!(platform.env.var("FOO.txt"), Err(VarError::NotPresent));
    assert_eq!(platform.env.len(), 4);
}

#[test]
fn platform_later_file_wins() {
    let files = vec![
        ("FOO.a".to_string(), b"1".to_vec()),
        ("FOO.b".to_string(), b"2".to_vec()),
    ];

    let platform = Platform::new(Some(&files));

    assert_eq!(platform.env.var("FOO").unwrap(), "2");
    assert_eq!(platform.env.len(), 1);
}

#[test]
fn platform_passes_over_names_without_a_key() {
    let files = vec![
        ("".to_string(), b"1".to_vec()),
        ("..".to_string(), b"2".to_vec()),
        (".".to_string(), b"3".to_vec()),
    ];

    let platform = Platform::new(Some(&files));

    assert!(platform.env.is_empty());
}

#[test]
fn the_stem_of_a_file_name() {
    assert_eq!(variable_name("FOO"), Some("FOO".to_string()));
    assert_eq!(variable_name("FOO.txt"), Some("FOO".to_string()));
    assert_eq!(variable_name("a.b.c"), Some("a.b".to_string()));
    assert_eq!(variable_name(".profile"), Some(".profile".to_string()));
    assert_eq!(variable_name("..a"), Some(".".to_string()));
    assert_eq!(variable_name("é.x"), Some("é".to_string()));
    assert_eq!(variable_name(""), None);
    assert_eq!(variable_name("."), None);
    assert_eq!(variable_name(".."), None);
}
