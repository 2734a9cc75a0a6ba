use libbuildpack::layers::launch::Launch;

#[test]
fn it_get_returns_none() {
    let launch = Launch::new();

    assert_eq!(None, launch.get("foo"));
}

#[test]
fn it_adds_process() {
    let mut launch = Launch::new();
    launch.add_process("web", "bin/rails");
    launch.add_process("worker", "bin/worker");

    assert_eq!(Some("bin/rails"), launch.get("web"));
    assert_eq!(Some("bin/worker"), launch.get("worker"));
}

#[test]
fn it_adds_process_same_type() {
    let mut launch = Launch::new();
    launch.add_process("web", "bin/rails");
    launch.add_process("web", "bundle exec puma -p $PORT");

    assert_eq!(Some("bundle exec puma -p $PORT"), launch.get("web"));
}

#[test]
fn it_can_iterate_through_processes() {
    let mut launch = Launch::new();
    launch.add_process("web", "bin/rails");

    for process in launch.processes_iter() {
        assert_eq!("web", process.process_type());
        assert_eq!("bin/rails", process.command());
    }
}

#[test]
fn every_iterated_process_is_found_by_its_type() {
    let mut launch = Launch::new();
    launch.add_process("web", "bin/rails");
    launch.add_process("worker", "bin/worker");
    launch.add_process("web", "bin/puma");

    let all = launch.processes_iter();
    assert_eq!(all.len(), 2);
    for process in all {
        assert_eq!(launch.get(process.process_type()), Some(process.command()));
    }
}

#[test]
fn it_get_process_command() {
    let mut launch = Launch::new();
    launch.add_process("web", "bin/rails");

    assert_eq!(Some("bin/rails"), launch.get("web"));
}

#[test]
fn it_serializes_to_toml() {
    let mut launch = Launch::new();
    launch.add_process("web", "bin/rails");

    let toml_string = launch.serialize();
    assert!(toml_string.is_ok());
    assert_eq!(
        r#"[[processes]]
type = "web"
command = "bin/rails"
"#,
        toml_string.unwrap()
    );
}
