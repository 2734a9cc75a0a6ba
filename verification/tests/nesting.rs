use libbuildpack::build_plan::{BuildPlan, Dependency};
use libbuildpack::buildpack::Buildpack;
use libbuildpack::error::ErrorKind;
use libbuildpack::layers::config::Config;
use libbuildpack::layers::layer::Layer;
use libbuildpack::nesting::{decode, nesting_weight, NESTING_LIMIT};

fn arrays(depth: usize) -> String {
    format!("a = {}{}", "[".repeat(depth), "]".repeat(depth))
}

fn tables(depth: usize) -> String {
    format!("a = {}1{}", "{ a = ".repeat(depth), " }".repeat(depth))
}

fn header(dots: usize) -> String {
    format!("[a{}]\nversion = \"1\"\n", ".a".repeat(dots))
}

#[test]
fn the_limit_is_sixty_four() {
    assert_eq!(NESTING_LIMIT, 64);
}

#[test]
fn weight_counts_open_brackets_and_braces() {
    assert_eq!(nesting_weight(""), 0);
    assert_eq!(nesting_weight("a = 1\n"), 0);
    assert_eq!(nesting_weight("a = [1, 2]\n"), 1);
    assert_eq!(nesting_weight("a = [[1], [2], [3]]\n"), 2);
    assert_eq!(nesting_weight("a = { b = [1] }\n"), 2);
    assert_eq!(nesting_weight("a = [\n  [1],\n  [2, [3]],\n]\nb = [4]\n"), 3);
    assert_eq!(nesting_weight(&arrays(7)), 7);
    assert_eq!(nesting_weight(&tables(7)), 7);
}

#[test]
fn weight_passes_over_the_brackets_of_table_headers() {
    assert_eq!(nesting_weight("[a]\n"), 0);
    assert_eq!(nesting_weight("[[a]]\n[[a]]\n[[a]]\n"), 0);
    assert_eq!(nesting_weight("  [a] # note\nb = [1]\n[c]\nd = [2]\n"), 1);
    assert_eq!(nesting_weight("a = 1\n[b]\nc = [[1]]\n[[d]]\n"), 2);
}

#[test]
fn weight_counts_the_dots_of_headers_and_keys() {
    assert_eq!(nesting_weight("a.b.c = 1\n"), 2);
    assert_eq!(nesting_weight("[a.b.c]\n"), 2);
    assert_eq!(nesting_weight("[[a.b.c.d]]\n"), 3);
    assert_eq!(nesting_weight("[a . \"b.c\" . d]\n"), 2);
    assert_eq!(nesting_weight("a.b = 1\nc.d = 2\ne.f = 3\n"), 1);
    assert_eq!(nesting_weight("1.5 = \"a key\"\n"), 1);
    assert_eq!(nesting_weight("a.b = [[1]]\n"), 3);
    assert_eq!(nesting_weight("a = { b.c = 1 }\n"), 2);
    assert_eq!(nesting_weight("a = { b.c = 1, d.e = 2, f.g = 3 }\n"), 2);
    assert_eq!(nesting_weight("a = { b.c = { d.e.f = 1 }, g = 2 }\n"), 5);
    assert_eq!(nesting_weight("a = { b.c = [ { d.e = 1 }, { f.g.h = 2 } ], i.j = 3 }\n"), 6);
    assert_eq!(nesting_weight("a.b = [\n { c.d = 1 },\n { e.f = 2 },\n]\n"), 4);
}

#[test]
fn weight_passes_over_the_dots_of_values() {
    assert_eq!(nesting_weight("a = 1.5\nb = 2.5\n"), 0);
    assert_eq!(nesting_weight("a = [\n 1.5,\n 2.5,\n]\n"), 1);
    assert_eq!(nesting_weight("a = [1.5, 2.5, 3.5, 4.5, 5.5]\n"), 1);
    assert_eq!(nesting_weight("a = 1979-05-27T07:32:00.999999Z\n"), 0);
    assert_eq!(nesting_weight("a = { b = 1.5, c = 2.5, d = [3.5, 4.5] }\n"), 2);
    assert_eq!(nesting_weight("a = [ { b = 1.5 }, { c = 2.5 } ]\n"), 2);
}

#[test]
fn weight_passes_over_strings_and_comments() {
    assert_eq!(nesting_weight("a = \"[[[{{{...\"\n"), 0);
    assert_eq!(nesting_weight("a = '[[[{{{...'\n"), 0);
    assert_eq!(nesting_weight("# [[[{{{...\na = 1\n"), 0);
    assert_eq!(nesting_weight("a = 1 # [[[{{{ ' \" \nb = [1]\n"), 1);
    assert_eq!(nesting_weight("a = [\"]\", \"]\", \"]\"]\n"), 1);
    assert_eq!(nesting_weight("version = \"2.6.3\"\n[a]\nversion = \"1.0.0\"\n"), 0);
    assert_eq!(nesting_weight("\"a.b\" = 1\n'c.d' = 2\n"), 0);
    assert_eq!(nesting_weight("a = \"\"\nb = ''\nc = [\"\", '']\n"), 1);
    assert_eq!(nesting_weight("a = \"#\"\nb = [1] # ]\nc = [[2]]\n"), 2);
}

#[test]
fn weight_follows_escapes_in_strings() {
    assert_eq!(nesting_weight("a = \"x\\\"]\"\nb = [[1]]\nc = [2]\n"), 2);
    assert_eq!(nesting_weight("a = \"\\\"[[[\\\"\"\nb = [1]\n"), 1);
    assert_eq!(nesting_weight("a = \"\\\\\"\nb = [1]\n"), 1);
    assert_eq!(nesting_weight("a = \"\\\\\\\"[[\"\nb = [1]\n"), 1);
    assert_eq!(nesting_weight("a = 'x\\'\nb = [[1]]\n"), 2);
    assert_eq!(nesting_weight("a = \"say \\\"1.2.3\\\"\"\nb = \"4.5.6\"\nc = \"7.8.9\"\n"), 0);
}

#[test]
fn weight_follows_strings_in_three_quotes() {
    assert_eq!(nesting_weight("a = \"\"\"x\"\"\"\nb = [1]\nc = [2]\n"), 1);
    assert_eq!(nesting_weight("a = '''x'''\nb = [1]\nc = [2]\nd = 1.5\n"), 1);
    assert_eq!(nesting_weight("a = \"\"\"\n[[[\n\"\"\"\n"), 0);
    assert_eq!(nesting_weight("a = \"\"\"\n[[[\n\"\"\"\nb = [[1]]\n"), 2);
    assert_eq!(nesting_weight("a = '''\n[[[ ' '' \" \\'''\nb = [1]\n"), 1);
    assert_eq!(nesting_weight("a = \"\"\"x\"y\"\"z [[ \\\"\"\" [[ \"\"\"\nb = [1]\n"), 1);
    assert_eq!(nesting_weight("a = \"\"\"x\"\"\"\"\nb = [1]\n"), 1);
    assert_eq!(nesting_weight("a = \"\"\"x\"\"\"\"\"\nb = [1]\n"), 1);
    assert_eq!(nesting_weight("a = \"\"\"\"\"\"\nb = [1]\n"), 1);
    assert_eq!(nesting_weight("a = [\"\"\"]\"\"\", [''']''', [1]]]\n"), 3);
}

#[test]
fn a_text_that_the_weighing_follows_is_read() {
    let texts = [
        "a = \"x\\\"]\"\nb = [[1]]\nc = [2]\n",
        "a = \"\\\\\"\nb = [1]\n",
        "a = 'x\\'\nb = [[1]]\n",
        "a = \"\"\"x\"y\"\"z [[ \\\"\"\" [[ \"\"\"\nb = [1]\n",
        "a = \"\"\"x\"\"\"\"\nb = [1]\n",
        "a = \"\"\"x\"\"\"\"\"\nb = [1]\n",
        "a = \"\"\"\"\"\"\nb = [1]\n",
        "a = '''\n[[[ ' '' \" \\'''\nb = [1]\n",
        "a = [\"\"\"]\"\"\", [''']''', [1]]]\n",
        "a = { b.c = [ { d.e = 1 }, { f.g.h = 2 } ], i.j = 3 }\n",
        "[a . \"b.c\" . d]\nx = 1979-05-27T07:32:00.999999Z\n",
        "a = \"\"\nb = ''\nc = [\"\", '']\n",
    ];
    for text in texts {
        assert!(nesting_weight(text) <= 6);
        assert!(decode(text).is_ok());
    }
}

#[test]
fn a_weight_is_counted_to_one_above_the_limit() {
    assert_eq!(nesting_weight(&arrays(64)), 64);
    assert_eq!(nesting_weight(&arrays(65)), 65);
    assert_eq!(nesting_weight(&arrays(66)), 65);
    assert_eq!(nesting_weight(&arrays(100_000)), 65);
}

#[test]
fn a_text_at_the_limit_is_read() {
    assert!(decode(&arrays(64)).is_ok());
    assert!(decode(&tables(64)).is_ok());
    assert_eq!(nesting_weight(&header(64)), 64);
    assert!(decode(&header(64)).is_ok());
    assert!(decode(&format!("a{} = 1", ".a".repeat(64))).is_ok());
}

#[test]
fn a_text_above_the_limit_is_refused() {
    assert!(matches!(
        decode(&arrays(65)).unwrap_err().kind(),
        ErrorKind::TooDeep
    ));
    assert!(matches!(
        decode(&tables(65)).unwrap_err().kind(),
        ErrorKind::TooDeep
    ));
    assert!(matches!(
        decode(&header(65)).unwrap_err().kind(),
        ErrorKind::TooDeep
    ));
    assert!(matches!(
        decode(&format!("a{} = 1", ".a".repeat(65))).unwrap_err().kind(),
        ErrorKind::TooDeep
    ));
}

#[test]
fn a_text_of_any_depth_is_refused_and_not_read() {
    for depth in [1_000, 100_000, 1_000_000] {
        assert!(matches!(
            decode(&format!("a = {}", "[".repeat(depth))).unwrap_err().kind(),
            ErrorKind::TooDeep
        ));
        assert!(matches!(
            decode(&format!("a = {}", "{a=".repeat(depth))).unwrap_err().kind(),
            ErrorKind::TooDeep
        ));
        assert!(matches!(
            decode(&format!("[a{}]", ".a".repeat(depth))).unwrap_err().kind(),
            ErrorKind::TooDeep
        ));
        assert!(matches!(
            decode(&format!("a{} = 1", ".a".repeat(depth))).unwrap_err().kind(),
            ErrorKind::TooDeep
        ));
        assert!(matches!(
            decode(&format!("a = {{ a{} = 1 }}", ".a".repeat(depth))).unwrap_err().kind(),
            ErrorKind::TooDeep
        ));
    }
}

#[test]
fn the_heaviest_texts_that_are_read_do_not_exhaust_the_stack() {
    let text = format!(
        "[h{}]\nk{} = {}{{ x{} = 1 }}{}\n",
        ".h".repeat(64),
        ".k".repeat(20),
        "[".repeat(20),
        ".x".repeat(23),
        "]".repeat(20),
    );
    assert_eq!(nesting_weight(&text), 64);
    assert!(decode(&text).is_ok());

    let text = format!(
        "[[h{}]]\nk = {}\n",
        ".h".repeat(64),
        "[{ k = ".repeat(32) + "1" + &" }]".repeat(32),
    );
    assert_eq!(nesting_weight(&text), 64);
    assert!(decode(&text).is_ok());

    let text = format!(
        "[h{}]\nk = {}\n",
        ".h".repeat(64),
        "{ k.k = ".repeat(32) + "1" + &" }".repeat(32),
    );
    assert_eq!(nesting_weight(&text), 64);
    assert!(decode(&text).is_ok());
}

#[test]
fn brackets_that_strings_do_not_hide_are_weighed() {
    let tricks = ["\"]\"", "\"\\\"\"", "'\\'", "\"\"\"]\"\"]\"\"\"", "''']'''", "\"\"", "\"#\""];
    for trick in tricks {
        let text = format!("a = {}1{}", format!("[{}, ", trick).repeat(100), "]".repeat(100));

        assert_eq!(nesting_weight(&text), 65);
        assert!(matches!(
            decode(&text).unwrap_err().kind(),
            ErrorKind::TooDeep
        ));

        let text = format!("a = {}1{}", format!("[{}, ", trick).repeat(30), "]".repeat(30));
        assert_eq!(nesting_weight(&text), 30);
        assert!(decode(&text).is_ok());
    }
}

#[test]
fn a_long_plan_is_read() {
    let mut text = String::new();
    for i in 0..500 {
        text.push_str(&format!(
            "[dep{}]\nversion = \"{}.0.1\"\n\n[dep{}.metadata]\nstacks = [\"a.b\", \"c.d\"]\npath = 'x/[y]/{{z}}.tgz' # [note]\nsize = 1.5\n\n",
            i, i, i
        ));
    }

    assert_eq!(nesting_weight(&text), 1);
    let plan = BuildPlan::parse(&text).unwrap();
    assert_eq!(plan.len(), 500);
    assert_eq!(plan.get("dep499").unwrap().version, "499.0.1");
}

#[test]
fn a_plan_with_an_escaped_quote_and_many_dependencies_is_parsed() {
    let mut text = String::from("[first]\nversion = \"say \\\"1.2.3\\\" \\\\ \\t\"\n");
    for i in 0..100 {
        text.push_str(&format!("\n[dep{}]\nversion = \"{}.2.3\"\n", i, i));
    }

    assert_eq!(nesting_weight(&text), 0);
    let plan = BuildPlan::parse(&text).unwrap();
    assert_eq!(plan.len(), 101);
    assert_eq!(plan.get("first").unwrap().version, "say \"1.2.3\" \\ \t");
    assert_eq!(plan.get("dep99").unwrap().version, "99.2.3");
}

#[test]
fn a_plan_with_strings_of_every_kind_is_written_and_read_back() {
    let versions = [
        "1.2.3",
        "a \"quoted\" 1.2.3",
        "back\\slash",
        "line\nbreak [[[",
        "tab\tand 'single' {{{",
        "'''",
        "\"\"\"",
        "# no comment ]]]",
    ];
    let mut plan = BuildPlan::new();
    for (i, version) in versions.iter().enumerate() {
        let mut dependency = Dependency::new(version);
        dependency
            .metadata_as_mut()
            .insert("note", toml::Value::from(*version));
        plan.insert(&format!("dep{}", i), dependency);
    }
    for i in 0..100 {
        plan.insert(&format!("more{}", i), Dependency::new("4.5.6"));
    }

    let text = plan.serialize().unwrap();
    assert!(nesting_weight(&text) <= 1);
    let read = BuildPlan::parse(&text).unwrap();

    assert_eq!(read.len(), 108);
    for (i, version) in versions.iter().enumerate() {
        let dependency = read.get(&format!("dep{}", i)).unwrap();
        assert_eq!(dependency.version, *version);
        assert_eq!(
            dependency.metadata().unwrap().get("note"),
            Some(&toml::Value::from(*version))
        );
    }
}

#[test]
fn metadata_with_many_floats_is_written_and_read_back() {
    let floats: Vec<toml::Value> = (0..100).map(|i| toml::Value::Float(i as f64 + 0.5)).collect();
    let mut layer = Layer::new("/layers", "foo");
    layer.config.build = true;
    layer.config.launch = true;
    layer
        .config
        .metadata
        .insert("floats", toml::Value::Array(floats.clone()));
    layer
        .config
        .metadata
        .insert("quoted", toml::Value::from("a \"quote\" and 1.2.3.4.5"));

    let write = layer.write_metadata().unwrap();
    let text = String::from_utf8(write.contents).unwrap();
    assert_eq!(nesting_weight(&text), 1);

    let mut read = Layer::new("/layers", "foo");
    assert!(read.read_metadata(Some(&text)).is_ok());

    assert!(read.config.build);
    assert!(!read.config.cache);
    assert!(read.config.launch);
    assert_eq!(
        read.config.metadata.get("floats"),
        Some(&toml::Value::Array(floats))
    );
    assert_eq!(
        read.config.metadata.get("quoted"),
        Some(&toml::Value::from("a \"quote\" and 1.2.3.4.5"))
    );
}

#[test]
fn every_reader_refuses_a_text_that_nests_too_deep() {
    let text = arrays(65);

    assert!(matches!(
        BuildPlan::parse(&text).unwrap_err().kind(),
        ErrorKind::TooDeep
    ));
    assert!(matches!(
        Config::parse(&text).unwrap_err().kind(),
        ErrorKind::TooDeep
    ));
    assert!(matches!(
        Buildpack::from_file("f", Some(&text)).unwrap_err().kind(),
        ErrorKind::TooDeep
    ));
    let mut layer = Layer::new("/layers", "foo");
    layer.config.cache = true;
    assert!(matches!(
        layer.read_metadata(Some(&text)).unwrap_err().kind(),
        ErrorKind::TooDeep
    ));
    assert!(layer.config.cache);
}

#[test]
fn a_text_at_the_limit_goes_on_to_be_judged() {
    assert!(matches!(
        BuildPlan::parse(&arrays(64)).unwrap_err().kind(),
        ErrorKind::InvalidShape(_)
    ));
    assert!(matches!(
        BuildPlan::parse("a = [").unwrap_err().kind(),
        ErrorKind::TomlDe(_)
    ));
}
