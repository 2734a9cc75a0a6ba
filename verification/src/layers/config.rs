//! The metadata of a layer: three flags that say where the layer is used, and
//! an open-ended table.

use vstd::prelude::*;
use vstd::string::*;
use crate::assoc::{find, lemma_find_at, lemma_find_none};
use crate::document::{
    Node, entries, no_entries, rendered, shape, render_document, table_get, table_insert, table_new, value_as_bool, value_as_table, value_from_flag,
    value_from_table,
};
use crate::error::{BuildpackError, ErrorKind, Fault, reports};
use crate::metadata::Metadata;
use crate::nesting::{Refusal, decode, decoded, refuses};

verus! {

/// What the metadata of a layer says.
pub struct ConfigModel {
    pub build: bool,
    pub cache: bool,
    pub launch: bool,
    pub metadata: Seq<(Seq<char>, Node)>,
}

/// The flag under `name` in a table: false where the table has no such
/// field, and a fault where the field is no boolean.
pub open spec fn read_flag(fields: Seq<(Seq<char>, Node)>, name: Seq<char>) -> Result<bool, Fault> {
    match find(fields, name) {
        None => Ok(false),
        Some(Node::Boolean(flag)) => Ok(flag),
        Some(_) => Err(Fault::InvalidShape("bool"@)),
    }
}

/// The table under `metadata` in a table: empty where the table has no such
/// field, and a fault where the field is no table.
pub open spec fn read_table(fields: Seq<(Seq<char>, Node)>) -> Result<
    Seq<(Seq<char>, Node)>,
    Fault,
> {
    match find(fields, "metadata"@) {
        None => Ok(Seq::empty()),
        Some(Node::Table(pairs)) => Ok(pairs),
        Some(_) => Err(Fault::InvalidShape("toml::value::Table"@)),
    }
}

/// The metadata that a document describes. A flag that the document does not
/// give is false, a table that it does not give is empty, and fields that it
/// gives beyond these are passed over. The first of `build`, `cache`,
/// `launch` and `metadata` that is of the wrong kind is the fault.
pub open spec fn read_config(node: Node) -> Result<ConfigModel, Fault> {
    match node {
        Node::Table(fields) => match read_flag(fields, "build"@) {
            Err(fault) => Err(fault),
            Ok(build) => match read_flag(fields, "cache"@) {
                Err(fault) => Err(fault),
                Ok(cache) => match read_flag(fields, "launch"@) {
                    Err(fault) => Err(fault),
                    Ok(launch) => match read_table(fields) {
                        Err(fault) => Err(fault),
                        Ok(metadata) => Ok(ConfigModel { build, cache, launch, metadata }),
                    },
                },
            },
        },
        _ => Err(Fault::InvalidShape("Not a TOML Table"@)),
    }
}

/// The three flags as the entries of a table.
pub open spec fn flag_fields(config: ConfigModel) -> Seq<(Seq<char>, Node)> {
    seq![
        ("build"@, Node::Boolean(config.build)),
        ("cache"@, Node::Boolean(config.cache)),
        ("launch"@, Node::Boolean(config.launch)),
    ]
}

/// The document that describes the metadata of a layer: the three flags, and
/// the table where it is not empty.
pub open spec fn config_node(config: ConfigModel) -> Node {
    if config.metadata.len() == 0 {
        Node::Table(flag_fields(config))
    } else {
        Node::Table(flag_fields(config).push(("metadata"@, Node::Table(config.metadata))))
    }
}

/// The four field names of the document are four different names.
pub proof fn lemma_field_names()
    ensures
        "build"@ != "cache"@,
        "build"@ != "launch"@,
        "build"@ != "metadata"@,
        "cache"@ != "launch"@,
        "cache"@ != "metadata"@,
        "launch"@ != "metadata"@,
{
    reveal_strlit("build");
    reveal_strlit("cache");
    reveal_strlit("launch");
    reveal_strlit("metadata");
    assert("build"@.len() == 5 && "build"@[0] == 'b');
    assert("cache"@.len() == 5 && "cache"@[0] == 'c');
    assert("launch"@.len() == 6);
    assert("metadata"@.len() == 8);
}

/// What each field name finds in the entries that describe a layer's
/// metadata.
pub proof fn lemma_config_fields(config: ConfigModel)
    ensures
        find(config_node(config)->Table_0, "build"@) == Some(Node::Boolean(config.build)),
        find(config_node(config)->Table_0, "cache"@) == Some(Node::Boolean(config.cache)),
        find(config_node(config)->Table_0, "launch"@) == Some(Node::Boolean(config.launch)),
        find(config_node(config)->Table_0, "metadata"@) == if config.metadata.len() == 0 {
            None
        } else {
            Some(Node::Table(config.metadata))
        },
{
    lemma_field_names();
    let fields = config_node(config)->Table_0;
    assert(crate::assoc::distinct(fields));
    lemma_find_at(fields, 0);
    lemma_find_at(fields, 1);
    lemma_find_at(fields, 2);
    if config.metadata.len() == 0 {
        lemma_find_none(fields, "metadata"@);
    } else {
        lemma_find_at(fields, 3);
    }
}

/// Reading the document that describes the metadata of a layer gives that
/// metadata again: the same three flags and the same table, whatever the flags
/// are and whether the table is empty or not.
pub proof fn lemma_config_read_back(config: ConfigModel)
    ensures
        read_config(config_node(config)) == Ok::<ConfigModel, Fault>(config),
        config.metadata.len() == 0 ==> !crate::assoc::holds(
            config_node(config)->Table_0,
            "metadata"@,
        ),
{
    lemma_config_fields(config);
    let fields = config_node(config)->Table_0;
    if config.metadata.len() == 0 {
        assert(config.metadata =~= Seq::empty());
    }
}

/// Reading the text that was written for the metadata of a layer gives that
/// metadata again, the same three flags and the same table, for every
/// metadata whose text the reader of TOML takes for the document that it was
/// written from.
pub proof fn lemma_config_text_read_back(config: ConfigModel, text: Seq<char>)
    requires
        rendered(config_node(config)) == Some(text),
        decoded(text) == Ok::<Node, Refusal>(config_node(config)),
    ensures
        read_config(decoded(text)->Ok_0) == Ok::<ConfigModel, Fault>(config),
{
    lemma_config_read_back(config);
}

/// The metadata of a layer.
#[derive(Debug)]
pub struct Config {
    pub build: bool,
    pub cache: bool,
    pub launch: bool,
    pub metadata: Metadata,
}

impl View for Config {
    type V = ConfigModel;

    open spec fn view(&self) -> ConfigModel {
        ConfigModel {
            build: self.build,
            cache: self.cache,
            launch: self.launch,
            metadata: self.metadata@,
        }
    }
}

/// The flag under `name` in `table`.
fn flag_in(table: &toml::map::Map<String, toml::Value>, name: &str) -> (outcome: Result<
    bool,
    BuildpackError,
>)
    ensures
        match outcome {
            Ok(flag) => read_flag(entries(*table), name@) == Ok::<bool, Fault>(flag),
            Err(error) => read_flag(entries(*table), name@) is Err && reports(
                error,
                read_flag(entries(*table), name@)->Err_0,
            ),
        },
{
    match table_get(table, name) {
        None => Ok(false),
        Some(found) => match value_as_bool(found) {
            Some(flag) => Ok(flag),
            None => Err(BuildpackError::invalid_shape("bool")),
        },
    }
}

impl Config {
    /// The metadata with the three flags off and an empty table.
    pub fn new() -> (config: Self)
        ensures
            config@ == (ConfigModel {
                build: false,
                cache: false,
                launch: false,
                metadata: no_entries(),
            }),
    {
        Config { launch: false, build: false, cache: false, metadata: Metadata::new() }
    }

    /// The document that describes this metadata.
    pub fn to_value(&self) -> (value: toml::Value)
        ensures
            shape(value) == config_node(self@),
    {
        let mut table = table_new();
        proof {
            lemma_field_names();
            lemma_find_none(no_entries(), "build"@);
        }
        table_insert(&mut table, "build".to_owned(), value_from_flag(self.build));
        proof {
            let now = entries(table);
            assert(now =~= seq![("build"@, Node::Boolean(self.build))]);
            assert forall|i: int| 0 <= i < now.len() implies (#[trigger] now[i]).0 != "cache"@ by {}
            lemma_find_none(now, "cache"@);
        }
        table_insert(&mut table, "cache".to_owned(), value_from_flag(self.cache));
        proof {
            let now = entries(table);
            assert(now =~= seq![
                ("build"@, Node::Boolean(self.build)),
                ("cache"@, Node::Boolean(self.cache)),
            ]);
            assert forall|i: int| 0 <= i < now.len() implies (#[trigger] now[i]).0 != "launch"@ by {}
            lemma_find_none(now, "launch"@);
        }
        table_insert(&mut table, "launch".to_owned(), value_from_flag(self.launch));
        proof {
            let now = entries(table);
            assert(now =~= flag_fields(self@));
            assert forall|i: int| 0 <= i < now.len() implies (#[trigger] now[i]).0
                != "metadata"@ by {}
            lemma_find_none(now, "metadata"@);
        }
        if !self.metadata.is_empty() {
            table_insert(&mut table, "metadata".to_owned(), self.metadata.to_value());
        }
        value_from_table(table)
    }

    /// The metadata that the document `value` describes.
    pub fn from_value(value: &toml::Value) -> (outcome: Result<Config, BuildpackError>)
        ensures
            match outcome {
                Ok(config) => read_config(shape(*value)) == Ok::<ConfigModel, Fault>(config@),
                Err(error) => read_config(shape(*value)) is Err && reports(
                    error,
                    read_config(shape(*value))->Err_0,
                ),
            },
    {
        let table = match value_as_table(value) {
            Some(table) => table,
            None => {
                return Err(BuildpackError::invalid_shape("Not a TOML Table"));
            },
        };
        let build = match flag_in(table, "build") {
            Ok(flag) => flag,
            Err(error) => {
                return Err(error);
            },
        };
        let cache = match flag_in(table, "cache") {
            Ok(flag) => flag,
            Err(error) => {
                return Err(error);
            },
        };
        let launch = match flag_in(table, "launch") {
            Ok(flag) => flag,
            Err(error) => {
                return Err(error);
            },
        };
        let metadata = match table_get(table, "metadata") {
            None => Metadata::new(),
            Some(found) => match value_as_table(found) {
                Some(pairs) => Metadata::from_table(pairs),
                None => {
                    return Err(BuildpackError::invalid_shape("toml::value::Table"));
                },
            },
        };
        Ok(Config { build, cache, launch, metadata })
    }

    /// The metadata that the TOML text `text` describes. Fails when the text
    /// nests too deep, when it is not TOML, and when a field is of the wrong
    /// kind.
    pub fn parse(text: &str) -> (outcome: Result<Config, BuildpackError>)
        ensures
            match outcome {
                Ok(config) => decoded(text@) is Ok && read_config(decoded(text@)->Ok_0) == Ok::<
                    ConfigModel,
                    Fault,
                >(config@),
                Err(error) => match decoded(text@) {
                    Err(refusal) => refuses(error, refusal),
                    Ok(node) => read_config(node) is Err && reports(
                        error,
                        read_config(node)->Err_0,
                    ),
                },
            },
    {
        match decode(text) {
            Ok(value) => Config::from_value(&value),
            Err(error) => Err(error),
        }
    }

    /// This metadata as TOML text. Fails where the document cannot be
    /// written.
    pub fn serialize(&self) -> (outcome: Result<String, BuildpackError>)
        ensures
            match outcome {
                Ok(text) => rendered(config_node(self@)) == Some(text@),
                Err(error) => rendered(config_node(self@)).is_none() && error.is_encode_failure(),
            },
    {
        let value = self.to_value();
        match render_document(&value) {
            Ok(text) => Ok(text),
            Err(error) => Err(BuildpackError::new(ErrorKind::TomlSer(error))),
        }
    }
}

} // verus!
