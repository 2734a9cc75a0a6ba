//! The build plan: the dependencies that a buildpack offers to provide, each
//! with a version and an open-ended table.

use vstd::prelude::*;
use vstd::string::*;
use crate::assoc::{
    distinct, find, put, map_values, lemma_find_at, lemma_find_none, lemma_map_values,
};
use crate::dict::Dict;
use crate::document::{
    Node, entries, no_entries, rendered, shape, render_document, table_get, table_insert, table_is_empty, table_keys, table_new, value_as_str, value_as_table,
    value_from_table, value_from_text,
};
use crate::error::{BuildpackError, ErrorKind, Fault, reports};
use crate::metadata::Metadata;
use crate::nesting::{decode, decoded, refuses};

verus! {

/// What a dependency says: its version, and its table where it has one.
pub struct DependencyModel {
    pub version: Seq<char>,
    pub metadata: Option<Seq<(Seq<char>, Node)>>,
}

/// The dependency that a node describes. The node has to be a table with a
/// string under `version`; a table under `metadata` becomes the dependency's
/// table unless it is empty, and anything else under `metadata` is a fault.
pub open spec fn read_dependency(node: Node) -> Result<DependencyModel, Fault> {
    match node {
        Node::Table(fields) => match find(fields, "version"@) {
            None => Err(Fault::MissingField("version"@)),
            Some(Node::Text(version)) => match find(fields, "metadata"@) {
                None => Ok(DependencyModel { version, metadata: None }),
                Some(Node::Table(pairs)) => Ok(
                    DependencyModel {
                        version,
                        metadata: if pairs.len() == 0 {
                            None
                        } else {
                            Some(pairs)
                        },
                    },
                ),
                Some(_) => Err(Fault::InvalidShape("toml::value::Table"@)),
            },
            Some(_) => Err(Fault::InvalidShape("String"@)),
        },
        _ => Err(Fault::InvalidShape("Not a TOML Table"@)),
    }
}

/// The dependencies that the entries of a document describe, in the order of
/// the document, or the fault of the first entry that describes none.
pub open spec fn read_entries(pairs: Seq<(Seq<char>, Node)>) -> Result<
    Seq<(Seq<char>, DependencyModel)>,
    Fault,
>
    decreases pairs.len(),
{
    if pairs.len() == 0 {
        Ok(Seq::empty())
    } else {
        match read_entries(pairs.drop_last()) {
            Err(fault) => Err(fault),
            Ok(done) => match read_dependency(pairs.last().1) {
                Err(fault) => Err(fault),
                Ok(dependency) => Ok(done.push((pairs.last().0, dependency))),
            },
        }
    }
}

/// The build plan that a document describes.
pub open spec fn read_plan(node: Node) -> Result<Seq<(Seq<char>, DependencyModel)>, Fault> {
    match node {
        Node::Table(pairs) => read_entries(pairs),
        _ => Err(Fault::InvalidShape("Not a TOML Table"@)),
    }
}

/// The node that describes a dependency: a table with the version and, where
/// the dependency has a table that is not empty, that table under `metadata`.
pub open spec fn dependency_node(dependency: DependencyModel) -> Node {
    let version = seq![("version"@, Node::Text(dependency.version))];
    match dependency.metadata {
        Some(pairs) if pairs.len() > 0 => Node::Table(version.push(("metadata"@, Node::Table(pairs)))),
        _ => Node::Table(version),
    }
}

/// The document that describes a build plan: one table for each dependency.
pub open spec fn plan_node(plan: Seq<(Seq<char>, DependencyModel)>) -> Node {
    Node::Table(map_values(plan, |dependency: DependencyModel| dependency_node(dependency)))
}

/// A fault among the first entries of a document is the fault of the
/// document.
pub proof fn lemma_fault_stays(pairs: Seq<(Seq<char>, Node)>, n: int)
    requires
        0 <= n <= pairs.len(),
        read_entries(pairs.take(n)) is Err,
    ensures
        read_entries(pairs) == read_entries(pairs.take(n)),
    decreases pairs.len() - n,
{
    if n == pairs.len() {
        assert(pairs.take(n) =~= pairs);
    } else {
        assert(pairs.take(n + 1).drop_last() =~= pairs.take(n));
        lemma_fault_stays(pairs, n + 1);
    }
}

/// What is left of a dependency when it is written and read: a table that
/// is empty is no table.
pub open spec fn settled(dependency: DependencyModel) -> DependencyModel {
    DependencyModel {
        version: dependency.version,
        metadata: match dependency.metadata {
            Some(pairs) if pairs.len() > 0 => Some(pairs),
            _ => None,
        },
    }
}

/// Reading the node that describes a dependency gives that dependency again:
/// the same version and the same table, an empty table counting as none.
pub proof fn lemma_dependency_read_back(dependency: DependencyModel)
    ensures
        read_dependency(dependency_node(dependency)) == Ok::<DependencyModel, Fault>(
            settled(dependency),
        ),
{
    lemma_names_differ();
    let fields = dependency_node(dependency)->Table_0;
    assert(distinct(fields));
    lemma_find_at(fields, 0);
    if fields.len() == 1 {
        lemma_find_none(fields, "metadata"@);
    } else {
        lemma_find_at(fields, 1);
    }
}

/// Reading the document that describes a build plan gives that plan again:
/// the same names in the same order, each with its version and its table, an
/// empty table counting as none.
pub proof fn lemma_plan_read_back(plan: Seq<(Seq<char>, DependencyModel)>)
    ensures
        read_plan(plan_node(plan)) == Ok::<Seq<(Seq<char>, DependencyModel)>, Fault>(
            map_values(plan, |dependency: DependencyModel| settled(dependency)),
        ),
    decreases plan.len(),
{
    let write = |dependency: DependencyModel| dependency_node(dependency);
    let settle = |dependency: DependencyModel| settled(dependency);
    let nodes = map_values(plan, write);
    if plan.len() == 0 {
        assert(map_values(plan, settle) =~= Seq::empty());
    } else {
        lemma_plan_read_back(plan.drop_last());
        lemma_dependency_read_back(plan.last().1);
        assert(nodes.drop_last() =~= map_values(plan.drop_last(), write));
        assert(nodes.last() == (plan.last().0, dependency_node(plan.last().1)));
        assert(map_values(plan.drop_last(), settle).push((plan.last().0, settled(plan.last().1)))
            =~= map_values(plan, settle));
    }
}

/// One dependency of a build plan.
#[derive(Debug)]
pub struct Dependency {
    pub version: String,
    /// The table of the dependency, where it has one.
    pub metadata: Option<Metadata>,
}

impl View for Dependency {
    type V = DependencyModel;

    open spec fn view(&self) -> DependencyModel {
        DependencyModel {
            version: self.version@,
            metadata: match self.metadata {
                Some(metadata) => Some(metadata@),
                None => None,
            },
        }
    }
}

impl Dependency {
    /// The dependency with the given version and no table.
    pub fn new(version: &str) -> (dependency: Self)
        ensures
            dependency@ == (DependencyModel { version: version@, metadata: None }),
    {
        Dependency { version: version.to_owned(), metadata: None }
    }

    /// The version of this dependency.
    pub fn version(&self) -> (version: &str)
        ensures
            version@ == self@.version,
    {
        self.version.as_str()
    }

    /// This dependency's table, where it has one.
    pub fn metadata(&self) -> (metadata: Option<&Metadata>)
        ensures
            match metadata {
                Some(m) => self@.metadata == Some(m@),
                None => self@.metadata.is_none(),
            },
    {
        self.metadata.as_ref()
    }

    /// This dependency's table, to be changed in place. A dependency without
    /// a table gets an empty one first.
    pub fn metadata_as_mut(&mut self) -> (metadata: &mut Metadata)
        ensures
            metadata@ == match old(self)@.metadata {
                Some(pairs) => pairs,
                None => no_entries(),
            },
            final(self)@ == (DependencyModel {
                version: old(self)@.version,
                metadata: Some(final(metadata)@),
            }),
    {
        if self.metadata.is_none() {
            self.metadata = Some(Metadata::new());
        }
        self.metadata.as_mut().unwrap()
    }

    /// Gives this dependency the table `metadata`.
    pub fn set_metadata(&mut self, metadata: Metadata)
        ensures
            final(self)@ == (DependencyModel {
                version: old(self)@.version,
                metadata: Some(metadata@),
            }),
    {
        self.metadata = Some(metadata);
    }

    /// The dependency that `value` describes.
    pub fn from_value(value: &toml::Value) -> (outcome: Result<Dependency, BuildpackError>)
        ensures
            match outcome {
                Ok(dependency) => read_dependency(shape(*value)) == Ok::<DependencyModel, Fault>(
                    dependency@,
                ),
                Err(error) => read_dependency(shape(*value)) is Err && reports(
                    error,
                    read_dependency(shape(*value))->Err_0,
                ),
            },
    {
        let table = match value_as_table(value) {
            Some(table) => table,
            None => {
                return Err(BuildpackError::invalid_shape("Not a TOML Table"));
            },
        };
        let version = match table_get(table, "version") {
            None => {
                return Err(BuildpackError::missing_field("version"));
            },
            Some(found) => match value_as_str(found) {
                Some(text) => text,
                None => {
                    return Err(BuildpackError::invalid_shape("String"));
                },
            },
        };
        let mut dependency = Dependency::new(version);
        match table_get(table, "metadata") {
            None => {},
            Some(found) => match value_as_table(found) {
                None => {
                    return Err(BuildpackError::invalid_shape("toml::value::Table"));
                },
                Some(pairs) => {
                    if !table_is_empty(pairs) {
                        dependency.set_metadata(Metadata::from_table(pairs));
                    }
                },
            },
        }
        Ok(dependency)
    }

    /// The value that describes this dependency.
    pub fn to_value(&self) -> (value: toml::Value)
        ensures
            shape(value) == dependency_node(self@),
    {
        let mut table = table_new();
        table_insert(&mut table, "version".to_owned(), value_from_text(self.version.clone()));
        proof {
            lemma_find_none(no_entries(), "version"@);
            assert(entries(table) =~= seq![("version"@, Node::Text(self.version@))]);
        }
        match &self.metadata {
            Some(metadata) => {
                if !metadata.is_empty() {
                    proof {
                        lemma_names_differ();
                        let before = entries(table);
                        assert forall|i: int| 0 <= i < before.len() implies (#[trigger] before[i]).0
                            != "metadata"@ by {}
                        lemma_find_none(before, "metadata"@);
                    }
                    table_insert(&mut table, "metadata".to_owned(), metadata.to_value());
                    proof {
                        assert(entries(table) =~= seq![
                            ("version"@, Node::Text(self.version@)),
                        ].push(("metadata"@, Node::Table(metadata@))));
                    }
                }
            },
            None => {},
        }
        value_from_table(table)
    }
}

/// The two field names of a dependency are different names.
pub proof fn lemma_names_differ()
    ensures
        "version"@ != "metadata"@,
{
    reveal_strlit("version");
    reveal_strlit("metadata");
    assert("version"@.len() == 7);
    assert("metadata"@.len() == 8);
}

/// The dependencies of a buildpack by name, in the order in which the names
/// arrived.
#[derive(Debug)]
pub struct BuildPlan {
    dependencies: Dict<Dependency>,
}

impl View for BuildPlan {
    type V = Seq<(Seq<char>, DependencyModel)>;

    closed spec fn view(&self) -> Seq<(Seq<char>, DependencyModel)> {
        map_values(self.dependencies@, |dependency: Dependency| dependency@)
    }
}

impl BuildPlan {
    /// The plan without dependencies.
    pub fn new() -> (plan: Self)
        ensures
            plan@ == Seq::<(Seq<char>, DependencyModel)>::empty(),
    {
        let plan = BuildPlan { dependencies: Dict::new() };
        assert(plan@ =~= Seq::<(Seq<char>, DependencyModel)>::empty());
        plan
    }

    /// Stores `value` under the name `key`, in place of what was there.
    pub fn insert(&mut self, key: &str, value: Dependency)
        ensures
            final(self)@ == put(old(self)@, key@, value@),
            distinct(final(self)@),
    {
        self.dependencies.insert(key.to_owned(), value);
        proof {
            let f = |dependency: Dependency| dependency@;
            lemma_map_values(old(self).dependencies@, f, key@);
            lemma_map_values(self.dependencies@, f, key@);
        }
    }

    /// The dependency under the name `key`.
    pub fn get(&self, key: &str) -> (dependency: Option<&Dependency>)
        ensures
            distinct(self@),
            match dependency {
                Some(d) => find(self@, key@) == Some(d@),
                None => find(self@, key@).is_none(),
            },
    {
        let found = self.dependencies.get(key);
        proof {
            lemma_map_values(self.dependencies@, |dependency: Dependency| dependency@, key@);
        }
        found
    }

    /// The number of dependencies.
    pub fn len(&self) -> (n: usize)
        ensures
            n == self@.len(),
            distinct(self@),
    {
        let n = self.dependencies.len();
        proof {
            lemma_map_values(
                self.dependencies@,
                |dependency: Dependency| dependency@,
                Seq::empty(),
            );
        }
        n
    }

    /// Whether the plan has no dependency.
    pub fn is_empty(&self) -> (empty: bool)
        ensures
            empty == (self@.len() == 0),
    {
        self.len() == 0
    }

    /// The plan that the document `value` describes: one dependency for each
    /// entry of the document. Fails with the fault of the first entry that
    /// describes no dependency.
    pub fn from_value(value: &toml::Value) -> (outcome: Result<BuildPlan, BuildpackError>)
        ensures
            match outcome {
                Ok(plan) => read_plan(shape(*value)) == Ok::<
                    Seq<(Seq<char>, DependencyModel)>,
                    Fault,
                >(plan@),
                Err(error) => read_plan(shape(*value)) is Err && reports(
                    error,
                    read_plan(shape(*value))->Err_0,
                ),
            },
    {
        let table = match value_as_table(value) {
            Some(table) => table,
            None => {
                return Err(BuildpackError::invalid_shape("Not a TOML Table"));
            },
        };
        let keys = table_keys(table);
        let ghost source = entries(*table);
        assert(distinct(source)) by {
            assert forall|i: int, j: int| 0 <= i < j < source.len() implies (#[trigger] source[i]).0
                != (#[trigger] source[j]).0 by {
                assert(keys@[i]@ != keys@[j]@);
            }
        }
        let mut plan = BuildPlan::new();
        let mut i: usize = 0;
        while i < keys.len()
            invariant
                source == entries(*table),
                shape(*value) == Node::Table(source),
                distinct(source),
                keys@.len() == source.len(),
                forall|j: int| 0 <= j < keys@.len() ==> (#[trigger] keys@[j])@ == source[j].0,
                i <= keys@.len(),
                plan@.len() == i,
                forall|j: int| 0 <= j < i ==> (#[trigger] plan@[j]).0 == source[j].0,
                read_entries(source.take(i as int)) == Ok::<
                    Seq<(Seq<char>, DependencyModel)>,
                    Fault,
                >(plan@),
            decreases keys@.len() - i,
        {
            let key = &keys[i];
            proof {
                lemma_find_at(source, i as int);
                assert(source.take(i + 1).drop_last() =~= source.take(i as int));
            }
            let found = table_get(table, key.as_str()).unwrap();
            match Dependency::from_value(found) {
                Ok(dependency) => {
                    proof {
                        let before = plan@;
                        assert forall|j: int| 0 <= j < before.len() implies (#[trigger] before[j]).0
                            != key@ by {
                            assert(source[j].0 != source[i as int].0);
                        }
                        lemma_find_none(before, key@);
                    }
                    plan.insert(key.as_str(), dependency);
                },
                Err(error) => {
                    proof {
                        let first = source.take(i + 1);
                        assert(first.last() == source[i as int]);
                        assert(read_entries(first) is Err);
                        lemma_fault_stays(source, i + 1);
                    }
                    return Err(error);
                },
            }
            i += 1;
        }
        proof {
            assert(source.take(source.len() as int) =~= source);
        }
        Ok(plan)
    }

    /// The plan that the TOML text `text` describes. Fails when the text
    /// nests too deep, when it is not TOML, and with the fault of the first
    /// entry that describes no dependency.
    pub fn parse(text: &str) -> (outcome: Result<BuildPlan, BuildpackError>)
        ensures
            match outcome {
                Ok(plan) => decoded(text@) is Ok && read_plan(decoded(text@)->Ok_0) == Ok::<
                    Seq<(Seq<char>, DependencyModel)>,
                    Fault,
                >(plan@),
                Err(error) => match decoded(text@) {
                    Err(refusal) => refuses(error, refusal),
                    Ok(node) => read_plan(node) is Err && reports(error, read_plan(node)->Err_0),
                },
            },
    {
        match decode(text) {
            Ok(value) => BuildPlan::from_value(&value),
            Err(error) => Err(error),
        }
    }

    /// The document that describes this plan.
    pub fn to_value(&self) -> (value: toml::Value)
        ensures
            shape(value) == plan_node(self@),
    {
        let mut table = table_new();
        let n = self.dependencies.len();
        let ghost f = |dependency: Dependency| dependency@;
        let ghost g = |dependency: DependencyModel| dependency_node(dependency);
        let mut i: usize = 0;
        while i < n
            invariant
                n == self.dependencies@.len(),
                distinct(self.dependencies@),
                i <= n,
                f == |dependency: Dependency| dependency@,
                g == |dependency: DependencyModel| dependency_node(dependency),
                entries(table) == map_values(self@, g).take(i as int),
            decreases n - i,
        {
            let key = self.dependencies.key_at(i);
            let dependency = self.dependencies.value_at(i);
            proof {
                let before = entries(table);
                let all = map_values(self@, g);
                assert forall|j: int| 0 <= j < before.len() implies (#[trigger] before[j]).0
                    != key@ by {
                    assert(self.dependencies@[j].0 != self.dependencies@[i as int].0);
                }
                lemma_find_none(before, key@);
                assert(before.push((key@, dependency_node(dependency@))) =~= all.take(i + 1));
            }
            table_insert(&mut table, key.clone(), dependency.to_value());
            i += 1;
        }
        proof {
            let all = map_values(self@, g);
            assert(all.take(n as int) =~= all);
        }
        value_from_table(table)
    }

    /// This plan as TOML text. Fails where the document cannot be written.
    pub fn serialize(&self) -> (outcome: Result<String, BuildpackError>)
        ensures
            match outcome {
                Ok(text) => rendered(plan_node(self@)) == Some(text@),
                Err(error) => rendered(plan_node(self@)).is_none() && error.is_encode_failure(),
            },
    {
        let value = self.to_value();
        match render_document(&value) {
            Ok(text) => Ok(text),
            Err(error) => Err(BuildpackError::new(ErrorKind::TomlSer(error))),
        }
    }
}

} // verus!
