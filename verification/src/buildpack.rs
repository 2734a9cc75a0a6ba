//! The descriptor of a buildpack: who it is, the stacks it runs on, and an
//! open-ended table.

use vstd::prelude::*;
use vstd::string::*;
use crate::assoc::{find, holds, lemma_find_at, lemma_find_none, lemma_holds_push};
use crate::document::{
    Node, entries, no_entries, rendered, shape, shapes, render_document, table_get, table_insert, table_new, value_as_array, value_as_str, value_as_table,
    value_clone, value_from_array, value_from_table, value_from_text,
};
use crate::error::{BuildpackError, ErrorKind, Fault, reports};
use crate::layers::config::read_table;
use crate::metadata::Metadata;
use crate::nesting::{decode, decoded, refuses};

verus! {

/// What the descriptor says of the buildpack itself.
pub struct InfoModel {
    pub id: Seq<char>,
    pub name: Seq<char>,
    pub version: Seq<char>,
}

/// What the descriptor says of one stack.
pub struct StackModel {
    pub id: Seq<char>,
    pub mixins: Seq<Seq<char>>,
    pub build_images: Seq<Seq<char>>,
    pub run_images: Seq<Seq<char>>,
}

/// What the descriptor of a buildpack says.
pub struct BuildpackModel {
    pub info: InfoModel,
    pub stacks: Seq<StackModel>,
    pub metadata: Seq<(Seq<char>, Node)>,
}

/// The texts of a vector of strings, one by one.
pub open spec fn texts(strings: Seq<String>) -> Seq<Seq<char>> {
    Seq::new(strings.len(), |i: int| strings[i]@)
}

/// The string under `name` in a table, which has to be there.
pub open spec fn read_text(fields: Seq<(Seq<char>, Node)>, name: Seq<char>) -> Result<
    Seq<char>,
    Fault,
> {
    match find(fields, name) {
        None => Err(Fault::MissingField(name)),
        Some(Node::Text(text)) => Ok(text),
        Some(_) => Err(Fault::InvalidShape("String"@)),
    }
}

/// The texts of the nodes `items`, which all have to be strings.
pub open spec fn read_texts(items: Seq<Node>) -> Result<Seq<Seq<char>>, Fault>
    decreases items.len(),
{
    if items.len() == 0 {
        Ok(Seq::empty())
    } else {
        match read_texts(items.drop_last()) {
            Err(fault) => Err(fault),
            Ok(done) => match items.last() {
                Node::Text(text) => Ok(done.push(text)),
                _ => Err(Fault::InvalidShape("String"@)),
            },
        }
    }
}

/// The list of strings under `name` in a table: empty where the table has no
/// such field.
pub open spec fn read_list(fields: Seq<(Seq<char>, Node)>, name: Seq<char>) -> Result<
    Seq<Seq<char>>,
    Fault,
> {
    match find(fields, name) {
        None => Ok(Seq::empty()),
        Some(Node::Array(items)) => read_texts(items),
        Some(_) => Err(Fault::InvalidShape("array"@)),
    }
}

/// The stack that a node describes.
pub open spec fn read_stack(node: Node) -> Result<StackModel, Fault> {
    match node {
        Node::Table(fields) => match read_text(fields, "id"@) {
            Err(fault) => Err(fault),
            Ok(id) => match read_list(fields, "mixins"@) {
                Err(fault) => Err(fault),
                Ok(mixins) => match read_list(fields, "build-images"@) {
                    Err(fault) => Err(fault),
                    Ok(build_images) => match read_list(fields, "run-images"@) {
                        Err(fault) => Err(fault),
                        Ok(run_images) => Ok(StackModel { id, mixins, build_images, run_images }),
                    },
                },
            },
        },
        _ => Err(Fault::InvalidShape("Not a TOML Table"@)),
    }
}

/// The stacks that the nodes `items` describe, or the fault of the first
/// that describes none.
pub open spec fn read_stacks(items: Seq<Node>) -> Result<Seq<StackModel>, Fault>
    decreases items.len(),
{
    if items.len() == 0 {
        Ok(Seq::empty())
    } else {
        match read_stacks(items.drop_last()) {
            Err(fault) => Err(fault),
            Ok(done) => match read_stack(items.last()) {
                Err(fault) => Err(fault),
                Ok(stack) => Ok(done.push(stack)),
            },
        }
    }
}

/// The stacks under `stacks` in a table: none where the table has no such
/// field.
pub open spec fn read_stack_list(fields: Seq<(Seq<char>, Node)>) -> Result<
    Seq<StackModel>,
    Fault,
> {
    match find(fields, "stacks"@) {
        None => Ok(Seq::empty()),
        Some(Node::Array(items)) => read_stacks(items),
        Some(_) => Err(Fault::InvalidShape("array"@)),
    }
}

/// What a node says of the buildpack itself.
pub open spec fn read_info(node: Node) -> Result<InfoModel, Fault> {
    match node {
        Node::Table(fields) => match read_text(fields, "id"@) {
            Err(fault) => Err(fault),
            Ok(id) => match read_text(fields, "name"@) {
                Err(fault) => Err(fault),
                Ok(name) => match read_text(fields, "version"@) {
                    Err(fault) => Err(fault),
                    Ok(version) => Ok(InfoModel { id, name, version }),
                },
            },
        },
        _ => Err(Fault::InvalidShape("Not a TOML Table"@)),
    }
}

/// The descriptor that a document describes: the table `buildpack`, which
/// has to be there, the array `stacks` and the table `metadata`.
pub open spec fn read_buildpack(node: Node) -> Result<BuildpackModel, Fault> {
    match node {
        Node::Table(fields) => match find(fields, "buildpack"@) {
            None => Err(Fault::MissingField("buildpack"@)),
            Some(about) => match read_info(about) {
                Err(fault) => Err(fault),
                Ok(info) => match read_stack_list(fields) {
                    Err(fault) => Err(fault),
                    Ok(stacks) => match read_table(fields) {
                        Err(fault) => Err(fault),
                        Ok(metadata) => Ok(BuildpackModel { info, stacks, metadata }),
                    },
                },
            },
        },
        _ => Err(Fault::InvalidShape("Not a TOML Table"@)),
    }
}

/// The string nodes with the texts `list`, one by one.
pub open spec fn text_nodes(list: Seq<Seq<char>>) -> Seq<Node> {
    Seq::new(list.len(), |i: int| Node::Text(list[i]))
}

/// `fields` with the list `list` under `name` at the end, where the list is
/// not empty.
pub open spec fn with_list(
    fields: Seq<(Seq<char>, Node)>,
    name: Seq<char>,
    list: Seq<Seq<char>>,
) -> Seq<(Seq<char>, Node)> {
    if list.len() == 0 {
        fields
    } else {
        fields.push((name, Node::Array(text_nodes(list))))
    }
}

/// The entries that describe a stack: its name, and each of its lists that
/// is not empty.
pub open spec fn stack_fields(stack: StackModel) -> Seq<(Seq<char>, Node)> {
    with_list(
        with_list(
            with_list(seq![("id"@, Node::Text(stack.id))], "mixins"@, stack.mixins),
            "build-images"@,
            stack.build_images,
        ),
        "run-images"@,
        stack.run_images,
    )
}

/// The node that describes a stack.
pub open spec fn stack_node(stack: StackModel) -> Node {
    Node::Table(stack_fields(stack))
}

/// The nodes that describe the stacks `stacks`, one by one.
pub open spec fn stack_nodes(stacks: Seq<StackModel>) -> Seq<Node> {
    Seq::new(stacks.len(), |i: int| stack_node(stacks[i]))
}

/// The node that says who the buildpack is.
pub open spec fn info_node(info: InfoModel) -> Node {
    Node::Table(
        seq![
            ("id"@, Node::Text(info.id)),
            ("name"@, Node::Text(info.name)),
            ("version"@, Node::Text(info.version)),
        ],
    )
}

/// The entries that describe a descriptor: the table `buildpack`, the array
/// `stacks` where there are stacks, and the table `metadata` where it is not
/// empty.
pub open spec fn buildpack_fields(buildpack: BuildpackModel) -> Seq<(Seq<char>, Node)> {
    let about = seq![("buildpack"@, info_node(buildpack.info))];
    let stacks = if buildpack.stacks.len() == 0 {
        about
    } else {
        about.push(("stacks"@, Node::Array(stack_nodes(buildpack.stacks))))
    };
    if buildpack.metadata.len() == 0 {
        stacks
    } else {
        stacks.push(("metadata"@, Node::Table(buildpack.metadata)))
    }
}

/// The document that describes a descriptor.
pub open spec fn buildpack_node(buildpack: BuildpackModel) -> Node {
    Node::Table(buildpack_fields(buildpack))
}

/// The names of the three sections of a descriptor, in the order in which
/// they are written.
pub open spec fn section_names() -> Seq<Seq<char>> {
    seq!["buildpack"@, "stacks"@, "metadata"@]
}

/// `text` with `part` after it, and an empty line between the two where
/// `text` is not empty.
pub open spec fn with_section(text: Seq<char>, part: Seq<char>) -> Seq<char> {
    if text.len() == 0 {
        part
    } else {
        text + "\n"@ + part
    }
}

/// The text of the sections `names` of a table, in that order: each section
/// that the table has is written as a document with that one entry. Nothing
/// where one of them cannot be written.
pub open spec fn sections_text(fields: Seq<(Seq<char>, Node)>, names: Seq<Seq<char>>) -> Option<
    Seq<char>,
>
    decreases names.len(),
{
    if names.len() == 0 {
        Some(Seq::empty())
    } else {
        match sections_text(fields, names.drop_last()) {
            None => None,
            Some(text) => match find(fields, names.last()) {
                None => Some(text),
                Some(node) => match rendered(Node::Table(seq![(names.last(), node)])) {
                    None => None,
                    Some(part) => Some(with_section(text, part)),
                },
            },
        }
    }
}

/// The TOML text of a descriptor.
pub open spec fn buildpack_text(buildpack: BuildpackModel) -> Option<Seq<char>> {
    sections_text(buildpack_fields(buildpack), section_names())
}

/// Sections of which the first cannot be written cannot be written as a
/// whole.
pub proof fn lemma_sections_fail(fields: Seq<(Seq<char>, Node)>, names: Seq<Seq<char>>, n: int)
    requires
        0 <= n <= names.len(),
        sections_text(fields, names.take(n)).is_none(),
    ensures
        sections_text(fields, names).is_none(),
    decreases names.len() - n,
{
    if n == names.len() {
        assert(names.take(n) =~= names);
    } else {
        assert(names.take(n + 1).drop_last() =~= names.take(n));
        lemma_sections_fail(fields, names, n + 1);
    }
}

/// The field names of a descriptor, by their lengths: no two of one table
/// are of the same length.
pub proof fn lemma_name_lengths()
    ensures
        "id"@.len() == 2,
        "mixins"@.len() == 6,
        "build-images"@.len() == 12,
        "run-images"@.len() == 10,
        "name"@.len() == 4,
        "version"@.len() == 7,
        "buildpack"@.len() == 9,
        "stacks"@.len() == 6,
        "metadata"@.len() == 8,
{
    reveal_strlit("id");
    reveal_strlit("mixins");
    reveal_strlit("build-images");
    reveal_strlit("run-images");
    reveal_strlit("name");
    reveal_strlit("version");
    reveal_strlit("buildpack");
    reveal_strlit("stacks");
    reveal_strlit("metadata");
}

/// Adds the entry `name` with `value` at the end of `table`, which must not
/// hold the name yet.
fn push_field(table: &mut toml::map::Map<String, toml::Value>, name: &str, value: toml::Value)
    requires
        !holds(entries(*old(table)), name@),
    ensures
        entries(*final(table)) == entries(*old(table)).push((name@, shape(value))),
{
    table_insert(table, name.to_owned(), value);
}

/// Adds the list `list` under `name` at the end of `table`, where the list
/// is not empty.
fn push_list(table: &mut toml::map::Map<String, toml::Value>, name: &str, list: &Vec<String>)
    requires
        !holds(entries(*old(table)), name@),
    ensures
        entries(*final(table)) == with_list(entries(*old(table)), name@, texts(list@)),
{
    if list.len() > 0 {
        push_field(table, name, texts_value(list));
    }
}

/// The array of the strings `list`.
fn texts_value(list: &Vec<String>) -> (value: toml::Value)
    ensures
        shape(value) == Node::Array(text_nodes(texts(list@))),
{
    let mut items: Vec<toml::Value> = Vec::new();
    let mut i: usize = 0;
    let ghost target = text_nodes(texts(list@));
    proof {
        assert(shapes(items@) =~= target.take(0));
    }
    while i < list.len()
        invariant
            target == text_nodes(texts(list@)),
            i <= list@.len(),
            items@.len() == i,
            shapes(items@) == target.take(i as int),
        decreases list@.len() - i,
    {
        let ghost before = items@;
        items.push(value_from_text(list[i].clone()));
        proof {
            assert forall|j: int| 0 <= j < i + 1 implies shapes(items@)[j] == target.take(
                i + 1,
            )[j] by {
                if j < i {
                    assert(items@[j] == before[j]);
                    assert(shapes(before)[j] == target.take(i as int)[j]);
                }
            }
            assert(shapes(items@) =~= target.take(i + 1));
        }
        i += 1;
    }
    proof {
        assert(target.take(list@.len() as int) =~= target);
    }
    value_from_array(items)
}

/// A fault among the first nodes of a list of strings is the fault of the
/// list.
pub proof fn lemma_texts_fault_stays(items: Seq<Node>, n: int)
    requires
        0 <= n <= items.len(),
        read_texts(items.take(n)) is Err,
    ensures
        read_texts(items) == read_texts(items.take(n)),
    decreases items.len() - n,
{
    if n == items.len() {
        assert(items.take(n) =~= items);
    } else {
        assert(items.take(n + 1).drop_last() =~= items.take(n));
        lemma_texts_fault_stays(items, n + 1);
    }
}

/// A fault among the first nodes of a list of stacks is the fault of the
/// list.
pub proof fn lemma_stacks_fault_stays(items: Seq<Node>, n: int)
    requires
        0 <= n <= items.len(),
        read_stacks(items.take(n)) is Err,
    ensures
        read_stacks(items) == read_stacks(items.take(n)),
    decreases items.len() - n,
{
    if n == items.len() {
        assert(items.take(n) =~= items);
    } else {
        assert(items.take(n + 1).drop_last() =~= items.take(n));
        lemma_stacks_fault_stays(items, n + 1);
    }
}

/// The string under `name` in `table`.
fn text_in(table: &toml::map::Map<String, toml::Value>, name: &str) -> (outcome: Result<
    String,
    BuildpackError,
>)
    ensures
        match outcome {
            Ok(text) => read_text(entries(*table), name@) == Ok::<Seq<char>, Fault>(text@),
            Err(error) => read_text(entries(*table), name@) is Err && reports(
                error,
                read_text(entries(*table), name@)->Err_0,
            ),
        },
{
    match table_get(table, name) {
        None => Err(BuildpackError::missing_field(name)),
        Some(found) => match value_as_str(found) {
            Some(text) => Ok(text.to_owned()),
            None => Err(BuildpackError::invalid_shape("String")),
        },
    }
}

/// The texts of the values `items`.
fn texts_in(items: &Vec<toml::Value>) -> (outcome: Result<Vec<String>, BuildpackError>)
    ensures
        match outcome {
            Ok(list) => read_texts(shapes(items@)) == Ok::<Seq<Seq<char>>, Fault>(texts(list@)),
            Err(error) => read_texts(shapes(items@)) is Err && reports(
                error,
                read_texts(shapes(items@))->Err_0,
            ),
        },
{
    let mut list: Vec<String> = Vec::new();
    let ghost nodes = shapes(items@);
    let mut i: usize = 0;
    proof {
        assert(texts(list@) =~= Seq::<Seq<char>>::empty());
    }
    while i < items.len()
        invariant
            nodes == shapes(items@),
            i <= items@.len(),
            list@.len() == i,
            read_texts(nodes.take(i as int)) == Ok::<Seq<Seq<char>>, Fault>(texts(list@)),
        decreases items@.len() - i,
    {
        proof {
            let first = nodes.take(i + 1);
            assert(first.drop_last() =~= nodes.take(i as int));
            assert(first.last() == shape(items@[i as int]));
        }
        match value_as_str(&items[i]) {
            Some(text) => {
                let ghost before = list@;
                list.push(text.to_owned());
                proof {
                    assert(texts(list@) =~= texts(before).push(text@));
                }
            },
            None => {
                proof {
                    lemma_texts_fault_stays(nodes, i + 1);
                }
                return Err(BuildpackError::invalid_shape("String"));
            },
        }
        i += 1;
    }
    proof {
        assert(nodes.take(nodes.len() as int) =~= nodes);
    }
    Ok(list)
}

/// The list of strings under `name` in `table`.
fn list_in(table: &toml::map::Map<String, toml::Value>, name: &str) -> (outcome: Result<
    Vec<String>,
    BuildpackError,
>)
    ensures
        match outcome {
            Ok(list) => read_list(entries(*table), name@) == Ok::<Seq<Seq<char>>, Fault>(
                texts(list@),
            ),
            Err(error) => read_list(entries(*table), name@) is Err && reports(
                error,
                read_list(entries(*table), name@)->Err_0,
            ),
        },
{
    match table_get(table, name) {
        None => {
            let list: Vec<String> = Vec::new();
            proof {
                assert(texts(list@) =~= Seq::<Seq<char>>::empty());
            }
            Ok(list)
        },
        Some(found) => match value_as_array(found) {
            Some(items) => texts_in(items),
            None => Err(BuildpackError::invalid_shape("array")),
        },
    }
}

/// What the descriptor says of the buildpack itself.
#[derive(Debug)]
pub struct Info {
    pub id: String,
    pub name: String,
    pub version: String,
}

impl View for Info {
    type V = InfoModel;

    open spec fn view(&self) -> InfoModel {
        InfoModel { id: self.id@, name: self.name@, version: self.version@ }
    }
}

impl Info {
    /// The buildpack `id`, called `name`, in the version `version`.
    pub fn new(id: &str, name: &str, version: &str) -> (info: Self)
        ensures
            info@ == (InfoModel { id: id@, name: name@, version: version@ }),
    {
        Info { id: id.to_owned(), name: name.to_owned(), version: version.to_owned() }
    }

    /// The value that says who the buildpack is.
    pub fn to_value(&self) -> (value: toml::Value)
        ensures
            shape(value) == info_node(self@),
    {
        let mut table = table_new();
        proof {
            lemma_name_lengths();
            lemma_find_none(no_entries(), "id"@);
        }
        push_field(&mut table, "id", value_from_text(self.id.clone()));
        proof {
            lemma_holds_push(no_entries(), ("id"@, Node::Text(self.id@)), "name"@);
        }
        let ghost one = entries(table);
        push_field(&mut table, "name", value_from_text(self.name.clone()));
        proof {
            lemma_holds_push(no_entries(), ("id"@, Node::Text(self.id@)), "version"@);
            lemma_holds_push(one, ("name"@, Node::Text(self.name@)), "version"@);
        }
        push_field(&mut table, "version", value_from_text(self.version.clone()));
        proof {
            assert(entries(table) =~= info_node(self@)->Table_0);
        }
        value_from_table(table)
    }

    /// What `value` says of the buildpack itself.
    pub fn from_value(value: &toml::Value) -> (outcome: Result<Info, BuildpackError>)
        ensures
            match outcome {
                Ok(info) => read_info(shape(*value)) == Ok::<InfoModel, Fault>(info@),
                Err(error) => read_info(shape(*value)) is Err && reports(
                    error,
                    read_info(shape(*value))->Err_0,
                ),
            },
    {
        let table = match value_as_table(value) {
            Some(table) => table,
            None => {
                return Err(BuildpackError::invalid_shape("Not a TOML Table"));
            },
        };
        let id = match text_in(table, "id") {
            Ok(text) => text,
            Err(error) => {
                return Err(error);
            },
        };
        let name = match text_in(table, "name") {
            Ok(text) => text,
            Err(error) => {
                return Err(error);
            },
        };
        let version = match text_in(table, "version") {
            Ok(text) => text,
            Err(error) => {
                return Err(error);
            },
        };
        Ok(Info { id, name, version })
    }
}

/// One stack that the buildpack runs on.
#[derive(Debug)]
pub struct Stack {
    pub id: String,
    pub mixins: Vec<String>,
    pub build_images: Vec<String>,
    pub run_images: Vec<String>,
}

impl View for Stack {
    type V = StackModel;

    open spec fn view(&self) -> StackModel {
        StackModel {
            id: self.id@,
            mixins: texts(self.mixins@),
            build_images: texts(self.build_images@),
            run_images: texts(self.run_images@),
        }
    }
}

impl Stack {
    /// The stack `id`, without mixins and images.
    pub fn new(id: &str) -> (stack: Self)
        ensures
            stack@ == (StackModel {
                id: id@,
                mixins: Seq::empty(),
                build_images: Seq::empty(),
                run_images: Seq::empty(),
            }),
    {
        let stack = Stack {
            id: id.to_owned(),
            mixins: Vec::new(),
            build_images: Vec::new(),
            run_images: Vec::new(),
        };
        proof {
            assert(texts(stack.mixins@) =~= Seq::<Seq<char>>::empty());
            assert(texts(stack.build_images@) =~= Seq::<Seq<char>>::empty());
            assert(texts(stack.run_images@) =~= Seq::<Seq<char>>::empty());
        }
        stack
    }

    /// The value that describes this stack.
    pub fn to_value(&self) -> (value: toml::Value)
        ensures
            shape(value) == stack_node(self@),
    {
        let mut table = table_new();
        let ghost id = ("id"@, Node::Text(self.id@));
        let ghost mixins = ("mixins"@, Node::Array(text_nodes(texts(self.mixins@))));
        let ghost build_images = (
            "build-images"@,
            Node::Array(text_nodes(texts(self.build_images@))),
        );
        proof {
            lemma_name_lengths();
            lemma_find_none(no_entries(), "id"@);
        }
        push_field(&mut table, "id", value_from_text(self.id.clone()));
        let ghost one = entries(table);
        proof {
            assert(one =~= seq![id]);
            lemma_holds_push(no_entries(), id, "mixins"@);
            lemma_holds_push(no_entries(), id, "build-images"@);
            lemma_holds_push(no_entries(), id, "run-images"@);
        }
        push_list(&mut table, "mixins", &self.mixins);
        let ghost two = entries(table);
        proof {
            lemma_holds_push(one, mixins, "build-images"@);
            lemma_holds_push(one, mixins, "run-images"@);
        }
        push_list(&mut table, "build-images", &self.build_images);
        proof {
            lemma_holds_push(two, build_images, "run-images"@);
        }
        push_list(&mut table, "run-images", &self.run_images);
        value_from_table(table)
    }

    /// The stack that `value` describes.
    pub fn from_value(value: &toml::Value) -> (outcome: Result<Stack, BuildpackError>)
        ensures
            match outcome {
                Ok(stack) => read_stack(shape(*value)) == Ok::<StackModel, Fault>(stack@),
                Err(error) => read_stack(shape(*value)) is Err && reports(
                    error,
                    read_stack(shape(*value))->Err_0,
                ),
            },
    {
        let table = match value_as_table(value) {
            Some(table) => table,
            None => {
                return Err(BuildpackError::invalid_shape("Not a TOML Table"));
            },
        };
        let id = match text_in(table, "id") {
            Ok(text) => text,
            Err(error) => {
                return Err(error);
            },
        };
        let mixins = match list_in(table, "mixins") {
            Ok(list) => list,
            Err(error) => {
                return Err(error);
            },
        };
        let build_images = match list_in(table, "build-images") {
            Ok(list) => list,
            Err(error) => {
                return Err(error);
            },
        };
        let run_images = match list_in(table, "run-images") {
            Ok(list) => list,
            Err(error) => {
                return Err(error);
            },
        };
        Ok(Stack { id, mixins, build_images, run_images })
    }
}

/// The stacks that a vector of stacks holds, one by one.
pub open spec fn stack_models(stacks: Seq<Stack>) -> Seq<StackModel> {
    Seq::new(stacks.len(), |i: int| stacks[i]@)
}

/// The stacks that the values `items` describe.
fn stacks_in(items: &Vec<toml::Value>) -> (outcome: Result<Vec<Stack>, BuildpackError>)
    ensures
        match outcome {
            Ok(list) => read_stacks(shapes(items@)) == Ok::<Seq<StackModel>, Fault>(
                stack_models(list@),
            ),
            Err(error) => read_stacks(shapes(items@)) is Err && reports(
                error,
                read_stacks(shapes(items@))->Err_0,
            ),
        },
{
    let mut list: Vec<Stack> = Vec::new();
    let ghost nodes = shapes(items@);
    let mut i: usize = 0;
    proof {
        assert(stack_models(list@) =~= Seq::<StackModel>::empty());
    }
    while i < items.len()
        invariant
            nodes == shapes(items@),
            i <= items@.len(),
            list@.len() == i,
            read_stacks(nodes.take(i as int)) == Ok::<Seq<StackModel>, Fault>(
                stack_models(list@),
            ),
        decreases items@.len() - i,
    {
        proof {
            let first = nodes.take(i + 1);
            assert(first.drop_last() =~= nodes.take(i as int));
            assert(first.last() == shape(items@[i as int]));
        }
        match Stack::from_value(&items[i]) {
            Ok(stack) => {
                let ghost before = list@;
                let ghost model = stack@;
                list.push(stack);
                proof {
                    assert(stack_models(list@) =~= stack_models(before).push(model));
                }
            },
            Err(error) => {
                proof {
                    lemma_stacks_fault_stays(nodes, i + 1);
                }
                return Err(error);
            },
        }
        i += 1;
    }
    proof {
        assert(nodes.take(nodes.len() as int) =~= nodes);
    }
    Ok(list)
}

/// The descriptor of a buildpack.
#[derive(Debug)]
pub struct Buildpack {
    pub info: Info,
    pub stacks: Vec<Stack>,
    pub metadata: Metadata,
}

impl View for Buildpack {
    type V = BuildpackModel;

    open spec fn view(&self) -> BuildpackModel {
        BuildpackModel {
            info: self.info@,
            stacks: stack_models(self.stacks@),
            metadata: self.metadata@,
        }
    }
}

impl Buildpack {
    /// The descriptor of the buildpack `id`, called `name`, in the version
    /// `version`, without stacks and with an empty table.
    pub fn new(id: &str, name: &str, version: &str) -> (buildpack: Self)
        ensures
            buildpack@ == (BuildpackModel {
                info: InfoModel { id: id@, name: name@, version: version@ },
                stacks: Seq::empty(),
                metadata: no_entries(),
            }),
    {
        let buildpack = Buildpack {
            info: Info::new(id, name, version),
            stacks: Vec::new(),
            metadata: Metadata::new(),
        };
        proof {
            assert(stack_models(buildpack.stacks@) =~= Seq::<StackModel>::empty());
        }
        buildpack
    }

    /// The document that describes this descriptor.
    pub fn to_value(&self) -> (value: toml::Value)
        ensures
            shape(value) == buildpack_node(self@),
    {
        let mut table = table_new();
        let ghost about = ("buildpack"@, info_node(self.info@));
        let ghost stacks = ("stacks"@, Node::Array(stack_nodes(stack_models(self.stacks@))));
        proof {
            lemma_name_lengths();
            lemma_find_none(no_entries(), "buildpack"@);
        }
        push_field(&mut table, "buildpack", self.info.to_value());
        let ghost one = entries(table);
        proof {
            assert(one =~= seq![about]);
            lemma_holds_push(no_entries(), about, "stacks"@);
            lemma_holds_push(no_entries(), about, "metadata"@);
        }
        if self.stacks.len() > 0 {
            let mut items: Vec<toml::Value> = Vec::new();
            let ghost target = stack_nodes(stack_models(self.stacks@));
            let mut i: usize = 0;
            proof {
                assert(shapes(items@) =~= target.take(0));
            }
            while i < self.stacks.len()
                invariant
                    target == stack_nodes(stack_models(self.stacks@)),
                    i <= self.stacks@.len(),
                    items@.len() == i,
                    shapes(items@) == target.take(i as int),
                decreases self.stacks@.len() - i,
            {
                let ghost before = items@;
                items.push(self.stacks[i].to_value());
                proof {
                    assert forall|j: int| 0 <= j < i + 1 implies shapes(items@)[j] == target.take(
                        i + 1,
                    )[j] by {
                        if j < i {
                            assert(items@[j] == before[j]);
                            assert(shapes(before)[j] == target.take(i as int)[j]);
                        }
                    }
                    assert(shapes(items@) =~= target.take(i + 1));
                }
                i += 1;
            }
            proof {
                assert(target.take(self.stacks@.len() as int) =~= target);
            }
            push_field(&mut table, "stacks", value_from_array(items));
            proof {
                lemma_holds_push(one, stacks, "metadata"@);
            }
        }
        if !self.metadata.is_empty() {
            push_field(&mut table, "metadata", self.metadata.to_value());
        }
        value_from_table(table)
    }

    /// This descriptor as TOML text: the table `buildpack`, then the stacks,
    /// then the table `metadata`, each written as a document of its own and
    /// an empty line between them. Stacks and table are left out where there
    /// are none. Fails where one of the documents cannot be written.
    pub fn serialize(&self) -> (outcome: Result<String, BuildpackError>)
        ensures
            match outcome {
                Ok(text) => buildpack_text(self@) == Some(text@),
                Err(error) => buildpack_text(self@).is_none() && error.is_encode_failure(),
            },
    {
        let value = self.to_value();
        proof {
            lemma_name_lengths();
            let fields = buildpack_fields(self@);
            lemma_find_at(fields, 0);
            if self@.stacks.len() > 0 {
                lemma_find_at(fields, 1);
                if self@.metadata.len() > 0 {
                    lemma_find_at(fields, 2);
                }
            } else if self@.metadata.len() > 0 {
                lemma_find_at(fields, 1);
            }
        }
        let table = value_as_table(&value).unwrap();
        let mut text = String::new();
        let names = ["buildpack", "stacks", "metadata"];
        let mut i: usize = 0;
        while i < 3
            invariant
                i <= 3,
                names[0]@ == "buildpack"@,
                names[1]@ == "stacks"@,
                names[2]@ == "metadata"@,
                entries(*table) == buildpack_fields(self@),
                sections_text(buildpack_fields(self@), section_names().take(i as int)) == Some(
                    text@,
                ),
            decreases 3 - i,
        {
            proof {
                let first = section_names().take(i + 1);
                assert(first.drop_last() =~= section_names().take(i as int));
                assert(first.last() == names[i as int]@);
            }
            match table_get(table, names[i]) {
                None => {},
                Some(found) => {
                    let mut section = table_new();
                    proof {
                        lemma_find_none(no_entries(), names[i as int]@);
                    }
                    table_insert(&mut section, names[i].to_owned(), value_clone(found));
                    proof {
                        assert(entries(section) =~= seq![(names[i as int]@, shape(*found))]);
                    }
                    match render_document(&value_from_table(section)) {
                        Ok(part) => {
                            if !text.as_str().is_empty() {
                                text = text.concat("\n");
                            }
                            text = text.concat(part.as_str());
                        },
                        Err(error) => {
                            proof {
                                lemma_sections_fail(
                                    buildpack_fields(self@),
                                    section_names(),
                                    i + 1,
                                );
                            }
                            return Err(BuildpackError::new(ErrorKind::TomlSer(error)));
                        },
                    }
                },
            }
            i += 1;
        }
        proof {
            assert(section_names().take(3) =~= section_names());
        }
        Ok(text)
    }

    /// The descriptor that the document `value` describes.
    pub fn from_value(value: &toml::Value) -> (outcome: Result<Buildpack, BuildpackError>)
        ensures
            match outcome {
                Ok(buildpack) => read_buildpack(shape(*value)) == Ok::<BuildpackModel, Fault>(
                    buildpack@,
                ),
                Err(error) => read_buildpack(shape(*value)) is Err && reports(
                    error,
                    read_buildpack(shape(*value))->Err_0,
                ),
            },
    {
        let table = match value_as_table(value) {
            Some(table) => table,
            None => {
                return Err(BuildpackError::invalid_shape("Not a TOML Table"));
            },
        };
        let info = match table_get(table, "buildpack") {
            None => {
                return Err(BuildpackError::missing_field("buildpack"));
            },
            Some(about) => match Info::from_value(about) {
                Ok(info) => info,
                Err(error) => {
                    return Err(error);
                },
            },
        };
        let stacks = match table_get(table, "stacks") {
            None => {
                let list: Vec<Stack> = Vec::new();
                proof {
                    assert(stack_models(list@) =~= Seq::<StackModel>::empty());
                }
                list
            },
            Some(found) => match value_as_array(found) {
                None => {
                    return Err(BuildpackError::invalid_shape("array"));
                },
                Some(items) => match stacks_in(items) {
                    Ok(list) => list,
                    Err(error) => {
                        return Err(error);
                    },
                },
            },
        };
        let metadata = match table_get(table, "metadata") {
            None => Metadata::new(),
            Some(found) => match value_as_table(found) {
                Some(pairs) => Metadata::from_table(pairs),
                None => {
                    return Err(BuildpackError::invalid_shape("toml::value::Table"));
                },
            },
        };
        Ok(Buildpack { info, stacks, metadata })
    }

    /// The descriptor that the file at `path` holds: `contents` is the text
    /// of the file, or nothing where the file cannot be read. Fails without a
    /// file, when the text nests too deep, when it is not TOML, and when it
    /// describes no descriptor.
    pub fn from_file(path: &str, contents: Option<&str>) -> (outcome: Result<
        Buildpack,
        BuildpackError,
    >)
        ensures
            match contents {
                None => outcome is Err && match outcome->Err_0.cause() {
                    ErrorKind::FileNotFound(missing) => missing@ == path@,
                    _ => false,
                },
                Some(text) => match outcome {
                    Ok(buildpack) => decoded(text@) is Ok && read_buildpack(
                        decoded(text@)->Ok_0,
                    ) == Ok::<BuildpackModel, Fault>(buildpack@),
                    Err(error) => match decoded(text@) {
                        Err(refusal) => refuses(error, refusal),
                        Ok(node) => read_buildpack(node) is Err && reports(
                            error,
                            read_buildpack(node)->Err_0,
                        ),
                    },
                },
            },
    {
        match contents {
            None => Err(BuildpackError::new(ErrorKind::FileNotFound(path.to_owned()))),
            Some(text) => match decode(text) {
                Ok(value) => Buildpack::from_value(&value),
                Err(error) => Err(error),
            },
        }
    }
}

} // verus!
