//! TOML documents as the `toml` crate holds them.
//!
//! The crate's values are opaque to the verifier. Each is described by the
//! tree it stands for, a [`Node`], and every operation of the crate that the
//! library calls is declared here with what it does to that tree. Nothing in
//! this file is proved: these declarations are the library's assumptions
//! about the `toml` crate.

use vstd::prelude::*;
use crate::assoc::{find, put};

verus! {

/// What a TOML value holds. A table is the sequence of its entries in the
/// order in which the document gives them, no key twice.
pub enum Node {
    /// A string.
    Text(Seq<char>),
    /// An integer.
    Integer(int),
    /// A floating-point number, by its bit pattern.
    Float(u64),
    /// A boolean.
    Boolean(bool),
    /// A date or time, by its text.
    Datetime(Seq<char>),
    /// An array.
    Array(Seq<Node>),
    /// A table.
    Table(Seq<(Seq<char>, Node)>),
}

impl Node {
    /// The text of a string node.
    pub open spec fn text(self) -> Option<Seq<char>> {
        match self {
            Node::Text(s) => Some(s),
            _ => None,
        }
    }

    /// The truth value of a boolean node.
    pub open spec fn flag(self) -> Option<bool> {
        match self {
            Node::Boolean(b) => Some(b),
            _ => None,
        }
    }

    /// The entries of a table node.
    pub open spec fn fields(self) -> Option<Seq<(Seq<char>, Node)>> {
        match self {
            Node::Table(pairs) => Some(pairs),
            _ => None,
        }
    }

    /// The elements of an array node.
    pub open spec fn items(self) -> Option<Seq<Node>> {
        match self {
            Node::Array(nodes) => Some(nodes),
            _ => None,
        }
    }
}

#[verifier::external_type_specification]
#[verifier::external_body]
pub struct ExValue(toml::Value);

#[verifier::external_type_specification]
#[verifier::external_body]
#[verifier::reject_recursive_types(K)]
#[verifier::reject_recursive_types(V)]
pub struct ExTable<K, V>(toml::map::Map<K, V>);

#[verifier::external_type_specification]
#[verifier::external_body]
pub struct ExDecodeError(toml::de::Error);

#[verifier::external_type_specification]
#[verifier::external_body]
pub struct ExEncodeError(toml::ser::Error);

/// The tree that a value of the `toml` crate stands for.
pub uninterp spec fn shape(value: toml::Value) -> Node;

/// The entries of a table of the `toml` crate, in its order.
pub uninterp spec fn entries(table: toml::map::Map<String, toml::Value>) -> Seq<(Seq<char>, Node)>;

/// The tree that `toml::from_str` reads from a text, where it accepts it.
pub uninterp spec fn parsed(text: Seq<char>) -> Option<Node>;

/// The text that `toml::to_string` writes for a tree, where it can.
pub uninterp spec fn rendered(node: Node) -> Option<Seq<char>>;

/// The sequence without entries.
pub open spec fn no_entries() -> Seq<(Seq<char>, Node)> {
    Seq::empty()
}

/// `toml::map::Map::new`: a table without entries.
#[verifier::external_body]
pub(crate) fn table_new() -> (table: toml::map::Map<String, toml::Value>)
    ensures
        entries(table) == no_entries(),
{
    toml::map::Map::new()
}

/// `toml::map::Map::insert`, on the order-preserving map: a key that is
/// present keeps its place and gets the new value, a new key goes to the end.
#[verifier::external_body]
pub(crate) fn table_insert(
    table: &mut toml::map::Map<String, toml::Value>,
    key: String,
    value: toml::Value,
)
    ensures
        entries(*final(table)) == put(entries(*old(table)), key@, shape(value)),
{
    table.insert(key, value);
}

/// `toml::map::Map::get`: the value under `key`, if the table has the key.
#[verifier::external_body]
pub(crate) fn table_get<'a>(table: &'a toml::map::Map<String, toml::Value>, key: &str) -> (value:
    Option<&'a toml::Value>)
    ensures
        match value {
            Some(v) => find(entries(*table), key@) == Some(shape(*v)),
            None => find(entries(*table), key@).is_none(),
        },
{
    table.get(key)
}

/// `toml::map::Map::is_empty`: whether the table has no entry.
#[verifier::external_body]
pub(crate) fn table_is_empty(table: &toml::map::Map<String, toml::Value>) -> (empty: bool)
    ensures
        empty == (entries(*table).len() == 0),
{
    table.is_empty()
}

/// `toml::map::Map::keys`: the keys of the table in its order, each once.
#[verifier::external_body]
pub(crate) fn table_keys(table: &toml::map::Map<String, toml::Value>) -> (keys: Vec<String>)
    ensures
        keys@.len() == entries(*table).len(),
        forall|i: int| 0 <= i < keys@.len() ==> (#[trigger] keys@[i])@ == entries(*table)[i].0,
        forall|i: int, j: int|
            0 <= i < j < keys@.len() ==> (#[trigger] keys@[i])@ != (#[trigger] keys@[j])@,
{
    table.keys().cloned().collect()
}

/// `toml::Value::as_str`: the text of a string, nothing for any other value.
#[verifier::external_body]
pub(crate) fn value_as_str(value: &toml::Value) -> (text: Option<&str>)
    ensures
        match text {
            Some(s) => shape(*value).text() == Some(s@),
            None => shape(*value).text().is_none(),
        },
{
    value.as_str()
}

/// `toml::Value::as_bool`: the truth value of a boolean, nothing for any
/// other value.
#[verifier::external_body]
pub(crate) fn value_as_bool(value: &toml::Value) -> (flag: Option<bool>)
    ensures
        flag == shape(*value).flag(),
{
    value.as_bool()
}

/// `toml::Value::as_table`: the table inside a table value, nothing for any
/// other value.
#[verifier::external_body]
pub(crate) fn value_as_table(value: &toml::Value) -> (table: Option<
    &toml::map::Map<String, toml::Value>,
>)
    ensures
        match table {
            Some(t) => shape(*value).fields() == Some(entries(*t)),
            None => shape(*value).fields().is_none(),
        },
{
    value.as_table()
}

/// `toml::Value::as_array`: the elements of an array value, nothing for any
/// other value.
#[verifier::external_body]
pub(crate) fn value_as_array(value: &toml::Value) -> (items: Option<&Vec<toml::Value>>)
    ensures
        match items {
            Some(found) => shape(*value).items() == Some(shapes(found@)),
            None => shape(*value).items().is_none(),
        },
{
    value.as_array()
}

/// `toml::Value::clone`: a value that stands for the same tree.
#[verifier::external_body]
pub(crate) fn value_clone(value: &toml::Value) -> (copy: toml::Value)
    ensures
        shape(copy) == shape(*value),
{
    value.clone()
}

/// `toml::Value::String`: the string value with this text.
#[verifier::external_body]
pub(crate) fn value_from_text(text: String) -> (value: toml::Value)
    ensures
        shape(value) == Node::Text(text@),
{
    toml::Value::String(text)
}

/// `toml::Value::Boolean`: the boolean value with this truth value.
#[verifier::external_body]
pub(crate) fn value_from_flag(flag: bool) -> (value: toml::Value)
    ensures
        shape(value) == Node::Boolean(flag),
{
    toml::Value::Boolean(flag)
}

/// `toml::Value::Table`: the table value with the entries of `table`.
#[verifier::external_body]
pub(crate) fn value_from_table(table: toml::map::Map<String, toml::Value>) -> (value: toml::Value)
    ensures
        shape(value) == Node::Table(entries(table)),
{
    toml::Value::Table(table)
}

/// The trees that a sequence of values stands for, one by one.
pub open spec fn shapes(values: Seq<toml::Value>) -> Seq<Node> {
    Seq::new(values.len(), |i: int| shape(values[i]))
}

/// `toml::Value::Array`: the array value with these elements.
#[verifier::external_body]
pub(crate) fn value_from_array(items: Vec<toml::Value>) -> (value: toml::Value)
    ensures
        shape(value) == Node::Array(shapes(items@)),
{
    toml::Value::Array(items)
}

/// `toml::from_str`, reading a whole document into a value: it either
/// refuses the text or gives the value that stands for the tree of the text.
///
/// The crate's reader calls itself once for every array and inline table
/// that is open and once for every segment of a table header or dotted key,
/// and has no bound of its own on that, so a text that nests deep enough
/// exhausts the stack. The text must therefore not weigh more than the
/// limit. Of a text of the weight `w` the reader has at most `w` arrays and
/// inline tables open, under at most `w + 1` segments of a table header and
/// `w + 1` segments of keys.
#[verifier::external_body]
pub(crate) fn parse_document(text: &str) -> (outcome: Result<toml::Value, toml::de::Error>)
    requires
        crate::nesting::weight(text@) <= crate::nesting::NESTING_LIMIT,
    ensures
        match outcome {
            Ok(value) => parsed(text@) == Some(shape(value)),
            Err(_) => parsed(text@).is_none(),
        },
{
    toml::from_str::<toml::Value>(text)
}

/// `toml::to_string`, writing a value as a document: it either fails or
/// gives the text of the tree that the value stands for.
#[verifier::external_body]
pub(crate) fn render_document(value: &toml::Value) -> (outcome: Result<String, toml::ser::Error>)
    ensures
        match outcome {
            Ok(text) => rendered(shape(*value)) == Some(text@),
            Err(_) => rendered(shape(*value)).is_none(),
        },
{
    toml::to_string(value)
}

/// The `Display` text of `toml::de::Error`: what the `toml` crate says of a
/// text that it refused. Nothing is claimed of it.
#[verifier::external_body]
pub(crate) fn decode_error_text(error: &toml::de::Error) -> (text: String) {
    error.to_string()
}

/// The `Display` text of `toml::ser::Error`: what the `toml` crate says of a
/// document that it could not write. Two kinds of the error, which the crate
/// keeps but never gives, have no such text: for them nothing comes back.
/// Nothing is claimed of the text.
#[verifier::external_body]
pub(crate) fn encode_error_text(error: &toml::ser::Error) -> (text: Option<String>) {
    match error {
        toml::ser::Error::KeyNewline => None,
        toml::ser::Error::ArrayMixedType => None,
        shown => Some(shown.to_string()),
    }
}

} // verus!
