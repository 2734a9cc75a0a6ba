//! The open-ended table that a layer or a dependency carries along.

use vstd::prelude::*;
use vstd::string::*;
use crate::assoc::{distinct, find, put, lemma_put_distinct, lemma_find_none};
use crate::document::{
    Node, entries, no_entries, shape, table_get, table_insert, table_is_empty, table_keys,
    table_new, value_clone, value_from_table,
};

verus! {

/// A table of TOML values under text keys, in the order in which the keys
/// arrived.
#[derive(Debug)]
pub struct Metadata {
    table: toml::map::Map<String, toml::Value>,
}

impl View for Metadata {
    type V = Seq<(Seq<char>, Node)>;

    closed spec fn view(&self) -> Seq<(Seq<char>, Node)> {
        entries(self.table)
    }
}

impl Metadata {
    #[verifier::type_invariant]
    spec fn well_formed(&self) -> bool {
        distinct(entries(self.table))
    }

    /// The table without entries.
    pub fn new() -> (metadata: Self)
        ensures
            metadata@ == no_entries(),
    {
        Metadata { table: table_new() }
    }

    /// Stores `value` under `key`, in place of what was there.
    pub fn insert(&mut self, key: &str, value: toml::Value)
        ensures
            final(self)@ == put(old(self)@, key@, shape(value)),
            distinct(final(self)@),
    {
        proof {
            use_type_invariant(&*self);
            lemma_put_distinct(self@, key@, shape(value));
        }
        let mut table = table_new();
        std::mem::swap(&mut table, &mut self.table);
        table_insert(&mut table, key.to_owned(), value);
        self.table = table;
    }

    /// The value under `key`.
    pub fn get(&self, key: &str) -> (value: Option<&toml::Value>)
        ensures
            distinct(self@),
            match value {
                Some(v) => find(self@, key@) == Some(shape(*v)),
                None => find(self@, key@).is_none(),
            },
    {
        proof {
            use_type_invariant(self);
        }
        table_get(&self.table, key)
    }

    /// Whether the table has no entry.
    pub fn is_empty(&self) -> (empty: bool)
        ensures
            empty == (self@.len() == 0),
    {
        table_is_empty(&self.table)
    }

    /// The table with the entries of `table`, copied one by one.
    pub fn from_table(table: &toml::map::Map<String, toml::Value>) -> (metadata: Self)
        ensures
            metadata@ == entries(*table),
    {
        let mut copy = table_new();
        let keys = table_keys(table);
        let ghost source = entries(*table);
        assert(distinct(source)) by {
            assert forall|i: int, j: int| 0 <= i < j < source.len() implies (#[trigger] source[i]).0
                != (#[trigger] source[j]).0 by {
                assert(keys@[i]@ != keys@[j]@);
            }
        }
        let mut i: usize = 0;
        while i < keys.len()
            invariant
                source == entries(*table),
                distinct(source),
                keys@.len() == source.len(),
                forall|j: int| 0 <= j < keys@.len() ==> (#[trigger] keys@[j])@ == source[j].0,
                i <= keys@.len(),
                entries(copy) == source.take(i as int),
            decreases keys@.len() - i,
        {
            let key = &keys[i];
            proof {
                crate::assoc::lemma_find_at(source, i as int);
            }
            let value = table_get(table, key.as_str()).unwrap();
            proof {
                let before = source.take(i as int);
                assert forall|j: int| 0 <= j < before.len() implies (#[trigger] before[j]).0
                    != key@ by {
                    assert(source[j].0 != source[i as int].0);
                }
                lemma_find_none(before, key@);
                assert(put(before, key@, shape(*value)) =~= source.take(i + 1));
            }
            table_insert(&mut copy, key.clone(), value_clone(value));
            i += 1;
        }
        proof {
            assert(source.take(source.len() as int) =~= source);
        }
        Metadata { table: copy }
    }

    /// This table as a TOML value.
    pub fn to_value(&self) -> (value: toml::Value)
        ensures
            shape(value) == Node::Table(self@),
    {
        let copy = Metadata::from_table(&self.table);
        value_from_table(copy.table)
    }
}

} // verus!
