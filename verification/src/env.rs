//! A store of environment variables: values under names, the values kept as
//! raw bytes so that one that is not Unicode text can still be held.

use vstd::prelude::*;
use vstd::string::*;
use vstd::utf8::*;
use crate::assoc::{distinct, find, put, map_values, lemma_map_values};
use crate::dict::Dict;
use crate::text::{copy_bytes, text_from_utf8};

verus! {

/// Why a variable could not be read as text.
#[derive(Debug, PartialEq, Eq)]
pub enum VarError {
    /// No variable of that name is set.
    NotPresent,
    /// The variable is set, to these bytes, which are not valid Unicode.
    NotUnicode(Vec<u8>),
}

/// What a lookup that failed says about the store: `value` is what the store
/// holds under the name.
pub open spec fn explains(error: VarError, value: Option<Seq<u8>>) -> bool {
    match error {
        VarError::NotPresent => value.is_none(),
        VarError::NotUnicode(raw) => value == Some(raw@) && !valid_utf8(raw@),
    }
}

/// Variables by name, in the order in which the names were first set.
#[derive(Debug)]
pub struct Env {
    vars: Dict<Vec<u8>>,
}

impl View for Env {
    type V = Seq<(Seq<char>, Seq<u8>)>;

    closed spec fn view(&self) -> Seq<(Seq<char>, Seq<u8>)> {
        map_values(self.vars@, |bytes: Vec<u8>| bytes@)
    }
}

impl Env {
    /// The store without variables.
    pub fn new() -> (env: Self)
        ensures
            env@ == Seq::<(Seq<char>, Seq<u8>)>::empty(),
    {
        let env = Env { vars: Dict::new() };
        assert(env@ =~= Seq::<(Seq<char>, Seq<u8>)>::empty());
        env
    }

    /// Sets `key` to the bytes `value`.
    pub fn set_var_os(&mut self, key: &str, value: Vec<u8>)
        ensures
            final(self)@ == put(old(self)@, key@, value@),
            distinct(final(self)@),
    {
        self.vars.insert(key.to_owned(), value);
        proof {
            let f = |bytes: Vec<u8>| bytes@;
            lemma_map_values(old(self).vars@, f, key@);
            lemma_map_values(self.vars@, f, key@);
        }
    }

    /// Sets `key` to the text `value`.
    pub fn set_var(&mut self, key: &str, value: &str)
        ensures
            final(self)@ == put(old(self)@, key@, encode_utf8(value@)),
            distinct(final(self)@),
    {
        self.set_var_os(key, value.as_bytes_vec());
    }

    /// The bytes that `key` is set to.
    pub fn var_os(&self, key: &str) -> (value: Option<Vec<u8>>)
        ensures
            distinct(self@),
            match value {
                Some(bytes) => find(self@, key@) == Some(bytes@),
                None => find(self@, key@).is_none(),
            },
    {
        let found = self.vars.get(key);
        proof {
            lemma_map_values(self.vars@, |bytes: Vec<u8>| bytes@, key@);
        }
        match found {
            Some(bytes) => Some(copy_bytes(bytes)),
            None => None,
        }
    }

    /// The text that `key` is set to. Fails when `key` is not set, and when
    /// its value is not valid Unicode.
    pub fn var(&self, key: &str) -> (value: Result<String, VarError>)
        ensures
            match value {
                Ok(text) => find(self@, key@) == Some(encode_utf8(text@)),
                Err(error) => explains(error, find(self@, key@)),
            },
    {
        match self.var_os(key) {
            None => Err(VarError::NotPresent),
            Some(bytes) => {
                let ghost raw = bytes@;
                match text_from_utf8(bytes) {
                    Ok(text) => {
                        proof {
                            decode_utf8_encode_utf8(raw);
                        }
                        Ok(text)
                    },
                    Err(raw) => Err(VarError::NotUnicode(raw)),
                }
            },
        }
    }

    /// The number of variables.
    pub fn len(&self) -> (n: usize)
        ensures
            n == self@.len(),
            distinct(self@),
    {
        let n = self.vars.len();
        proof {
            lemma_map_values(self.vars@, |bytes: Vec<u8>| bytes@, Seq::empty());
        }
        n
    }

    /// Whether no variable is set.
    pub fn is_empty(&self) -> (empty: bool)
        ensures
            empty == (self@.len() == 0),
    {
        self.len() == 0
    }

    /// The name of the variable at position `i`.
    pub fn name_at(&self, i: usize) -> (name: &String)
        requires
            i < self@.len(),
        ensures
            name@ == self@[i as int].0,
    {
        self.vars.key_at(i)
    }

    /// The bytes of the variable at position `i`.
    pub fn value_at(&self, i: usize) -> (value: &Vec<u8>)
        requires
            i < self@.len(),
        ensures
            value@ == self@[i as int].1,
    {
        self.vars.value_at(i)
    }

    /// Every variable with its bytes, in the order of the store.
    pub fn vars(&self) -> (all: Vec<(String, Vec<u8>)>)
        ensures
            listing(all@) == self@,
    {
        let mut all: Vec<(String, Vec<u8>)> = Vec::new();
        let n = self.len();
        let mut i: usize = 0;
        while i < n
            invariant
                n == self@.len(),
                i <= n,
                all@.len() == i,
                listing(all@) == self@.take(i as int),
            decreases n - i,
        {
            let name = self.name_at(i).clone();
            let value = copy_bytes(self.value_at(i));
            let ghost before = all@;
            all.push((name, value));
            proof {
                assert forall|j: int| 0 <= j < i + 1 implies listing(all@)[j] == self@.take(
                    i + 1,
                )[j] by {
                    if j < i {
                        assert(all@[j] == before[j]);
                        assert(listing(before)[j] == self@.take(i as int)[j]);
                    }
                }
                assert(listing(all@) =~= self@.take(i + 1));
            }
            i += 1;
        }
        proof {
            assert(self@.take(n as int) =~= self@);
        }
        all
    }

    /// Removes every variable.
    pub fn clear(&mut self)
        ensures
            final(self)@ == Seq::<(Seq<char>, Seq<u8>)>::empty(),
    {
        self.vars.clear();
        assert(self@ =~= Seq::<(Seq<char>, Seq<u8>)>::empty());
    }
}

/// What a vector of names and bytes lists.
pub open spec fn listing(all: Seq<(String, Vec<u8>)>) -> Seq<(Seq<char>, Seq<u8>)> {
    Seq::new(all.len(), |i: int| (all[i].0@, all[i].1@))
}

} // verus!
