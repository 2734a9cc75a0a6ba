//! The platform: the environment variables that the caller of the buildpack
//! supplies, one file for each.

use vstd::prelude::*;
use vstd::string::*;
use crate::assoc::put;
use crate::env::{Env, listing};
use crate::layers::env::usable;
use crate::text::{copy_bytes, same_text};

verus! {

/// The position of the last dot of `name`, or -1 where it has none.
pub open spec fn last_dot(name: Seq<char>) -> int
    decreases name.len(),
{
    if name.len() == 0 {
        -1
    } else if name.last() == '.' {
        name.len() - 1
    } else {
        last_dot(name.drop_last())
    }
}

/// A file name without its extension: what stands before the last dot, and
/// the whole name where it has no dot or only starts with one.
pub open spec fn stem(name: Seq<char>) -> Seq<char> {
    if last_dot(name) <= 0 {
        name
    } else {
        name.take(last_dot(name))
    }
}

/// The variable that a file of the platform stands for, if any.
pub open spec fn variable_of(name: Seq<char>) -> Option<Seq<char>> {
    if usable(name) {
        Some(stem(name))
    } else {
        None
    }
}

/// The variables that the files of the platform give, read one after the
/// other: each file sets the variable that its name stands for to its content.
pub open spec fn gather(files: Seq<(Seq<char>, Seq<u8>)>) -> Seq<(Seq<char>, Seq<u8>)>
    decreases files.len(),
{
    if files.len() == 0 {
        Seq::empty()
    } else {
        match variable_of(files.last().0) {
            Some(key) => put(gather(files.drop_last()), key, files.last().1),
            None => gather(files.drop_last()),
        }
    }
}

/// The last dot is where `last_dot` says: a dot stands there and none
/// stands after it.
pub proof fn lemma_last_dot(name: Seq<char>)
    ensures
        -1 <= last_dot(name) < name.len(),
        last_dot(name) >= 0 ==> name[last_dot(name)] == '.',
        forall|i: int| last_dot(name) < i < name.len() ==> name[i] != '.',
    decreases name.len(),
{
    if name.len() > 0 && name.last() != '.' {
        lemma_last_dot(name.drop_last());
        assert forall|i: int| last_dot(name) < i < name.len() implies name[i] != '.' by {
            if i < name.len() - 1 {
                assert(name.drop_last()[i] == name[i]);
            }
        }
    }
}

/// A position that holds a dot with no dot after it is the last dot.
pub proof fn lemma_last_dot_is(name: Seq<char>, at: int)
    requires
        -1 <= at < name.len(),
        at >= 0 ==> name[at] == '.',
        forall|i: int| at < i < name.len() ==> name[i] != '.',
    ensures
        last_dot(name) == at,
{
    lemma_last_dot(name);
}

/// The name of the variable that the file `name` stands for, if any.
pub fn variable_name(name: &str) -> (key: Option<String>)
    ensures
        match key {
            Some(k) => variable_of(name@) == Some(k@),
            None => variable_of(name@).is_none(),
        },
{
    let n = name.unicode_len();
    if n == 0 || same_text(name, ".") || same_text(name, "..") {
        return None;
    }
    let mut at: usize = n;
    while at > 0
        invariant
            usable(name@),
            n == name@.len(),
            at <= n,
            forall|i: int| at <= i < n ==> name@[i] != '.',
        decreases at,
    {
        if name.get_char(at - 1) == '.' {
            proof {
                lemma_last_dot_is(name@, at - 1);
            }
            if at - 1 == 0 {
                return Some(name.to_owned());
            }
            return Some(name.substring_char(0, at - 1).to_owned());
        }
        at -= 1;
    }
    proof {
        lemma_last_dot_is(name@, -1);
    }
    Some(name.to_owned())
}

/// What the platform supplies.
#[derive(Debug)]
pub struct Platform {
    pub env: Env,
}

impl Platform {
    /// The platform whose directory of variables holds `files`, each with
    /// its name and content, or does not exist: then the platform supplies no
    /// variable.
    pub fn new(files: Option<&Vec<(String, Vec<u8>)>>) -> (platform: Self)
        ensures
            platform.env@ == match files {
                Some(found) => gather(listing(found@)),
                None => Seq::empty(),
            },
    {
        let mut env = Env::new();
        match files {
            None => {},
            Some(found) => {
                let mut i: usize = 0;
                while i < found.len()
                    invariant
                        i <= found@.len(),
                        env@ == gather(listing(found@).take(i as int)),
                    decreases found@.len() - i,
                {
                    proof {
                        let first = listing(found@).take(i + 1);
                        assert(first.drop_last() =~= listing(found@).take(i as int));
                        assert(first.last() == (found@[i as int].0@, found@[i as int].1@));
                    }
                    match variable_name(found[i].0.as_str()) {
                        Some(key) => {
                            env.set_var_os(key.as_str(), copy_bytes(&found[i].1));
                        },
                        None => {},
                    }
                    i += 1;
                }
                proof {
                    assert(listing(found@).take(found@.len() as int) =~= listing(found@));
                }
            },
        }
        Platform { env }
    }
}

} // verus!
