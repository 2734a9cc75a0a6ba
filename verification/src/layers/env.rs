//! The environment variables of a layer and the files that carry them.
//!
//! A layer changes a variable in one of three ways, and says so by the name of
//! the file that holds the value: `KEY.append` appends to the variable,
//! `KEY.override` replaces it, and plain `KEY` puts the value in front of a
//! search path.

use vstd::prelude::*;
use vstd::string::*;
use crate::assoc::{distinct, find, holds, put};
use crate::env::{Env, listing};
use crate::text::{ends_with, without_last, same_text, strip_suffix, copy_bytes};

verus! {

/// The three ways in which a layer changes a variable.
#[derive(Debug, Clone, Copy, PartialEq, Eq, Structural)]
pub enum Slot {
    /// The value is appended to the variable.
    Append,
    /// The value replaces the variable.
    Override,
    /// The value is put in front of the variable, which is a search path.
    AppendPath,
}

/// What the three stores of a set hold.
pub struct EnvSetModel {
    pub append: Seq<(Seq<char>, Seq<u8>)>,
    pub override_: Seq<(Seq<char>, Seq<u8>)>,
    pub append_path: Seq<(Seq<char>, Seq<u8>)>,
}

/// The set whose three stores are empty.
pub open spec fn empty_set() -> EnvSetModel {
    EnvSetModel { append: Seq::empty(), override_: Seq::empty(), append_path: Seq::empty() }
}

/// Whether `key` can name a variable read from a file: it is not empty and
/// not one of the two names that stand for a directory.
pub open spec fn usable(key: Seq<char>) -> bool {
    key.len() > 0 && key != "."@ && key != ".."@
}

/// The store and the variable that a file name stands for, if any.
pub open spec fn classify(name: Seq<char>) -> Option<(Slot, Seq<char>)> {
    if ends_with(name, ".append"@) {
        let key = without_last(name, ".append"@.len());
        if usable(key) {
            Some((Slot::Append, key))
        } else {
            None
        }
    } else if ends_with(name, ".override"@) {
        let key = without_last(name, ".override"@.len());
        if usable(key) {
            Some((Slot::Override, key))
        } else {
            None
        }
    } else if usable(name) {
        Some((Slot::AppendPath, name))
    } else {
        None
    }
}

/// `set` after the file `name` with the content `value` was read into it: a
/// name that stands for no variable changes nothing.
pub open spec fn place(set: EnvSetModel, name: Seq<char>, value: Seq<u8>) -> EnvSetModel {
    match classify(name) {
        None => set,
        Some((Slot::Append, key)) => EnvSetModel { append: put(set.append, key, value), ..set },
        Some((Slot::Override, key)) => EnvSetModel {
            override_: put(set.override_, key, value),
            ..set
        },
        Some((Slot::AppendPath, key)) => EnvSetModel {
            append_path: put(set.append_path, key, value),
            ..set
        },
    }
}

/// `set` after the files `files` were read into it, one after the other.
pub open spec fn place_all(set: EnvSetModel, files: Seq<(Seq<char>, Seq<u8>)>) -> EnvSetModel
    decreases files.len(),
{
    if files.len() == 0 {
        set
    } else {
        place(place_all(set, files.drop_last()), files.last().0, files.last().1)
    }
}

/// The files of one store: every variable under its name followed by
/// `suffix`.
pub open spec fn named(pairs: Seq<(Seq<char>, Seq<u8>)>, suffix: Seq<char>) -> Seq<
    (Seq<char>, Seq<u8>),
> {
    Seq::new(pairs.len(), |i: int| (pairs[i].0 + suffix, pairs[i].1))
}

/// The files that carry `set`: those of the search-path store, then those of
/// the append store, then those of the override store.
pub open spec fn files_of(set: EnvSetModel) -> Seq<(Seq<char>, Seq<u8>)> {
    named(set.append_path, Seq::empty()) + named(set.append, ".append"@) + named(
        set.override_,
        ".override"@,
    )
}

/// The store and the variable that the file name `name` stands for, if any.
pub fn classify_name(name: &str) -> (found: Option<(Slot, String)>)
    ensures
        match found {
            Some((slot, key)) => classify(name@) == Some((slot, key@)),
            None => classify(name@).is_none(),
        },
{
    let (slot, key) = match strip_suffix(name, ".append") {
        Some(key) => (Slot::Append, key),
        None => match strip_suffix(name, ".override") {
            Some(key) => (Slot::Override, key),
            None => (Slot::AppendPath, name),
        },
    };
    if key.unicode_len() == 0 || same_text(key, ".") || same_text(key, "..") {
        None
    } else {
        Some((slot, key.to_owned()))
    }
}

/// Adds to `files` the files of the store `env`: every variable under its
/// name followed by `suffix`.
fn push_named(files: &mut Vec<(String, Vec<u8>)>, env: &Env, suffix: &str)
    ensures
        listing(final(files)@) == listing(old(files)@) + named(env@, suffix@),
{
    let n = env.len();
    let ghost before = listing(files@);
    let mut i: usize = 0;
    proof {
        assert(listing(files@) =~= before + named(env@, suffix@).take(0));
    }
    while i < n
        invariant
            n == env@.len(),
            i <= n,
            listing(files@) == before + named(env@, suffix@).take(i as int),
        decreases n - i,
    {
        let name = env.name_at(i).clone().concat(suffix);
        let value = copy_bytes(env.value_at(i));
        let ghost earlier = files@;
        files.push((name, value));
        proof {
            let target = before + named(env@, suffix@).take(i + 1);
            assert(listing(earlier).len() == before.len() + i);
            assert forall|j: int| 0 <= j < target.len() implies listing(files@)[j] == target[j] by {
                if j < earlier.len() {
                    assert(files@[j] == earlier[j]);
                    assert(listing(earlier)[j] == (before + named(env@, suffix@).take(i as int))[j]);
                }
            }
            assert(listing(files@) =~= target);
        }
        i += 1;
    }
    proof {
        assert(named(env@, suffix@).take(n as int) =~= named(env@, suffix@));
    }
}

/// The three stores that say how a layer changes its variables.
#[derive(Debug)]
pub struct EnvSet {
    pub append: Env,
    pub override_: Env,
    pub append_path: Env,
}

impl View for EnvSet {
    type V = EnvSetModel;

    open spec fn view(&self) -> EnvSetModel {
        EnvSetModel {
            append: self.append@,
            override_: self.override_@,
            append_path: self.append_path@,
        }
    }
}

impl EnvSet {
    /// The set whose three stores are empty.
    pub fn new() -> (set: Self)
        ensures
            set@ == empty_set(),
    {
        EnvSet { append: Env::new(), override_: Env::new(), append_path: Env::new() }
    }

    /// Empties the three stores.
    pub fn clear(&mut self)
        ensures
            final(self)@ == empty_set(),
    {
        self.append.clear();
        self.override_.clear();
        self.append_path.clear();
    }

    /// Reads the file `name` with the content `value` into the store that the
    /// name stands for. A name that stands for no variable is passed over.
    pub fn load_file(&mut self, name: &str, value: Vec<u8>)
        ensures
            final(self)@ == place(old(self)@, name@, value@),
    {
        match classify_name(name) {
            None => {},
            Some((slot, key)) => {
                match slot {
                    Slot::Append => {
                        self.append.set_var_os(key.as_str(), value);
                    },
                    Slot::Override => {
                        self.override_.set_var_os(key.as_str(), value);
                    },
                    Slot::AppendPath => {
                        self.append_path.set_var_os(key.as_str(), value);
                    },
                }
            },
        }
    }

    /// The files that carry this set, each with its name and content: those
    /// of the search-path store, then those of the append store, then those
    /// of the override store.
    pub fn files(&self) -> (files: Vec<(String, Vec<u8>)>)
        ensures
            listing(files@) == files_of(self@),
    {
        let mut files: Vec<(String, Vec<u8>)> = Vec::new();
        proof {
            reveal_strlit("");
            assert(""@ =~= Seq::<char>::empty());
            assert(listing(files@) =~= Seq::<(Seq<char>, Seq<u8>)>::empty());
        }
        push_named(&mut files, &self.append_path, "");
        push_named(&mut files, &self.append, ".append");
        push_named(&mut files, &self.override_, ".override");
        proof {
            assert(listing(files@) =~= files_of(self@));
        }
        files
    }

    /// Empties the three stores and reads the files `files` into them, one
    /// after the other.
    pub fn load(&mut self, files: &Vec<(String, Vec<u8>)>)
        ensures
            final(self)@ == place_all(empty_set(), listing(files@)),
    {
        self.clear();
        let mut i: usize = 0;
        while i < files.len()
            invariant
                i <= files@.len(),
                self@ == place_all(empty_set(), listing(files@).take(i as int)),
            decreases files@.len() - i,
        {
            proof {
                let first = listing(files@).take(i + 1);
                assert(first.drop_last() =~= listing(files@).take(i as int));
                assert(first.last() == (files@[i as int].0@, files@[i as int].1@));
            }
            self.load_file(files[i].0.as_str(), copy_bytes(&files[i].1));
            i += 1;
        }
        proof {
            assert(listing(files@).take(files@.len() as int) =~= listing(files@));
        }
    }
}

/// The three sets of a layer: what holds while building, what holds at
/// launch, and what holds in both.
#[derive(Debug)]
pub struct Envs {
    pub build: EnvSet,
    pub launch: EnvSet,
    pub shared: EnvSet,
}

impl Envs {
    /// The three sets, all empty.
    pub fn new() -> (envs: Self)
        ensures
            envs.build@ == empty_set(),
            envs.launch@ == empty_set(),
            envs.shared@ == empty_set(),
    {
        Envs { build: EnvSet::new(), launch: EnvSet::new(), shared: EnvSet::new() }
    }
}

/// Whether `key` is not empty and holds no dot.
pub open spec fn plain(key: Seq<char>) -> bool {
    key.len() > 0 && forall|i: int| 0 <= i < key.len() ==> key[i] != '.'
}

/// Whether every key of `pairs` is plain.
pub open spec fn plain_keys(pairs: Seq<(Seq<char>, Seq<u8>)>) -> bool {
    forall|i: int| 0 <= i < pairs.len() ==> plain((#[trigger] pairs[i]).0)
}

/// The suffix by which a file name says that it belongs to the store `slot`.
pub open spec fn suffix_of(slot: Slot) -> Seq<char> {
    match slot {
        Slot::Append => ".append"@,
        Slot::Override => ".override"@,
        Slot::AppendPath => Seq::empty(),
    }
}

/// The store `slot` of `set`.
pub open spec fn store(set: EnvSetModel, slot: Slot) -> Seq<(Seq<char>, Seq<u8>)> {
    match slot {
        Slot::Append => set.append,
        Slot::Override => set.override_,
        Slot::AppendPath => set.append_path,
    }
}

/// `set` with `pairs` as its store `slot`.
pub open spec fn with_store(
    set: EnvSetModel,
    slot: Slot,
    pairs: Seq<(Seq<char>, Seq<u8>)>,
) -> EnvSetModel {
    match slot {
        Slot::Append => EnvSetModel { append: pairs, ..set },
        Slot::Override => EnvSetModel { override_: pairs, ..set },
        Slot::AppendPath => EnvSetModel { append_path: pairs, ..set },
    }
}

/// A plain key followed by the suffix of a store is a file name that stands
/// for that key in that store.
pub proof fn lemma_classify_named(key: Seq<char>, slot: Slot)
    requires
        plain(key),
    ensures
        classify(key + suffix_of(slot)) == Some((slot, key)),
{
    reveal_strlit(".append");
    reveal_strlit(".override");
    reveal_strlit(".");
    reveal_strlit("..");
    let a = ".append"@;
    let o = ".override"@;
    assert(a.len() == 7 && a[0] == '.');
    assert(o.len() == 9 && o[0] == '.' && o[2] == 'v');
    assert("."@.len() == 1 && "."@[0] == '.');
    assert(".."@.len() == 2 && ".."@[0] == '.');
    assert(usable(key)) by {
        assert(key[0] != '.');
    }
    let name = key + suffix_of(slot);
    match slot {
        Slot::AppendPath => {
            assert(name =~= key);
            if ends_with(key, a) {
                assert(key.subrange(key.len() - 7, key.len() as int)[0] == a[0]);
            }
            if ends_with(key, o) {
                assert(key.subrange(key.len() - 9, key.len() as int)[0] == o[0]);
            }
        },
        Slot::Append => {
            assert(name.subrange(name.len() - 7, name.len() as int) =~= a);
            assert(without_last(name, a.len()) =~= key);
        },
        Slot::Override => {
            if ends_with(name, a) {
                assert(name.subrange(name.len() - 7, name.len() as int)[0] == a[0]);
                assert(name[name.len() - 7] == o[2]);
            }
            assert(name.subrange(name.len() - 9, name.len() as int) =~= o);
            assert(without_last(name, o.len()) =~= key);
        },
    }
}

/// Reading files one after the other reads a first part and then the rest.
pub proof fn lemma_place_all_split(
    set: EnvSetModel,
    first: Seq<(Seq<char>, Seq<u8>)>,
    rest: Seq<(Seq<char>, Seq<u8>)>,
)
    ensures
        place_all(set, first + rest) == place_all(place_all(set, first), rest),
    decreases rest.len(),
{
    if rest.len() == 0 {
        assert(first + rest =~= first);
    } else {
        assert((first + rest).drop_last() =~= first + rest.drop_last());
        assert((first + rest).last() == rest.last());
        lemma_place_all_split(set, first, rest.drop_last());
    }
}

/// Reading the files of one store into a set whose store of that kind is
/// empty fills that store with what the files were written from, and leaves
/// the two others as they are.
pub proof fn lemma_place_named(set: EnvSetModel, slot: Slot, pairs: Seq<(Seq<char>, Seq<u8>)>)
    requires
        distinct(pairs),
        plain_keys(pairs),
        store(set, slot).len() == 0,
    ensures
        place_all(set, named(pairs, suffix_of(slot))) == with_store(set, slot, pairs),
    decreases pairs.len(),
{
    let files = named(pairs, suffix_of(slot));
    if pairs.len() == 0 {
        assert(store(set, slot) =~= pairs);
        assert(with_store(set, slot, pairs) == set);
    } else {
        let shorter = pairs.drop_last();
        let last = pairs.last();
        assert(files.drop_last() =~= named(shorter, suffix_of(slot)));
        assert(distinct(shorter)) by {
            assert forall|i: int, j: int| 0 <= i < j < shorter.len() implies (
            #[trigger] shorter[i]).0 != (#[trigger] shorter[j]).0 by {
                assert(pairs[i].0 != pairs[j].0);
            }
        }
        assert(plain_keys(shorter)) by {
            assert forall|i: int| 0 <= i < shorter.len() implies plain((#[trigger] shorter[i]).0) by {
                assert(plain(pairs[i].0));
            }
        }
        lemma_place_named(set, slot, shorter);
        assert(plain(pairs[pairs.len() - 1].0));
        lemma_classify_named(last.0, slot);
        assert forall|i: int| 0 <= i < shorter.len() implies (#[trigger] shorter[i]).0
            != last.0 by {
            assert(pairs[i].0 != pairs[pairs.len() - 1].0);
        }
        crate::assoc::lemma_find_none(shorter, last.0);
        assert(put(shorter, last.0, last.1) =~= pairs);
        assert(files.last() == (last.0 + suffix_of(slot), last.1));
    }
}

/// Reading back the files that carry a set gives that set again, store by
/// store and in the same order, as long as every variable name is plain: not
/// empty and without a dot.
pub proof fn lemma_files_read_back(set: EnvSetModel)
    requires
        valid(set),
        plain_keys(set.append),
        plain_keys(set.override_),
        plain_keys(set.append_path),
    ensures
        place_all(empty_set(), files_of(set)) == set,
{
    let a = named(set.append_path, suffix_of(Slot::AppendPath));
    let b = named(set.append, suffix_of(Slot::Append));
    let c = named(set.override_, suffix_of(Slot::Override));
    let one = with_store(empty_set(), Slot::AppendPath, set.append_path);
    let two = with_store(one, Slot::Append, set.append);
    lemma_place_named(empty_set(), Slot::AppendPath, set.append_path);
    lemma_place_named(one, Slot::Append, set.append);
    lemma_place_named(two, Slot::Override, set.override_);
    lemma_place_all_split(empty_set(), a + b, c);
    lemma_place_all_split(empty_set(), a, b);
    assert(files_of(set) == a + b + c);
}

/// The position of the last of `files` whose name stands for `key` in the
/// store `slot`, or -1 where none does.
pub open spec fn last_for(files: Seq<(Seq<char>, Seq<u8>)>, slot: Slot, key: Seq<char>) -> int
    decreases files.len(),
{
    if files.len() == 0 {
        -1
    } else if classify(files.last().0) == Some((slot, key)) {
        files.len() - 1
    } else {
        last_for(files.drop_last(), slot, key)
    }
}

/// The last file for a key is one of the files and stands for the key, and
/// no file after it does.
pub proof fn lemma_last_for(files: Seq<(Seq<char>, Seq<u8>)>, slot: Slot, key: Seq<char>)
    ensures
        -1 <= last_for(files, slot, key) < files.len(),
        last_for(files, slot, key) >= 0 ==> classify(files[last_for(files, slot, key)].0) == Some(
            (slot, key),
        ),
        forall|i: int|
            last_for(files, slot, key) < i < files.len() ==> classify((#[trigger] files[i]).0)
                != Some((slot, key)),
    decreases files.len(),
{
    if files.len() > 0 && classify(files.last().0) != Some((slot, key)) {
        lemma_last_for(files.drop_last(), slot, key);
        assert forall|i: int| last_for(files, slot, key) < i < files.len() implies classify(
            (#[trigger] files[i]).0,
        ) != Some((slot, key)) by {
            if i < files.len() - 1 {
                assert(files.drop_last()[i] == files[i]);
            }
        }
    }
}

/// Whether the three stores of `set` hold no key twice.
pub open spec fn valid(set: EnvSetModel) -> bool {
    distinct(set.append) && distinct(set.override_) && distinct(set.append_path)
}

/// After files were read into a set, a key of a store finds the content of
/// the last file that stands for it, and what it found before where no file
/// does.
pub proof fn lemma_place_all_finds(
    set: EnvSetModel,
    files: Seq<(Seq<char>, Seq<u8>)>,
    slot: Slot,
    key: Seq<char>,
)
    requires
        valid(set),
    ensures
        valid(place_all(set, files)),
        find(store(place_all(set, files), slot), key) == if last_for(files, slot, key) >= 0 {
            Some(files[last_for(files, slot, key)].1)
        } else {
            find(store(set, slot), key)
        },
    decreases files.len(),
{
    if files.len() > 0 {
        let before = place_all(set, files.drop_last());
        let name = files.last().0;
        let value = files.last().1;
        lemma_place_all_finds(set, files.drop_last(), slot, key);
        lemma_last_for(files.drop_last(), slot, key);
        if last_for(files.drop_last(), slot, key) >= 0 {
            assert(files.drop_last()[last_for(files.drop_last(), slot, key)] == files[last_for(
                files.drop_last(),
                slot,
                key,
            )]);
        }
        match classify(name) {
            None => {},
            Some((to, under)) => {
                crate::assoc::lemma_put_distinct(store(before, to), under, value);
                crate::assoc::lemma_find_put(store(before, to), under, value, key);
            },
        }
    }
}

/// Whether two lists of files hold the same files, in whatever order.
pub open spec fn same_files(
    one: Seq<(Seq<char>, Seq<u8>)>,
    other: Seq<(Seq<char>, Seq<u8>)>,
) -> bool {
    forall|file: (Seq<char>, Seq<u8>)| one.contains(file) <==> other.contains(file)
}

/// A file among those that carry a set stands for a variable of the set, and
/// holds its value.
pub proof fn lemma_file_of_set(set: EnvSetModel, file: (Seq<char>, Seq<u8>))
    requires
        valid(set),
        plain_keys(set.append),
        plain_keys(set.override_),
        plain_keys(set.append_path),
        files_of(set).contains(file),
    ensures
        classify(file.0) is Some,
        find(store(set, classify(file.0)->Some_0.0), classify(file.0)->Some_0.1) == Some(file.1),
{
    let a = named(set.append_path, suffix_of(Slot::AppendPath));
    let b = named(set.append, suffix_of(Slot::Append));
    let c = named(set.override_, suffix_of(Slot::Override));
    let all = files_of(set);
    assert(all == a + b + c);
    let at = choose|i: int| 0 <= i < all.len() && all[i] == file;
    if at < a.len() {
        assert(all[at] == a[at]);
        assert(plain(set.append_path[at].0));
        lemma_classify_named(set.append_path[at].0, Slot::AppendPath);
        crate::assoc::lemma_find_at(set.append_path, at);
    } else if at < a.len() + b.len() {
        let j = at - a.len();
        assert(all[at] == b[j]);
        assert(plain(set.append[j].0));
        lemma_classify_named(set.append[j].0, Slot::Append);
        crate::assoc::lemma_find_at(set.append, j);
    } else {
        let j = at - a.len() - b.len();
        assert(all[at] == c[j]);
        assert(plain(set.override_[j].0));
        lemma_classify_named(set.override_[j].0, Slot::Override);
        crate::assoc::lemma_find_at(set.override_, j);
    }
}

/// A variable of a set has its file among those that carry the set.
pub proof fn lemma_set_has_file(set: EnvSetModel, slot: Slot, at: int)
    requires
        0 <= at < store(set, slot).len(),
    ensures
        files_of(set).contains(
            (store(set, slot)[at].0 + suffix_of(slot), store(set, slot)[at].1),
        ),
{
    let a = named(set.append_path, suffix_of(Slot::AppendPath));
    let b = named(set.append, suffix_of(Slot::Append));
    let c = named(set.override_, suffix_of(Slot::Override));
    let all = files_of(set);
    assert(all == a + b + c);
    match slot {
        Slot::AppendPath => {
            assert(all[at] == a[at]);
        },
        Slot::Append => {
            assert(all[a.len() + at] == b[at]);
        },
        Slot::Override => {
            assert(all[a.len() + b.len() + at] == c[at]);
        },
    }
}

/// Reading back the files that carry a set, in whatever order a directory
/// lists them, gives a set in which every key of every store finds what it
/// finds in the set that was written, as long as every variable name is
/// plain: not empty and without a dot.
pub proof fn lemma_files_read_back_in_any_order(
    set: EnvSetModel,
    files: Seq<(Seq<char>, Seq<u8>)>,
    slot: Slot,
    key: Seq<char>,
)
    requires
        valid(set),
        plain_keys(set.append),
        plain_keys(set.override_),
        plain_keys(set.append_path),
        same_files(files, files_of(set)),
    ensures
        valid(place_all(empty_set(), files)),
        find(store(place_all(empty_set(), files), slot), key) == find(store(set, slot), key),
{
    lemma_place_all_finds(empty_set(), files, slot, key);
    lemma_last_for(files, slot, key);
    let last = last_for(files, slot, key);
    if last >= 0 {
        assert(files.contains(files[last]));
        lemma_file_of_set(set, files[last]);
    } else {
        crate::assoc::lemma_find_none(store(empty_set(), slot), key);
        if holds(store(set, slot), key) {
            let at = crate::assoc::index_of(store(set, slot), key);
            let pair = store(set, slot)[at];
            let file = (pair.0 + suffix_of(slot), pair.1);
            lemma_set_has_file(set, slot, at);
            assert(plain(pair.0)) by {
                match slot {
                    Slot::Append => {
                        assert(plain(set.append[at].0));
                    },
                    Slot::Override => {
                        assert(plain(set.override_[at].0));
                    },
                    Slot::AppendPath => {
                        assert(plain(set.append_path[at].0));
                    },
                }
            }
            lemma_classify_named(pair.0, slot);
            assert(files.contains(file));
            let i = choose|i: int| 0 <= i < files.len() && files[i] == file;
            assert(classify(files[i].0) == Some((slot, key)));
        }
    }
}

} // verus!
