//! The launch descriptor: the processes that can be started when the
//! application is launched, each a command under the name of its type.

use vstd::prelude::*;
use vstd::string::*;
use crate::assoc::{distinct, find, put, map_values, lemma_find_none, lemma_map_values};
use crate::dict::Dict;
use crate::document::{
    Node, entries, no_entries, rendered, shape, shapes, render_document, table_insert,
    table_new, value_from_array, value_from_table, value_from_text,
};
use crate::error::{BuildpackError, ErrorKind};

verus! {

/// The node that describes one process.
pub open spec fn process_node(kind: Seq<char>, command: Seq<char>) -> Node {
    Node::Table(seq![("type"@, Node::Text(kind)), ("command"@, Node::Text(command))])
}

/// The nodes that describe the processes `processes`, one by one.
pub open spec fn process_nodes(processes: Seq<(Seq<char>, Seq<char>)>) -> Seq<Node> {
    Seq::new(processes.len(), |i: int| process_node(processes[i].0, processes[i].1))
}

/// The document that describes a launch descriptor: the array `processes`
/// with one table for each process.
pub open spec fn launch_node(processes: Seq<(Seq<char>, Seq<char>)>) -> Node {
    Node::Table(seq![("processes"@, Node::Array(process_nodes(processes)))])
}

/// A process that can be started: a command under the name of its type.
#[derive(Debug)]
pub struct Process {
    kind: String,
    command: String,
}

impl View for Process {
    type V = (Seq<char>, Seq<char>);

    closed spec fn view(&self) -> (Seq<char>, Seq<char>) {
        (self.kind@, self.command@)
    }
}

impl Process {
    /// The process of the type `kind` that runs `command`.
    pub fn new(kind: &str, command: &str) -> (process: Self)
        ensures
            process@ == (kind@, command@),
    {
        Process { kind: kind.to_owned(), command: command.to_owned() }
    }

    /// The name of the type of this process.
    pub fn process_type(&self) -> (kind: &str)
        ensures
            kind@ == self@.0,
    {
        self.kind.as_str()
    }

    /// The command of this process.
    pub fn command(&self) -> (command: &str)
        ensures
            command@ == self@.1,
    {
        self.command.as_str()
    }

    /// The value that describes this process.
    pub fn to_value(&self) -> (value: toml::Value)
        ensures
            shape(value) == process_node(self@.0, self@.1),
    {
        let mut table = table_new();
        proof {
            lemma_find_none(no_entries(), "type"@);
        }
        table_insert(&mut table, "type".to_owned(), value_from_text(self.kind.clone()));
        proof {
            reveal_strlit("type");
            reveal_strlit("command");
            assert("type"@.len() != "command"@.len());
            let now = entries(table);
            assert(now =~= seq![("type"@, Node::Text(self.kind@))]);
            assert forall|i: int| 0 <= i < now.len() implies (#[trigger] now[i]).0
                != "command"@ by {}
            lemma_find_none(now, "command"@);
        }
        table_insert(&mut table, "command".to_owned(), value_from_text(self.command.clone()));
        proof {
            assert(entries(table) =~= seq![
                ("type"@, Node::Text(self.kind@)),
                ("command"@, Node::Text(self.command@)),
            ]);
        }
        value_from_table(table)
    }
}

/// Commands by the name of their type, in the order in which the names
/// arrived.
#[derive(Debug)]
pub struct Processes {
    commands: Dict<String>,
}

impl View for Processes {
    type V = Seq<(Seq<char>, Seq<char>)>;

    closed spec fn view(&self) -> Seq<(Seq<char>, Seq<char>)> {
        map_values(self.commands@, |command: String| command@)
    }
}

impl Processes {
    /// No process.
    pub fn new() -> (processes: Self)
        ensures
            processes@ == Seq::<(Seq<char>, Seq<char>)>::empty(),
    {
        let processes = Processes { commands: Dict::new() };
        assert(processes@ =~= Seq::<(Seq<char>, Seq<char>)>::empty());
        processes
    }

    /// Stores `command` under the type `kind`, in place of what was there.
    pub fn insert(&mut self, kind: &str, command: &str)
        ensures
            final(self)@ == put(old(self)@, kind@, command@),
            distinct(old(self)@),
            distinct(final(self)@),
    {
        self.commands.insert(kind.to_owned(), command.to_owned());
        proof {
            let f = |command: String| command@;
            lemma_map_values(old(self).commands@, f, kind@);
            lemma_map_values(self.commands@, f, kind@);
        }
    }

    /// The command under the type `kind`.
    pub fn get(&self, kind: &str) -> (command: Option<&str>)
        ensures
            distinct(self@),
            match command {
                Some(c) => find(self@, kind@) == Some(c@),
                None => find(self@, kind@).is_none(),
            },
    {
        let found = self.commands.get(kind);
        proof {
            lemma_map_values(self.commands@, |command: String| command@, kind@);
        }
        match found {
            Some(command) => Some(command.as_str()),
            None => None,
        }
    }

    /// The number of processes.
    pub fn len(&self) -> (n: usize)
        ensures
            n == self@.len(),
            distinct(self@),
    {
        let n = self.commands.len();
        proof {
            lemma_map_values(self.commands@, |command: String| command@, Seq::empty());
        }
        n
    }

    /// The process at position `i`.
    pub fn process_at(&self, i: usize) -> (process: Process)
        requires
            i < self@.len(),
        ensures
            process@ == self@[i as int],
    {
        Process::new(self.commands.key_at(i).as_str(), self.commands.value_at(i).as_str())
    }
}

/// What a vector of processes lists.
pub open spec fn described(processes: Seq<Process>) -> Seq<(Seq<char>, Seq<char>)> {
    Seq::new(processes.len(), |i: int| processes[i]@)
}

/// The launch descriptor of a buildpack.
#[derive(Debug)]
pub struct Launch {
    processes: Processes,
}

impl View for Launch {
    type V = Seq<(Seq<char>, Seq<char>)>;

    closed spec fn view(&self) -> Seq<(Seq<char>, Seq<char>)> {
        self.processes@
    }
}

impl Launch {
    /// The descriptor without processes.
    pub fn new() -> (launch: Self)
        ensures
            launch@ == Seq::<(Seq<char>, Seq<char>)>::empty(),
    {
        Launch { processes: Processes::new() }
    }

    /// Makes `command` the process of the type `kind`, in place of the
    /// process that had this type.
    pub fn add_process(&mut self, kind: &str, command: &str)
        ensures
            final(self)@ == put(old(self)@, kind@, command@),
            distinct(old(self)@),
            distinct(final(self)@),
    {
        self.processes.insert(kind, command);
    }

    /// The command of the process of the type `name`.
    pub fn get(&self, name: &str) -> (command: Option<&str>)
        ensures
            distinct(self@),
            match command {
                Some(c) => find(self@, name@) == Some(c@),
                None => find(self@, name@).is_none(),
            },
    {
        self.processes.get(name)
    }

    /// Every process, in the order of the descriptor.
    pub fn processes_iter(&self) -> (all: Vec<Process>)
        ensures
            described(all@) == self@,
            distinct(self@),
    {
        let mut all: Vec<Process> = Vec::new();
        let n = self.processes.len();
        let mut i: usize = 0;
        while i < n
            invariant
                n == self@.len(),
                i <= n,
                all@.len() == i,
                described(all@) == self@.take(i as int),
            decreases n - i,
        {
            let process = self.processes.process_at(i);
            let ghost before = all@;
            all.push(process);
            proof {
                assert forall|j: int| 0 <= j < i + 1 implies described(all@)[j] == self@.take(
                    i + 1,
                )[j] by {
                    if j < i {
                        assert(all@[j] == before[j]);
                        assert(described(before)[j] == self@.take(i as int)[j]);
                    }
                }
                assert(described(all@) =~= self@.take(i + 1));
            }
            i += 1;
        }
        proof {
            assert(self@.take(n as int) =~= self@);
        }
        all
    }

    /// The document that describes this descriptor.
    pub fn to_value(&self) -> (value: toml::Value)
        ensures
            shape(value) == launch_node(self@),
    {
        let mut items: Vec<toml::Value> = Vec::new();
        let n = self.processes.len();
        let mut i: usize = 0;
        while i < n
            invariant
                n == self@.len(),
                i <= n,
                items@.len() == i,
                shapes(items@) == process_nodes(self@).take(i as int),
            decreases n - i,
        {
            let process = self.processes.process_at(i);
            let ghost before = items@;
            items.push(process.to_value());
            proof {
                assert forall|j: int| 0 <= j < i + 1 implies shapes(items@)[j] == process_nodes(
                    self@,
                ).take(i + 1)[j] by {
                    if j < i {
                        assert(items@[j] == before[j]);
                        assert(shapes(before)[j] == process_nodes(self@).take(i as int)[j]);
                    }
                }
                assert(shapes(items@) =~= process_nodes(self@).take(i + 1));
            }
            i += 1;
        }
        proof {
            assert(process_nodes(self@).take(n as int) =~= process_nodes(self@));
            lemma_find_none(no_entries(), "processes"@);
        }
        let mut table = table_new();
        table_insert(&mut table, "processes".to_owned(), value_from_array(items));
        proof {
            assert(entries(table) =~= seq![
                ("processes"@, Node::Array(process_nodes(self@))),
            ]);
        }
        value_from_table(table)
    }

    /// This descriptor as TOML text. Fails where the document cannot be
    /// written.
    pub fn serialize(&self) -> (outcome: Result<String, BuildpackError>)
        ensures
            match outcome {
                Ok(text) => rendered(launch_node(self@)) == Some(text@),
                Err(error) => rendered(launch_node(self@)).is_none() && error.is_encode_failure(),
            },
    {
        let value = self.to_value();
        match render_document(&value) {
            Ok(text) => Ok(text),
            Err(error) => Err(BuildpackError::new(ErrorKind::TomlSer(error))),
        }
    }
}

} // verus!
