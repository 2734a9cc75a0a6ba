//! Layers: the directories that a buildpack contributes, with their
//! metadata, their environment files and the launch descriptor.

pub mod config;
pub mod env;
pub mod launch;
pub mod layer;

use vstd::prelude::*;
use vstd::string::*;
use crate::document::rendered;
use crate::error::BuildpackError;
use crate::layers::launch::{Launch, launch_node};
use crate::layers::layer::{FileWrite, Layer, writes};
use crate::layers::config::ConfigModel;
use crate::layers::env::empty_set;
use crate::text::{join, join_path};

verus! {

/// The layers of a buildpack: the directory that holds them, and the launch
/// descriptor that lies beside them.
#[derive(Debug)]
pub struct Layers {
    /// The path of the directory that holds the layers.
    pub root: String,
    pub launch: Launch,
}

impl Layers {
    /// The layers under `layer_dir`, with a launch descriptor without
    /// processes.
    pub fn new(layer_dir: &str) -> (layers: Self)
        ensures
            layers.root@ == layer_dir@,
            layers.launch@ == Seq::<(Seq<char>, Seq<char>)>::empty(),
    {
        Layers { root: layer_dir.to_owned(), launch: Launch::new() }
    }

    /// The path of the file that holds the launch descriptor.
    pub fn launch_path(&self) -> (path: String)
        ensures
            path@ == join(self.root@, "launch.toml"@),
    {
        join_path(self.root.as_str(), "launch.toml")
    }

    /// The layer `name` under the directory of the layers, as new. Asking
    /// twice for one name gives two layers over the same directory.
    pub fn add(&mut self, name: &str) -> (layer: Layer)
        ensures
            *final(self) == *old(self),
            layer.root@ == old(self).root@,
            layer.name@ == name@,
            layer.config@ == (ConfigModel {
                build: false,
                cache: false,
                launch: false,
                metadata: crate::document::no_entries(),
            }),
            layer.envs.build@ == empty_set(),
            layer.envs.launch@ == empty_set(),
            layer.envs.shared@ == empty_set(),
    {
        Layer::new(self.root.as_str(), name)
    }

    /// What to write so that the file of the launch descriptor holds the
    /// descriptor as it is now: the whole file. Fails where the document
    /// cannot be written.
    pub fn write_launch(&self) -> (outcome: Result<FileWrite, BuildpackError>)
        ensures
            match outcome {
                Ok(write) => rendered(launch_node(self.launch@)) is Some && writes(
                    write,
                    join(self.root@, "launch.toml"@),
                    rendered(launch_node(self.launch@))->Some_0,
                ),
                Err(error) => rendered(launch_node(self.launch@)).is_none()
                    && error.is_encode_failure(),
            },
    {
        match self.launch.serialize() {
            Ok(text) => Ok(
                FileWrite { path: self.launch_path(), contents: text.as_str().as_bytes_vec() },
            ),
            Err(error) => Err(error),
        }
    }
}

/// The layer `name` under `/layers`, as new.
pub fn new(name: &str) -> (layer: Layer)
    ensures
        layer.root@ == "/layers"@,
        layer.name@ == name@,
        layer.config@ == (ConfigModel {
            build: false,
            cache: false,
            launch: false,
            metadata: crate::document::no_entries(),
        }),
        layer.envs.build@ == empty_set(),
        layer.envs.launch@ == empty_set(),
        layer.envs.shared@ == empty_set(),
{
    Layer::new("/layers", name)
}

} // verus!
