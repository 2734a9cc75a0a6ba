//! A layer: a named directory with its metadata and its environment files.
//!
//! A layer never touches the file system. Where something has to be written
//! it says what: a [`FileWrite`] or a [`DirWrite`], for the caller to carry
//! out. Where something was read, the caller hands over what was found.

use vstd::prelude::*;
use vstd::string::*;
use vstd::utf8::*;
use crate::document::{no_entries, rendered};
use crate::nesting::{decoded, refuses};
use crate::env::listing;
use crate::error::{BuildpackError, Fault, reports};
use crate::layers::config::{Config, ConfigModel, config_node, read_config};
use crate::layers::env::{EnvSet, EnvSetModel, Envs, empty_set, files_of, place_all};
use crate::text::{join, join_path};

verus! {

/// A file that has to be written: its path and its whole content.
#[derive(Debug)]
pub struct FileWrite {
    pub path: String,
    pub contents: Vec<u8>,
}

/// A directory that has to be there, and the files that have to be written
/// into it, each with its name and its whole content.
#[derive(Debug)]
pub struct DirWrite {
    pub path: String,
    pub files: Vec<(String, Vec<u8>)>,
}

/// Whether `write` puts `text` at `path`.
pub open spec fn writes(write: FileWrite, path: Seq<char>, text: Seq<char>) -> bool {
    write.path@ == path && write.contents@ == encode_utf8(text)
}

/// Whether `write` makes the directory `path` hold the files that carry
/// `set`.
pub open spec fn carries(write: DirWrite, path: Seq<char>, set: EnvSetModel) -> bool {
    write.path@ == path && listing(write.files@) == files_of(set)
}

/// The first of three outcomes that is a failure, and success where none is.
pub fn first_failure(
    first: Result<(), BuildpackError>,
    second: Result<(), BuildpackError>,
    third: Result<(), BuildpackError>,
) -> (outcome: Result<(), BuildpackError>)
    ensures
        outcome == if first is Err {
            first
        } else if second is Err {
            second
        } else {
            third
        },
{
    match first {
        Err(error) => Err(error),
        Ok(_) => match second {
            Err(error) => Err(error),
            Ok(_) => third,
        },
    }
}

/// A layer of a buildpack.
#[derive(Debug)]
pub struct Layer {
    /// The path of the directory that holds the layers.
    pub root: String,
    /// The name of this layer, which is the name of its directory.
    pub name: String,
    pub config: Config,
    pub envs: Envs,
}

impl Layer {
    /// The path of the file that holds the metadata of the layer `name` under
    /// `root`: a sibling of the layer's directory.
    pub open spec fn config_path_of(root: Seq<char>, name: Seq<char>) -> Seq<char> {
        join(root, name + ".toml"@)
    }

    /// The path of the directory of the layer `name` under `root`.
    pub open spec fn layer_path_of(root: Seq<char>, name: Seq<char>) -> Seq<char> {
        join(root, name)
    }

    /// The path of the directory that holds the profile scripts of the layer
    /// `name` under `root`.
    pub open spec fn profile_d_path_of(root: Seq<char>, name: Seq<char>) -> Seq<char> {
        join(join(root, name), "profile.d"@)
    }

    /// The layer `name` under `root`, with the three flags off, an empty
    /// table and no variables. Its directory is `layer_path()`.
    pub fn new(root: &str, name: &str) -> (layer: Self)
        ensures
            layer.root@ == root@,
            layer.name@ == name@,
            layer.config@ == (ConfigModel {
                build: false,
                cache: false,
                launch: false,
                metadata: no_entries(),
            }),
            layer.envs.build@ == empty_set(),
            layer.envs.launch@ == empty_set(),
            layer.envs.shared@ == empty_set(),
    {
        Layer {
            root: root.to_owned(),
            name: name.to_owned(),
            envs: Envs::new(),
            config: Config::new(),
        }
    }

    /// Changes the metadata by `f` and says what to write so that the file
    /// of the metadata holds the changed values. The metadata is changed
    /// also where the document cannot be written.
    pub fn config<F: FnOnce(Config) -> Config>(&mut self, f: F) -> (outcome: Result<
        FileWrite,
        BuildpackError,
    >)
        requires
            f.requires((old(self).config,)),
        ensures
            f.ensures((old(self).config,), final(self).config),
            final(self).root == old(self).root,
            final(self).name == old(self).name,
            final(self).envs == old(self).envs,
            match outcome {
                Ok(write) => rendered(config_node(final(self).config@)) is Some && writes(
                    write,
                    Self::config_path_of(final(self).root@, final(self).name@),
                    rendered(config_node(final(self).config@))->Some_0,
                ),
                Err(error) => rendered(config_node(final(self).config@)).is_none()
                    && error.is_encode_failure(),
            },
    {
        let mut config = Config::new();
        std::mem::swap(&mut config, &mut self.config);
        self.config = f(config);
        self.write_metadata()
    }

    /// The path of the file that holds the metadata.
    pub fn config_path(&self) -> (path: String)
        ensures
            path@ == Self::config_path_of(self.root@, self.name@),
    {
        let file = self.name.clone().concat(".toml");
        join_path(self.root.as_str(), file.as_str())
    }

    /// The path of the directory of this layer.
    pub fn layer_path(&self) -> (path: String)
        ensures
            path@ == Self::layer_path_of(self.root@, self.name@),
    {
        join_path(self.root.as_str(), self.name.as_str())
    }

    /// The path of the directory that holds the profile scripts.
    pub fn profile_d_path(&self) -> (path: String)
        ensures
            path@ == Self::profile_d_path_of(self.root@, self.name@),
    {
        join_path(self.layer_path().as_str(), "profile.d")
    }

    /// What to write so that the file of the metadata holds the metadata as
    /// it is now: the whole file. Fails where the document cannot be written.
    pub fn write_metadata(&self) -> (outcome: Result<FileWrite, BuildpackError>)
        ensures
            match outcome {
                Ok(write) => rendered(config_node(self.config@)) is Some && writes(
                    write,
                    Self::config_path_of(self.root@, self.name@),
                    rendered(config_node(self.config@))->Some_0,
                ),
                Err(error) => rendered(config_node(self.config@)).is_none()
                    && error.is_encode_failure(),
            },
    {
        match self.config.serialize() {
            Ok(text) => Ok(
                FileWrite { path: self.config_path(), contents: text.as_str().as_bytes_vec() },
            ),
            Err(error) => Err(error),
        }
    }

    /// Takes over the metadata from the file of the metadata, of which
    /// `contents` is the text, or nothing where there is no such file. Without
    /// a file the metadata stays as it is; with one it is replaced as a whole.
    /// Fails, and changes nothing, where the text does not describe metadata.
    pub fn read_metadata(&mut self, contents: Option<&str>) -> (outcome: Result<
        (),
        BuildpackError,
    >)
        ensures
            final(self).root == old(self).root,
            final(self).name == old(self).name,
            final(self).envs == old(self).envs,
            match contents {
                None => outcome is Ok && final(self).config == old(self).config,
                Some(text) => match outcome {
                    Ok(_) => decoded(text@) is Ok && read_config(decoded(text@)->Ok_0) == Ok::<
                        ConfigModel,
                        Fault,
                    >(final(self).config@),
                    Err(error) => final(self).config == old(self).config && match decoded(text@) {
                        Err(refusal) => refuses(error, refusal),
                        Ok(node) => read_config(node) is Err && reports(
                            error,
                            read_config(node)->Err_0,
                        ),
                    },
                },
            },
    {
        match contents {
            None => Ok(()),
            Some(text) => match Config::parse(text) {
                Ok(config) => {
                    self.config = config;
                    Ok(())
                },
                Err(error) => Err(error),
            },
        }
    }

    /// The path of the file of the metadata where it has to be removed:
    /// `exists` says whether the file is there, and without a file there is
    /// nothing to remove.
    pub fn remove_metadata(&self, exists: bool) -> (path: Option<String>)
        ensures
            match path {
                Some(file) => exists && file@ == Self::config_path_of(self.root@, self.name@),
                None => !exists,
            },
    {
        if exists {
            Some(self.config_path())
        } else {
            None
        }
    }

    /// What to write so that the profile script `name` holds `contents`: the
    /// directory of the profile scripts, and the script in it.
    pub fn write_profile_d(&self, name: &str, contents: &str) -> (write: DirWrite)
        ensures
            write.path@ == Self::profile_d_path_of(self.root@, self.name@),
            listing(write.files@) == seq![(name@, encode_utf8(contents@))],
    {
        let mut files: Vec<(String, Vec<u8>)> = Vec::new();
        files.push((name.to_owned(), contents.as_bytes_vec()));
        proof {
            assert(listing(files@) =~= seq![(name@, encode_utf8(contents@))]);
        }
        DirWrite { path: self.profile_d_path(), files }
    }

    /// What to write for the variables of one set into the directory `folder`
    /// of the layer at `layer_path`.
    fn write_env(layer_path: &str, folder: &str, env: &EnvSet) -> (write: DirWrite)
        ensures
            carries(write, join(layer_path@, folder@), env@),
    {
        DirWrite { path: join_path(layer_path, folder), files: env.files() }
    }

    /// What to write so that the environment files of this layer hold its
    /// variables: the directory `env.build` for the build, then `env` for what
    /// is shared, then `env.launch` for the launch.
    pub fn write_envs(&self) -> (writes: Vec<DirWrite>)
        ensures
            writes@.len() == 3,
            carries(
                writes@[0],
                join(Self::layer_path_of(self.root@, self.name@), "env.build"@),
                self.envs.build@,
            ),
            carries(
                writes@[1],
                join(Self::layer_path_of(self.root@, self.name@), "env"@),
                self.envs.shared@,
            ),
            carries(
                writes@[2],
                join(Self::layer_path_of(self.root@, self.name@), "env.launch"@),
                self.envs.launch@,
            ),
    {
        let layer_path = self.layer_path();
        let mut writes: Vec<DirWrite> = Vec::new();
        writes.push(Self::write_env(layer_path.as_str(), "env.build", &self.envs.build));
        writes.push(Self::write_env(layer_path.as_str(), "env", &self.envs.shared));
        writes.push(Self::write_env(layer_path.as_str(), "env.launch", &self.envs.launch));
        writes
    }

    /// Takes over one set from its directory: `found` is what the reading of
    /// the directory gave. Without a directory the set stays as it is; with
    /// one it is emptied and filled from the files; and where the directory
    /// could not be read the set is left empty and the failure handed on.
    fn read_env(
        env: &mut EnvSet,
        found: Result<Option<Vec<(String, Vec<u8>)>>, BuildpackError>,
    ) -> (outcome: Result<(), BuildpackError>)
        ensures
            final(env)@ == Self::read_env_of(old(env)@, found),
            outcome == Self::failure_of(found),
    {
        match found {
            Ok(None) => Ok(()),
            Ok(Some(files)) => {
                env.load(&files);
                Ok(())
            },
            Err(error) => {
                env.clear();
                Err(error)
            },
        }
    }

    /// A set after it was read from its directory: the set as it was where
    /// there is no directory, what the files give, read one after the other
    /// into an empty set, where there is one, and the empty set where the
    /// directory could not be read.
    pub open spec fn read_env_of(
        before: EnvSetModel,
        found: Result<Option<Vec<(String, Vec<u8>)>>, BuildpackError>,
    ) -> EnvSetModel {
        match found {
            Ok(None) => before,
            Ok(Some(files)) => place_all(empty_set(), listing(files@)),
            Err(_) => empty_set(),
        }
    }

    /// The failure of reading a directory, if it failed.
    pub open spec fn failure_of(
        found: Result<Option<Vec<(String, Vec<u8>)>>, BuildpackError>,
    ) -> Result<(), BuildpackError> {
        match found {
            Ok(_) => Ok(()),
            Err(error) => Err(error),
        }
    }

    /// Takes over the variables of this layer from its environment files.
    /// For each of the three directories what its reading gave is handed in:
    /// the files that were found in it, each with its name and content,
    /// nothing where the directory does not exist, or the failure. Each of the
    /// three is taken over whatever became of the others, and the first
    /// failure, of the build, the launch and the shared directory in this
    /// order, is the result.
    pub fn read_envs(
        &mut self,
        build: Result<Option<Vec<(String, Vec<u8>)>>, BuildpackError>,
        launch: Result<Option<Vec<(String, Vec<u8>)>>, BuildpackError>,
        shared: Result<Option<Vec<(String, Vec<u8>)>>, BuildpackError>,
    ) -> (outcome: Result<(), BuildpackError>)
        ensures
            final(self).root == old(self).root,
            final(self).name == old(self).name,
            final(self).config == old(self).config,
            final(self).envs.build@ == Self::read_env_of(old(self).envs.build@, build),
            final(self).envs.launch@ == Self::read_env_of(old(self).envs.launch@, launch),
            final(self).envs.shared@ == Self::read_env_of(old(self).envs.shared@, shared),
            outcome == if build is Err {
                Self::failure_of(build)
            } else if launch is Err {
                Self::failure_of(launch)
            } else {
                Self::failure_of(shared)
            },
    {
        let first = Self::read_env(&mut self.envs.build, build);
        let second = Self::read_env(&mut self.envs.launch, launch);
        let third = Self::read_env(&mut self.envs.shared, shared);
        first_failure(first, second, third)
    }
}

} // verus!
