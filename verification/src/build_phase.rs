//! The build phase: what the buildpack was given, and the build plan that it
//! hands back.

use vstd::prelude::*;
use vstd::string::*;
use vstd::utf8::*;
use crate::build_plan::{BuildPlan, DependencyModel, plan_node, read_plan};
use crate::buildpack::{Buildpack, BuildpackModel, read_buildpack};
use crate::document::rendered;
use crate::nesting::{Refusal, decoded, refuses};
use crate::env::{VarError, listing};
use crate::error::{BuildpackError, ErrorKind, Fault, reports};
use crate::layers::Layers;
use crate::layers::layer::{FileWrite, writes};
use crate::platform::{Platform, gather};
use crate::stack::Stack;
use crate::text::{join, join_path, parent_of, pop_path, text_from_utf8};

verus! {

/// The exit code of a build that succeeded.
pub const SUCCESS_STATUS_CODE: i32 = 0;

/// The name of the file that describes the buildpack.
pub const BUILDPACK_FILE: &'static str = "buildpack.toml";

/// Why there is no build phase.
pub enum Failure {
    /// The program was started without arguments.
    NoArgs,
    /// The name of the program is not Unicode; its bytes are given.
    NotUnicode(Seq<u8>),
    /// The file at the given path is not there.
    FileNotFound(Seq<char>),
    /// A text gives no document.
    Refused(Refusal),
    /// A document does not describe what it should.
    Fault(Fault),
    /// The stack could not be read from the environment.
    Env(VarError),
}

/// Whether `error` tells of `failure`.
pub open spec fn tells(error: BuildpackError, failure: Failure) -> bool {
    match failure {
        Failure::NoArgs => error.cause() is NoArgs,
        Failure::NotUnicode(bytes) => match error.cause() {
            ErrorKind::OsString(raw) => raw@ == bytes,
            _ => false,
        },
        Failure::FileNotFound(path) => match error.cause() {
            ErrorKind::FileNotFound(missing) => missing@ == path,
            _ => false,
        },
        Failure::Refused(refusal) => refuses(error, refusal),
        Failure::Fault(fault) => reports(error, fault),
        Failure::Env(cause) => error.cause() == ErrorKind::Env(cause),
    }
}

/// The directory of the buildpack: two levels above the program that runs,
/// whose name `program` is as the system gave it, if it gave one.
pub open spec fn buildpack_dir_of(program: Option<Seq<u8>>) -> Result<Seq<char>, Failure> {
    match program {
        None => Err(Failure::NoArgs),
        Some(bytes) => if valid_utf8(bytes) {
            Ok(parent_of(parent_of(decode_utf8(bytes))))
        } else {
            Err(Failure::NotUnicode(bytes))
        },
    }
}

/// The descriptor that the file of the buildpack gives.
pub open spec fn descriptor_of(path: Seq<char>, contents: Option<Seq<char>>) -> Result<
    BuildpackModel,
    Failure,
> {
    match contents {
        None => Err(Failure::FileNotFound(path)),
        Some(text) => match decoded(text) {
            Err(refusal) => Err(Failure::Refused(refusal)),
            Ok(node) => match read_buildpack(node) {
                Err(fault) => Err(Failure::Fault(fault)),
                Ok(buildpack) => Ok(buildpack),
            },
        },
    }
}

/// The build plan that a text gives.
pub open spec fn plan_of(text: Seq<char>) -> Result<Seq<(Seq<char>, DependencyModel)>, Failure> {
    match decoded(text) {
        Err(refusal) => Err(Failure::Refused(refusal)),
        Ok(node) => match read_plan(node) {
            Err(fault) => Err(Failure::Fault(fault)),
            Ok(plan) => Ok(plan),
        },
    }
}

/// The text of an optional string.
pub open spec fn text_of(contents: Option<&str>) -> Option<Seq<char>> {
    match contents {
        Some(text) => Some(text@),
        None => None,
    }
}

/// The first thing that keeps a build phase from starting, in the order in
/// which its parts are looked at: the descriptor of the buildpack, the build
/// plan, the stack.
pub open spec fn obstacle(
    buildpack_path: Seq<char>,
    buildpack_text: Option<Seq<char>>,
    plan_text: Seq<char>,
    stack_id: Result<String, VarError>,
) -> Option<Failure> {
    match descriptor_of(buildpack_path, buildpack_text) {
        Err(failure) => Some(failure),
        Ok(_) => match plan_of(plan_text) {
            Err(failure) => Some(failure),
            Ok(_) => match stack_id {
                Err(cause) => Some(Failure::Env(cause)),
                Ok(_) => None,
            },
        },
    }
}

/// The build phase of a buildpack.
#[derive(Debug)]
pub struct Build {
    /// The directory in which the build runs.
    pub root: String,
    pub build_plan: BuildPlan,
    /// The path of the file that the build plan goes to.
    pub build_plan_output: String,
    pub buildpack: Buildpack,
    pub layers: Layers,
    pub platform: Platform,
    pub stack: Stack,
}

impl Build {
    /// The build phase in the directory `root`, with its layers under
    /// `layers`, the platform whose directory of variables holds
    /// `platform_files`, and `plan` as the path that the build plan goes to.
    /// The descriptor of the buildpack is read from `buildpack_text`, the text
    /// of the file at `buildpack_path` or nothing where the file cannot be
    /// read; the build plan from `plan_text`, the text on standard input; the
    /// stack from `stack_id`, what a lookup of the stack variable gave. The
    /// first of the three that fails is the error, and then there is no build
    /// phase.
    pub fn new(
        layers: &str,
        platform_files: Option<&Vec<(String, Vec<u8>)>>,
        plan: &str,
        buildpack_path: &str,
        buildpack_text: Option<&str>,
        plan_text: &str,
        root: &str,
        stack_id: Result<String, VarError>,
    ) -> (outcome: Result<Build, BuildpackError>)
        ensures
            match outcome {
                Err(error) => obstacle(
                    buildpack_path@,
                    text_of(buildpack_text),
                    plan_text@,
                    stack_id,
                ) is Some && tells(
                    error,
                    obstacle(buildpack_path@, text_of(buildpack_text), plan_text@, stack_id)->Some_0,
                ),
                Ok(build) => obstacle(
                    buildpack_path@,
                    text_of(buildpack_text),
                    plan_text@,
                    stack_id,
                ).is_none() && build.root@ == root@ && build.build_plan_output@ == plan@
                    && build.layers.root@ == layers@ && build.layers.launch@ == Seq::<
                    (Seq<char>, Seq<char>),
                >::empty() && descriptor_of(buildpack_path@, text_of(buildpack_text)) == Ok::<
                    BuildpackModel,
                    Failure,
                >(build.buildpack@) && plan_of(plan_text@) == Ok::<
                    Seq<(Seq<char>, DependencyModel)>,
                    Failure,
                >(build.build_plan@) && stack_id is Ok && build.stack@ == stack_id->Ok_0@
                    && build.platform.env@ == match platform_files {
                    Some(found) => gather(listing(found@)),
                    None => Seq::empty(),
                },
            },
    {
        let buildpack = match Buildpack::from_file(buildpack_path, buildpack_text) {
            Ok(buildpack) => buildpack,
            Err(error) => {
                return Err(error);
            },
        };
        let build_plan = match BuildPlan::parse(plan_text) {
            Ok(plan) => plan,
            Err(error) => {
                return Err(error);
            },
        };
        let stack = match Stack::new(stack_id) {
            Ok(stack) => stack,
            Err(error) => {
                return Err(error);
            },
        };
        Ok(
            Build {
                root: root.to_owned(),
                build_plan,
                build_plan_output: plan.to_owned(),
                buildpack,
                layers: Layers::new(layers),
                platform: Platform::new(platform_files),
                stack,
            },
        )
    }

    /// The exit code of a build that succeeded, and what to write so that the
    /// output file holds `build_plan`. Fails where the plan cannot be written
    /// as a document.
    pub fn success(&self, build_plan: &BuildPlan) -> (outcome: Result<
        (i32, FileWrite),
        BuildpackError,
    >)
        ensures
            match outcome {
                Ok((code, write)) => code == SUCCESS_STATUS_CODE && rendered(
                    plan_node(build_plan@),
                ) is Some && writes(
                    write,
                    self.build_plan_output@,
                    rendered(plan_node(build_plan@))->Some_0,
                ),
                Err(error) => rendered(plan_node(build_plan@)).is_none()
                    && error.is_encode_failure(),
            },
    {
        match build_plan.serialize() {
            Ok(text) => Ok(
                (
                    SUCCESS_STATUS_CODE,
                    FileWrite {
                        path: self.build_plan_output.clone(),
                        contents: text.as_str().as_bytes_vec(),
                    },
                ),
            ),
            Err(error) => Err(error),
        }
    }

    /// The exit code of a build that failed: `code` itself.
    pub fn fail(&self, code: i32) -> (code_out: i32)
        ensures
            code_out == code,
    {
        code
    }

    /// The path of the file that describes the buildpack, in the directory
    /// of the buildpack.
    pub fn find_toml(program: Option<Vec<u8>>) -> (outcome: Result<String, BuildpackError>)
        ensures
            match outcome {
                Ok(path) => buildpack_dir_of(bytes_of(program)) is Ok && path@ == join(
                    buildpack_dir_of(bytes_of(program))->Ok_0,
                    BUILDPACK_FILE@,
                ),
                Err(error) => buildpack_dir_of(bytes_of(program)) is Err && tells(
                    error,
                    buildpack_dir_of(bytes_of(program))->Err_0,
                ),
            },
    {
        match Self::buildpack_dir(program) {
            Ok(dir) => Ok(join_path(dir.as_str(), BUILDPACK_FILE)),
            Err(error) => Err(error),
        }
    }

    /// The directory of the buildpack: two levels above the program that
    /// runs, whose name `program` is as the system gave it. Fails where the
    /// system gave no name, and where the name is not Unicode.
    pub fn buildpack_dir(program: Option<Vec<u8>>) -> (outcome: Result<String, BuildpackError>)
        ensures
            match outcome {
                Ok(dir) => buildpack_dir_of(bytes_of(program)) == Ok::<Seq<char>, Failure>(dir@),
                Err(error) => buildpack_dir_of(bytes_of(program)) is Err && tells(
                    error,
                    buildpack_dir_of(bytes_of(program))->Err_0,
                ),
            },
    {
        match program {
            Some(bin_path) => match text_from_utf8(bin_path) {
                Ok(path) => {
                    let above = pop_path(path.as_str());
                    Ok(pop_path(above.as_str()))
                },
                Err(raw) => Err(BuildpackError::new(ErrorKind::OsString(raw))),
            },
            None => Err(BuildpackError::new(ErrorKind::NoArgs)),
        }
    }
}

/// The bytes of an optional vector.
pub open spec fn bytes_of(program: Option<Vec<u8>>) -> Option<Seq<u8>> {
    match program {
        Some(bytes) => Some(bytes@),
        None => None,
    }
}

} // verus!
