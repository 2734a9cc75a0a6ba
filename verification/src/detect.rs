//! The detect phase: whether the buildpack applies, and the build plan that
//! it offers if it does.

use vstd::prelude::*;
use vstd::string::*;
use crate::build_plan::{BuildPlan, DependencyModel, plan_node};
use crate::document::rendered;
use crate::env::{VarError, listing};
use crate::error::{BuildpackError, ErrorKind};
use crate::layers::layer::{FileWrite, writes};
use crate::platform::{Platform, gather};
use crate::stack::Stack;

verus! {

/// The exit code that says that the buildpack does not apply.
pub const FAIL_STATUS_CODE: i32 = 100;

/// The exit code that says that the buildpack applies.
pub const PASS_STATUS_CODE: i32 = 0;

/// The detect phase of a buildpack.
#[derive(Debug)]
pub struct Detect {
    pub stack: Stack,
    pub platform: Platform,
    pub build_plan: BuildPlan,
    /// The path of the file that the build plan goes to.
    pub build_plan_output: String,
}

impl Detect {
    /// The detect phase on the stack that a lookup of the stack variable gave
    /// as `stack_id`, with the platform whose directory of variables holds
    /// `platform_files`, writing its build plan to `build_plan_output`.
    /// Without a stack there is no detect phase, whatever else is given: the
    /// error of the lookup comes back.
    pub fn new(
        stack_id: Result<String, VarError>,
        platform_files: Option<&Vec<(String, Vec<u8>)>>,
        build_plan_output: &str,
    ) -> (outcome: Result<Detect, BuildpackError>)
        ensures
            match stack_id {
                Err(error) => outcome is Err && outcome->Err_0.cause() == ErrorKind::Env(error),
                Ok(id) => outcome is Ok && outcome->Ok_0.stack@ == id@
                    && outcome->Ok_0.build_plan_output@ == build_plan_output@
                    && outcome->Ok_0.build_plan@ == Seq::<(Seq<char>, DependencyModel)>::empty()
                    && outcome->Ok_0.platform.env@ == match platform_files {
                    Some(found) => gather(listing(found@)),
                    None => Seq::empty(),
                },
            },
    {
        let stack = match Stack::new(stack_id) {
            Ok(stack) => stack,
            Err(error) => {
                return Err(error);
            },
        };
        Ok(
            Detect {
                stack,
                build_plan: BuildPlan::new(),
                platform: Platform::new(platform_files),
                build_plan_output: build_plan_output.to_owned(),
            },
        )
    }

    /// The exit code of a detection that failed.
    pub fn fail(&self) -> (code: i32)
        ensures
            code == FAIL_STATUS_CODE,
    {
        FAIL_STATUS_CODE
    }

    /// The exit code of a detection that passed, and what to write so that
    /// the output file holds `build_plan`, where one is given. Fails where the
    /// plan cannot be written as a document.
    pub fn pass(&self, build_plan: Option<&BuildPlan>) -> (outcome: Result<
        (i32, Option<FileWrite>),
        BuildpackError,
    >)
        ensures
            match build_plan {
                None => outcome is Ok && outcome->Ok_0.0 == PASS_STATUS_CODE
                    && outcome->Ok_0.1.is_none(),
                Some(plan) => match outcome {
                    Ok((code, write)) => code == PASS_STATUS_CODE && write is Some && rendered(
                        plan_node(plan@),
                    ) is Some && writes(
                        write->Some_0,
                        self.build_plan_output@,
                        rendered(plan_node(plan@))->Some_0,
                    ),
                    Err(error) => rendered(plan_node(plan@)).is_none()
                        && error.is_encode_failure(),
                },
            },
    {
        match build_plan {
            None => Ok((PASS_STATUS_CODE, None)),
            Some(plan) => match plan.serialize() {
                Ok(text) => Ok(
                    (
                        PASS_STATUS_CODE,
                        Some(
                            FileWrite {
                                path: self.build_plan_output.clone(),
                                contents: text.as_str().as_bytes_vec(),
                            },
                        ),
                    ),
                ),
                Err(error) => Err(error),
            },
        }
    }

    /// The exit code of a detection that ran into an error: `code` itself.
    pub fn error(&self, code: i32) -> (code_out: i32)
        ensures
            code_out == code,
    {
        code
    }
}

} // verus!
