//! The stack: the name of the family of images that the build runs on.

use vstd::prelude::*;
use vstd::string::*;
use crate::env::VarError;
use crate::error::{BuildpackError, ErrorKind};

verus! {

/// The name of the environment variable that holds the stack.
pub const ENV_VAR: &'static str = "CNB_STACK_ID";

/// The stack that a build runs on, by its name.
#[derive(Debug)]
pub struct Stack {
    id: String,
}

impl View for Stack {
    type V = Seq<char>;

    closed spec fn view(&self) -> Seq<char> {
        self.id@
    }
}

impl Stack {
    /// The stack that the environment names: `value` is what a lookup of
    /// [`ENV_VAR`] gave. Fails where the lookup failed, with its error.
    pub fn new(value: Result<String, VarError>) -> (outcome: Result<Stack, BuildpackError>)
        ensures
            match value {
                Ok(id) => outcome is Ok && outcome->Ok_0@ == id@,
                Err(error) => outcome is Err && outcome->Err_0.cause() == ErrorKind::Env(error),
            },
    {
        match value {
            Ok(id) => Ok(Stack { id }),
            Err(error) => Err(BuildpackError::new(ErrorKind::Env(error))),
        }
    }

    /// The name of the stack.
    pub fn id(&self) -> (id: &str)
        ensures
            id@ == self@,
    {
        self.id.as_str()
    }
}

impl std::ops::Deref for Stack {
    type Target = String;

    fn deref(&self) -> (id: &String)
        ensures
            id@ == self@,
    {
        &self.id
    }
}

} // verus!
