use libbuildpack::env::VarError;
use libbuildpack::error::ErrorKind;
use libbuildpack::stack::{Stack, ENV_VAR};

#[test]
fn it_reads_stack_from_env() {
    let stack = Stack::new(Ok("aspen".to_string()));

    assert!(stack.is_ok());
    if let Ok(stack) = stack {
        assert_eq!("aspen", *stack);
        assert_eq!("aspen", stack.id());
    }
}

#[test]
fn stack_variable_has_its_name() {
    assert_eq!(ENV_VAR, "CNB_STACK_ID");
}

#[test]
fn stack_without_variable_is_an_error() {
    let stack = Stack::new(Err(VarError::NotPresent));

    assert!(matches!(
        stack.unwrap_err().kind(),
        ErrorKind::Env(VarError::NotPresent)
    ));
}

#[test]
fn stack_that_is_not_unicode_is_an_error() {
    let stack = Stack::new(Err(VarError::NotUnicode(vec![0xff])));

    assert!(matches!(
        stack.unwrap_err().kind(),
        ErrorKind::Env(VarError::NotUnicode(bytes)) if bytes == &vec![0xff]
    ));
}
