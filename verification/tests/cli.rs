use oatbar::cli::{rotate_query, var_rotate, Direction, RotateError};
use oatbar::ipc::{Command, Response, ResponseData};

fn values() -> Vec<String> {
    vec!["a".into(), "b".into(), "c".into()]
}

fn current(v: &str) -> Response {
    Response { data: Some(ResponseData::Value(v.into())), error: None }
}

fn new_value(r: Result<Command, RotateError>) -> String {
    match r {
        Ok(Command::SetVar { value, .. }) => value,
        _ => panic!("expected a SetVar"),
    }
}

#[test]
fn rotation_steps_and_wraps() {
    assert_eq!(new_value(var_rotate("x".into(), Direction::Right, values(), current("a"))), "b");
    assert_eq!(new_value(var_rotate("x".into(), Direction::Right, values(), current("c"))), "a");
    assert_eq!(new_value(var_rotate("x".into(), Direction::Left, values(), current("a"))), "c");
    assert_eq!(new_value(var_rotate("x".into(), Direction::Left, values(), current("b"))), "a");
}

#[test]
fn rotation_from_outside_the_list() {
    assert_eq!(new_value(var_rotate("x".into(), Direction::Right, values(), current("zz"))), "a");
    assert_eq!(new_value(var_rotate("x".into(), Direction::Left, values(), current("zz"))), "c");
}

#[test]
fn rotation_errors() {
    assert!(matches!(rotate_query("x", &vec![]), Err(RotateError::EmptyValues)));
    assert!(matches!(rotate_query("x", &values()), Ok(Command::GetVar { name }) if name == "x"));
    assert!(matches!(var_rotate("x".into(), Direction::Right, vec![], current("a")), Err(RotateError::EmptyValues)));
    let failed = Response { data: None, error: Some("no bar".into()) };
    assert!(matches!(var_rotate("x".into(), Direction::Right, values(), failed), Err(RotateError::Remote(e)) if e == "no bar"));
    let odd = Response { data: Some(ResponseData::Vars(vec![])), error: None };
    assert!(matches!(var_rotate("x".into(), Direction::Right, values(), odd), Err(RotateError::UnexpectedResponse)));
}
