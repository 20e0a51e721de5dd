//! The decisions of the command line tool that talks to a running bar.

use vstd::prelude::*;
use crate::ipc::{Command, Response, ResponseData};
use crate::text::str_eq;

verus! {

/// Which way a variable rotates through its list of values.
#[derive(Debug, Clone, Copy, PartialEq, Eq, Structural)]
pub enum Direction {
    Right,
    Left,
}

/// Why a rotation cannot be done.
#[derive(Debug)]
pub enum RotateError {
    /// The list of values is empty.
    EmptyValues,
    /// The bar answered with an error.
    Remote(String),
    /// The bar answered something else than a value.
    UnexpectedResponse,
}

/// The position after a rotation in a list of `len` values from
/// `position` (`None` when the current value is not in the list): one step
/// in the direction, coming back from the other end past the last or the
/// first; from outside the list, the first value going right and the last
/// going left.
pub open spec fn spec_rotate_index(direction: Direction, position: Option<usize>, len: usize) -> usize {
    let last = (len - 1) as usize;
    match (direction, position) {
        (Direction::Left, None) => last,
        (Direction::Left, Some(p)) => if p == 0 { last } else { (p - 1) as usize },
        (Direction::Right, None) => 0,
        (Direction::Right, Some(p)) => if p == last { 0 } else { (p + 1) as usize },
    }
}

/// The position after a rotation (see `spec_rotate_index`).
pub fn rotate_index(direction: Direction, position: Option<usize>, len: usize) -> (r: usize)
    requires
        len > 0,
        position matches Some(p) ==> p < len,
    ensures
        r == spec_rotate_index(direction, position, len),
        r < len,
{
    let last = len - 1;
    match (direction, position) {
        (Direction::Left, None) => last,
        (Direction::Left, Some(p)) => if p == 0 { last } else { p - 1 },
        (Direction::Right, None) => 0,
        (Direction::Right, Some(p)) => if p == last { 0 } else { p + 1 },
    }
}

/// A step right undoes a step left, and a step left undoes a step right.
pub proof fn lemma_rotate_inverse(p: usize, len: usize)
    requires
        p < len,
    ensures
        spec_rotate_index(Direction::Left, Some(spec_rotate_index(Direction::Right, Some(p), len)), len) == p,
        spec_rotate_index(Direction::Right, Some(spec_rotate_index(Direction::Left, Some(p), len)), len) == p,
{
}

/// `p` is the first position of `value` in the list, or `None` when the
/// list does not hold it.
pub open spec fn is_first_position(values: Seq<String>, value: Seq<char>, p: Option<usize>) -> bool {
    match p {
        Some(i) => i < values.len() && values[i as int]@ == value && forall|j: int| 0 <= j < i ==> values[j]@ != value,
        None => forall|j: int| 0 <= j < values.len() ==> values[j]@ != value,
    }
}

fn find_value(values: &Vec<String>, value: &str) -> (r: Option<usize>)
    ensures
        is_first_position(values@, value@, r),
{
    let mut i: usize = 0;
    while i < values.len()
        invariant
            i <= values@.len(),
            forall|j: int| 0 <= j < i ==> values@[j]@ != value@,
        decreases values@.len() - i,
    {
        if str_eq(values[i].as_str(), value) {
            return Some(i);
        }
        i += 1;
    }
    None
}

/// The request that reads the variable to rotate; the list must not be empty.
pub fn rotate_query(name: &str, values: &Vec<String>) -> (r: Result<Command, RotateError>)
    ensures
        values@.len() == 0 <==> r matches Err(RotateError::EmptyValues),
        r is Ok ==> (r matches Ok(Command::GetVar { name: n }) && n@ == name@),
{
    if values.len() == 0 {
        return Err(RotateError::EmptyValues);
    }
    Ok(Command::GetVar { name: crate::text::owned(name) })
}

/// The request that rotates a variable, given the bar's answer with its
/// current value: the value after the current one's first place in the
/// list, in the direction (see `spec_rotate_index`).
pub fn var_rotate(name: String, direction: Direction, values: Vec<String>, current: Response) -> (r: Result<Command, RotateError>)
    ensures
        values@.len() == 0 ==> r matches Err(RotateError::EmptyValues),
        values@.len() > 0 ==> match current.error {
            Some(e) => r matches Err(RotateError::Remote(x)) && x == e,
            None => match current.data {
                Some(ResponseData::Value(v)) => r matches Ok(Command::SetVar { name: n, value: nv })
                    && n == name
                    && exists|p: Option<usize>| #[trigger] is_first_position(values@, v@, p)
                        && nv == values@[spec_rotate_index(direction, p, values@.len() as usize) as int],
                _ => r matches Err(RotateError::UnexpectedResponse),
            },
        },
{
    if values.len() == 0 {
        return Err(RotateError::EmptyValues);
    }
    match current.error {
        Some(e) => Err(RotateError::Remote(e)),
        None => match current.data {
            Some(ResponseData::Value(value)) => {
                let position = find_value(&values, value.as_str());
                let idx = rotate_index(direction, position, values.len());
                let new_value = values[idx].clone();
                Ok(Command::SetVar { name, value: new_value })
            },
            _ => Err(RotateError::UnexpectedResponse),
        },
    }
}

} // verus!
