//! The i3bar protocol, as commands print it.

use vstd::prelude::*;

verus! {

/// The first line of i3bar output.
#[derive(Debug, Clone, Copy, PartialEq, Eq, Structural)]
pub struct Header {
    pub version: i32,
}

impl Default for Header {
    fn default() -> (r: Self)
        ensures
            r.version == 1,
    {
        Header { version: 1 }
    }
}

/// A value of a block field other than `full_text`, `name` and `instance`.
#[derive(Debug)]
pub enum I3Value {
    /// A JSON string, by its text.
    Str(String),
    /// A JSON boolean.
    Bool(bool),
    /// Any other JSON value, by its compact JSON text.
    Json(String),
}

/// A field value by its content.
pub enum I3ValueView {
    Str(Seq<char>),
    Bool(bool),
    Json(Seq<char>),
}

impl I3Value {
    /// The content of the value.
    pub open spec fn view(&self) -> I3ValueView {
        match self {
            I3Value::Str(s) => I3ValueView::Str(s@),
            I3Value::Bool(b) => I3ValueView::Bool(*b),
            I3Value::Json(s) => I3ValueView::Json(s@),
        }
    }
}

/// Named field values by their contents.
pub open spec fn fields_view(s: Seq<(String, I3Value)>) -> Seq<(Seq<char>, I3ValueView)> {
    s.map_values(|p: (String, I3Value)| (p.0@, p.1@))
}

/// An optional text field: nothing when the value is absent.
pub open spec fn opt_field(key: Seq<char>, o: Option<String>) -> Seq<(Seq<char>, I3ValueView)> {
    match o {
        Some(v) => seq![(key, I3ValueView::Str(v@))],
        None => Seq::empty(),
    }
}

/// One block of an i3bar row.
#[derive(Debug)]
pub struct Block {
    pub full_text: String,
    pub name: Option<String>,
    pub instance: Option<String>,
    /// The other fields with their values; they are written out in the
    /// order of their names.
    pub other: Vec<(String, I3Value)>,
}

impl Default for Block {
    fn default() -> (r: Self)
        ensures
            r.full_text@ == Seq::<char>::empty(),
            r.name is None,
            r.instance is None,
            r.other@.len() == 0,
    {
        Block { full_text: String::new(), name: None, instance: None, other: Vec::new() }
    }
}

} // verus!
