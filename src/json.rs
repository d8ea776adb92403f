use vstd::prelude::*;

verus! {

/// A decoded response body, as a tagged union of the structured values it may
/// hold. Numbers keep their canonical text, so that no precision is lost.
#[derive(Debug)]
pub enum Json {
    Null,
    Bool(bool),
    Number(String),
    Str(String),
    Array(Vec<Json>),
    Object(Vec<(String, Json)>),
}

} // verus!
