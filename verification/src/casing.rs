//! Naming-convention conversion for rendered field names.

use vstd::prelude::*;

verus! {

/// The naming convention applied to a field name before it is
/// rendered into SQL.
#[derive(Debug, PartialEq, Eq, Structural, Clone, Copy)]
pub enum FieldCase {
    /// `camelCase` (and similar) field names become `snake_case`.
    Snake,
}

/// The snake-case form of a string, as convert_case computes it:
/// the result depends on the characters of the input alone.
pub uninterp spec fn snake_of(s: Seq<char>) -> Seq<char>;

/// Relies on convert_case's `Casing::to_case` with the `Snake`
/// target case, which renders `userId` as `user_id`.
#[verifier::external_body]
fn to_snake_case(s: &str) -> (r: String)
    ensures
        r@ == snake_of(s@),
{
    convert_case::Casing::to_case(&s, convert_case::Case::Snake)
}

/// The field name under an optional case transform: unchanged when
/// none is asked for, snake-cased otherwise.
pub open spec fn apply_case(case: Option<FieldCase>, s: Seq<char>) -> Seq<char> {
    match case {
        None => s,
        Some(FieldCase::Snake) => snake_of(s),
    }
}

/// Transform a field name as [`apply_case`] describes.
pub fn transform_case(case: Option<FieldCase>, s: &str) -> (r: String)
    ensures
        r@ == apply_case(case, s@),
{
    match case {
        None => s.to_owned(),
        Some(FieldCase::Snake) => to_snake_case(s),
    }
}

} // verus!
