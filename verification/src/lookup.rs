//! Ids of records found by their unique name.

use vstd::prelude::*;
use crate::text::{signed_decimal_chars, string_from_chars, string_of};

verus! {

/// A record that a lookup did not find.
#[derive(Debug)]
pub enum LookupError {
    /// No record of this kind has this name.
    NotFound { kind: String, name: String },
}

/// The id found for `name`, in decimal, or the report that no `kind` has that name.
pub fn id_text(name: &str, kind: &str, found: Option<i32>) -> (r: Result<String, LookupError>)
    ensures
        match found {
            Some(id) => r matches Ok(s) && s@ == crate::text::signed_decimal(id as int),
            None => r matches Err(LookupError::NotFound { kind: k, name: n }) && k@ == kind@ && n@ == name@,
        },
{
    match found {
        Some(id) => {
            let v = signed_decimal_chars(id as i64);
            Ok(string_from_chars(v.as_slice()))
        },
        None => Err(LookupError::NotFound { kind: string_of(kind), name: string_of(name) }),
    }
}

} // verus!
