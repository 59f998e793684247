//! The `--set KEY=value` assignments applied to an entity: typed fields,
//! the status, and free metadata.

use vstd::prelude::*;
use crate::jsontext::{decode_quoted, json_string_value, quoted};
use crate::number::{i32_literal, parse_i32_str};

verus! {

/// How a value reads as a floating-point number: not at all, as a finite
/// number, or as an infinite or not-a-number value.
#[derive(Clone, Copy, Debug, PartialEq, Eq, Structural)]
pub enum FloatReading {
    NotFloat,
    Finite,
    NonFinite,
}

/// One `--set` assignment, with the way its value reads as a floating-point
/// number (which the caller determines).
#[derive(Debug)]
pub struct SetArg {
    pub key: String,
    pub value: String,
    pub float: FloatReading,
}

/// The mathematical value of a `SetArg`.
pub struct SetArgView {
    pub key: Seq<char>,
    pub value: Seq<char>,
    pub float: FloatReading,
}

impl View for SetArg {
    type V = SetArgView;

    open spec fn view(&self) -> SetArgView {
        SetArgView { key: self.key@, value: self.value@, float: self.float }
    }
}

/// The views of a list of assignments.
pub open spec fn args_view(s: Seq<SetArg>) -> Seq<SetArgView> {
    s.map_values(|a: SetArg| a@)
}

/// Why an assignment was refused.
#[derive(Debug)]
pub enum SetError {
    /// The value does not have the type of the field.
    InvalidValue { field: String, value: String },
    /// The value names no status.
    InvalidStatus { value: String },
}

impl SetError {
    /// The message shown for the error.
    pub open spec fn message_text(self) -> Seq<char> {
        match self {
            SetError::InvalidValue { field, value } => "invalid value for field '"@ + field@ + "': "@ + value@,
            SetError::InvalidStatus { value } => "unknown status: "@ + value@,
        }
    }

    /// The message shown for the error: the field and the refused value, or the unknown status.
    pub fn message(&self) -> (r: String)
        ensures
            r@ == self.message_text(),
    {
        proof {
            reveal_strlit("");
        }
        match self {
            SetError::InvalidValue { field, value } => {
                let f = crate::text::chars_of(field.as_str());
                crate::text::framed_pair("invalid value for field '", f.as_slice(), "': ", value.as_str(), "")
            },
            SetError::InvalidStatus { value } => crate::text::framed("unknown status: ", value.as_str(), ""),
        }
    }
}

/// Why a new record could not be made.
#[derive(Debug)]
pub enum CreateError {
    /// The clock reads before the Unix epoch: no creation time can be stamped.
    Clock,
    /// An assignment was refused.
    Invalid(SetError),
}

/// `e` reports the refusal of assignment `a`.
pub open spec fn set_error_matches(e: SetError, a: SetArgView) -> bool {
    match e {
        SetError::InvalidValue { field, value } => field@ == a.key && value@ == a.value,
        SetError::InvalidStatus { value } => value@ == a.value,
    }
}

/// The text stored in a text field: refused when the value reads as a number.
pub open spec fn text_field(a: SetArgView) -> Option<Seq<char>> {
    if i32_literal(a.value) is Some || a.float == FloatReading::Finite {
        None
    } else {
        Some(a.value)
    }
}

/// The number stored in an `i32` field: the value must spell an `i32`.
pub open spec fn i32_field(a: SetArgView) -> Option<i32> {
    i32_literal(a.value)
}

/// The number stored in an `i64` field: the value must spell an `i32`.
pub open spec fn i64_field(a: SetArgView) -> Option<i64> {
    match i32_literal(a.value) {
        Some(n) => Some(n as i64),
        None => None,
    }
}

/// The status name that a status assignment gives, once read as a JSON string.
pub open spec fn status_text(a: SetArgView) -> Option<Seq<char>> {
    json_string_value(quoted(a.value))
}

/// The value neither spells an `i32` nor reads as an infinite or not-a-number
/// float; reading such a value into a typed field cannot complete.
pub open spec fn number_readable(a: SetArgView) -> bool {
    !(i32_literal(a.value) is None && a.float == FloatReading::NonFinite)
}

/// The state reached by applying the assignments in order, stopping at the
/// first refused one, whose position is then given too.
pub open spec fn run_steps<V>(v: V, args: Seq<SetArgView>, step: spec_fn(V, SetArgView) -> Option<V>) -> (V, Option<int>)
    decreases args.len(),
{
    if args.len() == 0 {
        (v, None)
    } else {
        let (w, failed) = run_steps(v, args.drop_last(), step);
        match failed {
            Some(i) => (w, Some(i)),
            None => match step(w, args.last()) {
                Some(x) => (x, None),
                None => (w, Some(args.len() - 1)),
            },
        }
    }
}

/// A refusal, when there is one, is at a position of the list.
pub proof fn lemma_run_steps_failure_in_range<V>(v: V, args: Seq<SetArgView>, step: spec_fn(V, SetArgView) -> Option<V>)
    ensures
        run_steps(v, args, step).1 matches Some(i) ==> 0 <= i < args.len(),
    decreases args.len(),
{
    if args.len() > 0 {
        lemma_run_steps_failure_in_range(v, args.drop_last(), step);
    }
}

/// Assignments after a refused one have no effect.
pub proof fn lemma_run_steps_prefix<V>(v: V, args: Seq<SetArgView>, n: int, step: spec_fn(V, SetArgView) -> Option<V>)
    requires
        0 <= n <= args.len(),
        run_steps(v, args.take(n), step).1 is Some,
    ensures
        run_steps(v, args, step) == run_steps(v, args.take(n), step),
    decreases args.len() - n,
{
    if n < args.len() {
        assert(args.take(n + 1).drop_last() == args.take(n));
        assert(run_steps(v, args.take(n + 1), step) == run_steps(v, args.take(n), step));
        lemma_run_steps_prefix(v, args, n + 1, step);
    } else {
        assert(args.take(n) == args);
    }
}

/// Whether reading the value of `arg` into a typed field can complete.
pub fn value_readable(arg: &SetArg) -> (r: bool)
    ensures
        r == number_readable(arg@),
{
    match parse_i32_str(arg.value.as_str()) {
        Some(_) => true,
        None => match arg.float {
            FloatReading::NonFinite => false,
            _ => true,
        },
    }
}

/// Reads the value of a text field.
pub fn read_text_field(arg: &SetArg) -> (r: Result<String, SetError>)
    requires
        number_readable(arg@),
    ensures
        match r {
            Ok(t) => text_field(arg@) == Some(t@),
            Err(SetError::InvalidValue { field, value }) => text_field(arg@) is None && field@ == arg.key@ && value@ == arg.value@,
            Err(_) => false,
        },
{
    if parse_i32_str(arg.value.as_str()).is_some() || arg.float == FloatReading::Finite {
        Err(SetError::InvalidValue { field: arg.key.clone(), value: arg.value.clone() })
    } else {
        Ok(arg.value.clone())
    }
}

/// Reads the value of an `i32` field.
pub fn read_i32_field(arg: &SetArg) -> (r: Result<i32, SetError>)
    ensures
        match r {
            Ok(n) => i32_field(arg@) == Some(n),
            Err(SetError::InvalidValue { field, value }) => i32_field(arg@) is None && field@ == arg.key@ && value@ == arg.value@,
            Err(_) => false,
        },
{
    match parse_i32_str(arg.value.as_str()) {
        Some(n) => Ok(n),
        None => Err(SetError::InvalidValue { field: arg.key.clone(), value: arg.value.clone() }),
    }
}

/// Reads the value of an `i64` field.
pub fn read_i64_field(arg: &SetArg) -> (r: Result<i64, SetError>)
    ensures
        match r {
            Ok(n) => i64_field(arg@) == Some(n),
            Err(SetError::InvalidValue { field, value }) => i64_field(arg@) is None && field@ == arg.key@ && value@ == arg.value@,
            Err(_) => false,
        },
{
    match parse_i32_str(arg.value.as_str()) {
        Some(n) => Ok(n as i64),
        None => Err(SetError::InvalidValue { field: arg.key.clone(), value: arg.value.clone() }),
    }
}

/// Reads the status name of a status assignment.
pub fn read_status_text(arg: &SetArg) -> (r: Result<String, SetError>)
    ensures
        match r {
            Ok(t) => status_text(arg@) == Some(t@),
            Err(SetError::InvalidStatus { value }) => status_text(arg@) is None && value@ == arg.value@,
            Err(_) => false,
        },
{
    match decode_quoted(arg.value.as_str()) {
        Some(t) => Ok(t),
        None => Err(SetError::InvalidStatus { value: arg.value.clone() }),
    }
}

} // verus!
