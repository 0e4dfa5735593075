//! The errors of the library.
use vstd::prelude::*;

use crate::day::{day_text, Day};
use crate::text::{decimal, push_decimal, push_signed, signed_padded};
use crate::week::{weekday_name, Weekday};

verus! {

/// What can go wrong: text that does not parse, a range or series that cannot
/// be built, or data that disagrees with what a cache already holds.
#[allow(inconsistent_fields)]
#[derive(Clone, Debug)]
pub enum Error {
    /// New data for `point` differs from the data already cached for it.
    GotNonMatchingNewData { point: i32, old: i64, new: i64 },
    /// `input` is not text of the form that `ty_name` is written in.
    ParseCustom { ty_name: &'static str, input: String },
    /// A range cannot be built from no periods.
    EmptyRange,
    /// A range of `range` periods was given `data` values.
    NonMatchingLength { range: u64, data: usize },
    /// The week starting on `date` does not start on the `required` day.
    UnexpectedStartDate { date: Day, required: Weekday, actual: Weekday },
    /// A period of `expected` minutes was given data tagged for `got` minutes.
    WrongMinutesLength { expected: u16, got: u16 },
    /// A week starting on `expected` was given data tagged for weeks starting
    /// on `got`.
    WrongStartDay { expected: Weekday, got: String },
}

/// The message that describes error `e`.
pub open spec fn error_message(e: Error) -> Seq<char> {
    match e {
        Error::GotNonMatchingNewData { point, old, new } => "Got new data for "@ + signed_padded(
            point as int,
            1,
        ) + ": "@ + signed_padded(new as int, 1) + " different from data already in the cache "@
            + signed_padded(old as int, 1),
        Error::ParseCustom { ty_name, input } => "Error parsing "@ + ty_name@ + " from input: "@
            + input@,
        Error::EmptyRange => "Time range cannot be created from an empty set of periods"@,
        Error::NonMatchingLength { range, data } => "A range of "@ + decimal(range as nat)
            + " periods cannot hold "@ + decimal(data as nat) + " values"@,
        Error::UnexpectedStartDate { date, required, actual } => "The week starting "@ + day_text(
            date.0 as int,
        ) + " starts on a "@ + weekday_name(actual.index()) + " but must start on a "@
            + weekday_name(required.index()),
        Error::WrongMinutesLength { expected, got } => "Expected periods of "@ + decimal(
            expected as nat,
        ) + " minutes but got periods of "@ + decimal(got as nat) + " minutes"@,
        Error::WrongStartDay { expected, got } => "Expected weeks starting on "@ + weekday_name(
            expected.index(),
        ) + " but got weeks starting on "@ + got@,
    }
}

impl Error {
    /// The message that describes the error.
    #[verifier::rlimit(30)]
    pub fn message(&self) -> (r: String)
        ensures
            r@ == error_message(*self),
    {
        let mut out = String::new();
        match self {
            Error::GotNonMatchingNewData { point, old, new } => {
                proof {
                    reveal_strlit("Got new data for ");
                    reveal_strlit(": ");
                    reveal_strlit(" different from data already in the cache ");
                }
                out.append("Got new data for ");
                push_signed(&mut out, *point as i64);
                out.append(": ");
                push_signed(&mut out, *new);
                out.append(" different from data already in the cache ");
                push_signed(&mut out, *old);
            },
            Error::ParseCustom { ty_name, input } => {
                proof {
                    reveal_strlit("Error parsing ");
                    reveal_strlit(" from input: ");
                }
                out.append("Error parsing ");
                out.append(ty_name);
                out.append(" from input: ");
                out.append(input.as_str());
            },
            Error::EmptyRange => {
                proof {
                    reveal_strlit("Time range cannot be created from an empty set of periods");
                }
                out.append("Time range cannot be created from an empty set of periods");
            },
            Error::NonMatchingLength { range, data } => {
                proof {
                    reveal_strlit("A range of ");
                    reveal_strlit(" periods cannot hold ");
                    reveal_strlit(" values");
                }
                out.append("A range of ");
                push_decimal(&mut out, *range);
                out.append(" periods cannot hold ");
                push_decimal(&mut out, *data as u64);
                out.append(" values");
            },
            Error::UnexpectedStartDate { date, required, actual } => {
                proof {
                    reveal_strlit("The week starting ");
                    reveal_strlit(" starts on a ");
                    reveal_strlit(" but must start on a ");
                }
                out.append("The week starting ");
                let d = date.to_string();
                out.append(d.as_str());
                out.append(" starts on a ");
                out.append(actual.name());
                out.append(" but must start on a ");
                out.append(required.name());
            },
            Error::WrongMinutesLength { expected, got } => {
                proof {
                    reveal_strlit("Expected periods of ");
                    reveal_strlit(" minutes but got periods of ");
                    reveal_strlit(" minutes");
                }
                out.append("Expected periods of ");
                push_decimal(&mut out, *expected as u64);
                out.append(" minutes but got periods of ");
                push_decimal(&mut out, *got as u64);
                out.append(" minutes");
            },
            Error::WrongStartDay { expected, got } => {
                proof {
                    reveal_strlit("Expected weeks starting on ");
                    reveal_strlit(" but got weeks starting on ");
                }
                out.append("Expected weeks starting on ");
                out.append(expected.name());
                out.append(" but got weeks starting on ");
                out.append(got.as_str());
            },
        }
        out
    }
}

/// Whether `r` is the error for text `input` that is not of the form `ty`
/// values are written in.
pub open spec fn is_parse_error<T>(r: Result<T, Error>, ty: Seq<char>, input: Seq<char>) -> bool {
    match r {
        Err(Error::ParseCustom { ty_name, input: i }) => ty_name@ == ty && i@ == input,
        _ => false,
    }
}

/// The error for text `input` that is not of the form `ty_name` values are
/// written in.
pub fn parse_error(ty_name: &'static str, input: &str) -> (r: Error)
    ensures
        is_parse_error(Err::<(), Error>(r), ty_name@, input@),
{
    Error::ParseCustom { ty_name, input: String::from_str(input) }
}

} // verus!
