use vstd::prelude::*;
use crate::text::{parse_i32, parsed_i32};

verus! {

/// The first season the federations' ranking pages cover.
pub const MIN_YEAR: i32 = 2010;

/// The year a download request asks for, given the parsed `year` parameter:
/// absent means the current year; a number is accepted from `MIN_YEAR` up
/// to the current year; anything else is refused.
pub open spec fn requested_year(given: Option<Option<i32>>, current_year: i32) -> Option<i32> {
    match given {
        None => Some(current_year),
        Some(None) => None,
        Some(Some(y)) => if MIN_YEAR <= y && y <= current_year {
            Some(y)
        } else {
            None
        },
    }
}

/// Decides the requested year from the parameter as already parsed
/// (`Some(None)`: given but not a number).
pub fn check_year(given: Option<Option<i32>>, current_year: i32) -> (r: Option<i32>)
    ensures
        r == requested_year(given, current_year),
{
    match given {
        None => Some(current_year),
        Some(None) => None,
        Some(Some(y)) => {
            if MIN_YEAR <= y && y <= current_year {
                Some(y)
            } else {
                None
            }
        },
    }
}

/// Parses and checks the optional `year` parameter of a download request.
pub fn parse_year(year: Option<&str>, current_year: i32) -> (r: Option<i32>)
    ensures
        r == requested_year(
            match year {
                None => None,
                Some(s) => Some(parsed_i32(s@)),
            },
            current_year,
        ),
{
    let given = match year {
        None => None,
        Some(s) => Some(parse_i32(s)),
    };
    check_year(given, current_year)
}

} // verus!
