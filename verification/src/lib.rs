//! Natural language date parsing: absolute dates and dates relative to a
//! configurable "today".
use vstd::prelude::*;

pub mod calendar;
pub mod text;
mod chrono_ops;
pub mod parser;
pub mod util;
pub mod properties;

pub use calendar::{Date, Month, OutOfBounds, Weekday};
pub use parser::config::{FirstDay, ParserConfig};
pub use parser::Parser;

verus! {

/// Parses input with the default settings, today's date taken from the local
/// clock: the result is what [`Parser::try_parse`] gives under
/// [`ParserConfig::defaults`] of that date.
pub fn try_parse(input: &str) -> (r: Result<Option<Date>, OutOfBounds>)
    ensures
        exists|today: Date|
            #![trigger ParserConfig::defaults(today)]
            calendar::opt_date_res(r) == parser::parse_result(ParserConfig::defaults(today), input@),
{
    let p: Parser = Parser::new();
    let r = p.try_parse(input);
    assert(calendar::opt_date_res(r) == parser::parse_result(ParserConfig::defaults(p@.today), input@));
    r
}

} // verus!
