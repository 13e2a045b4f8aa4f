//! The unit a timing measurement is expressed in.
use vstd::prelude::*;

verus! {

use crate::textkey::lower_seq;
use crate::textkey::lower_code;
use crate::textkey::eq_ci;

/// The time unit of a measurement. All observations of one group must
/// share one unit; a mismatch is an error, never converted away.
#[derive(Debug, Eq, PartialEq, Copy, Clone, Structural)]
pub enum TimeUnit {
    /// Nanoseconds.
    NS,
    /// Milliseconds.
    MS,
}

/// The text that failed to parse as a time unit.
#[derive(Debug, Clone)]
pub struct ParseTimeUnitError(pub String);

impl TimeUnit {
    /// Parse a unit name, case-insensitively: "ns" or "ms".
    pub fn from_str(s: &str) -> (r: Result<TimeUnit, ParseTimeUnitError>)
        ensures
            (r == Ok::<TimeUnit, ParseTimeUnitError>(TimeUnit::NS)) == (lower_seq(s@)
                == lower_seq("ns"@)),
            (r == Ok::<TimeUnit, ParseTimeUnitError>(TimeUnit::MS)) == (lower_seq(s@)
                == lower_seq("ms"@)),
            r is Err == (lower_seq(s@) != lower_seq("ns"@) && lower_seq(s@) != lower_seq("ms"@)),
            r matches Err(e) ==> e.0@ == s@,
    {
        proof {
            reveal_strlit("ns");
            reveal_strlit("ms");
            assert(lower_seq("ns"@)[0] == lower_code('n'));
            assert(lower_seq("ms"@)[0] == lower_code('m'));
            assert(lower_seq("ns"@) != lower_seq("ms"@));
        }
        if eq_ci(s, "ns") {
            Ok(TimeUnit::NS)
        } else if eq_ci(s, "ms") {
            Ok(TimeUnit::MS)
        } else {
            Err(ParseTimeUnitError(s.to_owned()))
        }
    }

    /// The display name of the unit.
    pub fn label(&self) -> (r: &'static str)
        ensures
            *self == TimeUnit::NS ==> r@ == "ns"@,
            *self == TimeUnit::MS ==> r@ == "ms"@,
    {
        match self {
            TimeUnit::NS => "ns",
            TimeUnit::MS => "ms",
        }
    }
}

} // verus!
