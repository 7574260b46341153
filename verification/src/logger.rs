//! The logger sink's record formats. The sink itself is a single consumer of
//! an unbounded channel, run by the surrounding process; the library fixes
//! which format each record is written in.

use vstd::prelude::*;

verus! {

/// Supported logger formats.
#[derive(Clone, Copy, Debug, PartialEq, Eq, Structural)]
pub enum SwanlingLogFormat {
    /// Comma separated values, one record per line.
    Csv,
    /// One JSON object per line.
    Json,
    /// The record's debug representation.
    Raw,
}

/// Parses a log format name as the command line accepts it.
pub fn parse_log_format(s: &Vec<char>) -> (r: Option<SwanlingLogFormat>)
    ensures
        r == Some(SwanlingLogFormat::Csv) <==> s@ == "csv"@,
        r == Some(SwanlingLogFormat::Json) <==> s@ == "json"@,
        r == Some(SwanlingLogFormat::Raw) <==> s@ == "raw"@,
        r is None <==> (s@ != "csv"@ && s@ != "json"@ && s@ != "raw"@),
{
    proof {
        reveal_strlit("csv");
        reveal_strlit("json");
        reveal_strlit("raw");
        assert("csv"@.len() == 3 && "json"@.len() == 4 && "raw"@.len() == 3);
        assert("csv"@[0] == 'c' && "raw"@[0] == 'r');
    }
    if chars_match(s, "csv") {
        Some(SwanlingLogFormat::Csv)
    } else if chars_match(s, "json") {
        Some(SwanlingLogFormat::Json)
    } else if chars_match(s, "raw") {
        Some(SwanlingLogFormat::Raw)
    } else {
        None
    }
}

/// Compares a character vector with a string slice.
pub fn chars_match(s: &Vec<char>, lit: &str) -> (r: bool)
    ensures
        r == (s@ == lit@),
{
    let n = lit.unicode_len();
    if s.len() != n {
        proof {
            assert(s@.len() != lit@.len());
        }
        return false;
    }
    let mut i: usize = 0;
    while i < n
        invariant
            i <= n,
            n == lit@.len(),
            s@.len() == n,
            forall|j: int| 0 <= j < i ==> s@[j] == lit@[j],
        decreases n - i,
    {
        if s[i] != lit.get_char(i) {
            return false;
        }
        i = i + 1;
    }
    proof {
        assert(s@ =~= lit@);
    }
    true
}

} // verus!
