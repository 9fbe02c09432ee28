//! Capability Detector: resolve the target architecture from an explicit
//! override, or from the driver query tool's two-line output.
use crate::errors::{ConfigIssue, Error, ParseIssue};
use crate::text::{
    digits_value, is_uint_str, parse_usize, parse_usize_skipping, spec_lines, split_lines, str_eq,
    without_sep,
};
use vstd::prelude::*;
use vstd::string::*;

verus! {

/// The header token expected on the first line of the driver query
/// output.
pub open spec fn header_chars() -> Seq<char> {
    seq!['c', 'o', 'm', 'p', 'u', 't', 'e', '_', 'c', 'a', 'p']
}

/// An override string that resolves to an architecture.
pub open spec fn override_ok(s: Seq<char>) -> bool {
    is_uint_str(s) && digits_value(s) <= usize::MAX as int
}

/// What a result of parsing the override must look like.
pub open spec fn override_result_ok(s: Seq<char>, r: Result<usize, Error>) -> bool {
    match r {
        Ok(n) => override_ok(s) && n as int == digits_value(s),
        Err(e) => !override_ok(s) && (e matches Error::Config(ConfigIssue::BadOverride { raw })
            && raw@ == s),
    }
}

/// What a result of parsing the driver query output must look like.
pub open spec fn driver_result_ok(out: Seq<char>, r: Result<usize, Error>) -> bool {
    let ls = spec_lines(out);
    match r {
        Ok(n) => ls.len() >= 2 && ls[0] == header_chars() && is_uint_str(without_sep(ls[1], '.'))
            && n as int == digits_value(without_sep(ls[1], '.')),
        Err(e) => match e {
            Error::Parse(ParseIssue::MissingHeaderLine) => ls.len() == 0,
            Error::Parse(ParseIssue::HeaderMismatch) => ls.len() >= 1 && ls[0] != header_chars(),
            Error::Parse(ParseIssue::MissingDataLine) => ls.len() == 1 && ls[0] == header_chars(),
            Error::Parse(ParseIssue::MalformedData { raw }) => ls.len() >= 2 && ls[0]
                == header_chars() && raw@ == ls[1] && !(is_uint_str(without_sep(ls[1], '.'))
                && digits_value(without_sep(ls[1], '.')) <= usize::MAX as int),
            _ => false,
        },
    }
}

/// Parse the explicit override as an unsigned integer; anything else is
/// a configuration error naming the raw value.
pub fn parse_override(s: &str) -> (r: Result<usize, Error>)
    ensures
        override_result_ok(s@, r),
{
    match parse_usize(s) {
        Some(n) => Ok(n),
        None => Err(Error::Config(ConfigIssue::BadOverride { raw: s.to_owned() })),
    }
}

/// Parse the driver query output: a fixed header line, then a data line
/// `<major>.<minor>` read as an integer with the dot stripped.
pub fn parse_driver_query(out: &str) -> (r: Result<usize, Error>)
    ensures
        driver_result_ok(out@, r),
{
    let lines = split_lines(out);
    if lines.len() == 0 {
        return Err(Error::Parse(ParseIssue::MissingHeaderLine));
    }
    let header = lines[0];
    proof {
        reveal_strlit("compute_cap");
        assert("compute_cap"@ =~= header_chars());
        assert(header@ == spec_lines(out@)[0]);
    }
    if !str_eq(header, "compute_cap") {
        return Err(Error::Parse(ParseIssue::HeaderMismatch));
    }
    if lines.len() == 1 {
        return Err(Error::Parse(ParseIssue::MissingDataLine));
    }
    let data = lines[1];
    proof {
        assert(data@ == spec_lines(out@)[1]);
    }
    match parse_usize_skipping(data, '.') {
        Some(n) => Ok(n),
        None => Err(Error::Parse(ParseIssue::MalformedData { raw: data.to_owned() })),
    }
}

/// Resolve the architecture: an override present decides alone; without
/// one, the driver query output decides, and a missing or failed query
/// tool is a toolchain error.
pub fn detect_arch(override_val: Option<&String>, driver_out: Option<&String>) -> (r: Result<
    usize,
    Error,
>)
    ensures
        match override_val {
            Some(s) => override_result_ok(s@, r),
            None => match driver_out {
                Some(out) => driver_result_ok(out@, r),
                None => r matches Err(Error::Toolchain { tool }) && tool@ == "nvidia-smi"@,
            },
        },
{
    match override_val {
        Some(s) => parse_override(s.as_str()),
        None => match driver_out {
            Some(out) => parse_driver_query(out.as_str()),
            None => Err(Error::Toolchain { tool: String::from_str("nvidia-smi") }),
        },
    }
}

/// An override pins the outcome: any two results that are correct for
/// the same override string agree, whatever the driver reported.
pub proof fn lemma_override_determines(
    s: Seq<char>,
    r1: Result<usize, Error>,
    r2: Result<usize, Error>,
)
    requires
        override_result_ok(s, r1),
        override_result_ok(s, r2),
    ensures
        r1 is Ok <==> r2 is Ok,
        r1 is Ok ==> r1 == r2,
{
}

} // verus!
