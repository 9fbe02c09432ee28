//! Toolchain Catalog: the set of architectures the compiler can target,
//! parsed tolerantly from its listing output, and the validation of the
//! detected architecture against that set.
use crate::errors::{ConfigIssue, Error};
use crate::text::{digits_value, is_uint_str, parse_usize, spec_lines, spec_split, split_lines,
    split_str, str_eq};
use vstd::prelude::*;
use vstd::string::*;

verus! {

/// The architecture-family marker looked for in a listing line.
pub open spec fn sm_chars() -> Seq<char> {
    seq!['s', 'm']
}

/// The architecture a listing line names: lines split on `_` whose
/// pieces include the family marker and whose second piece is a number.
/// Every other line is skipped.
pub open spec fn spec_gpu_code(line: Seq<char>) -> Option<int> {
    let ps = spec_split(line, '_');
    if ps.contains(sm_chars()) && ps.len() >= 2 && is_uint_str(ps[1]) && digits_value(ps[1])
        <= usize::MAX as int {
        Some(digits_value(ps[1]))
    } else {
        None
    }
}

/// The architectures named by a sequence of listing lines, in order.
pub open spec fn spec_codes(lines: Seq<Seq<char>>) -> Seq<int>
    decreases lines.len(),
{
    if lines.len() == 0 {
        Seq::<int>::empty()
    } else {
        spec_codes(lines.drop_last()) + match spec_gpu_code(lines.last()) {
            Some(n) => seq![n],
            None => Seq::<int>::empty(),
        }
    }
}

/// The architecture one listing line names, if any.
pub fn parse_gpu_code_line(line: &str) -> (r: Option<usize>)
    ensures
        match r {
            Some(n) => spec_gpu_code(line@) == Some(n as int),
            None => spec_gpu_code(line@) is None,
        },
{
    let pieces = split_str(line, '_');
    let mut has_marker: bool = false;
    let mut j: usize = 0;
    let m = pieces.len();
    while j < m
        invariant
            0 <= j <= m,
            m == pieces.deep_view().len(),
            pieces.deep_view() == spec_split(line@, '_'),
            has_marker == exists|k: int| 0 <= k < j && pieces.deep_view()[k] == sm_chars(),
        decreases m - j,
    {
        let piece = pieces[j];
        proof {
            reveal_strlit("sm");
            assert("sm"@ =~= sm_chars());
            assert(piece@ == pieces.deep_view()[j as int]);
        }
        if str_eq(piece, "sm") {
            proof {
                assert(pieces.deep_view()[j as int] == sm_chars());
            }
            has_marker = true;
        } else {
            proof {
                assert(pieces.deep_view()[j as int] != sm_chars());
            }
        }
        j = j + 1;
    }
    proof {
        assert(has_marker == spec_split(line@, '_').contains(sm_chars()));
    }
    if !has_marker {
        return None;
    }
    if pieces.len() < 2 {
        return None;
    }
    parse_usize(pieces[1])
}

/// All architectures the listing output names, in output order,
/// duplicates kept; unparseable lines are skipped silently.
pub fn parse_supported_set(out: &str) -> (r: Vec<usize>)
    ensures
        r@.map_values(|v: usize| v as int) == spec_codes(spec_lines(out@)),
{
    let lines = split_lines(out);
    let ghost ls = spec_lines(out@);
    let mut codes: Vec<usize> = Vec::new();
    let mut i: usize = 0;
    let m = lines.len();
    proof {
        assert(ls.take(0) =~= Seq::<Seq<char>>::empty());
        assert(codes@.map_values(|v: usize| v as int) =~= spec_codes(ls.take(0)));
    }
    while i < m
        invariant
            0 <= i <= m,
            m == ls.len(),
            lines.deep_view() == ls,
            codes@.map_values(|v: usize| v as int) == spec_codes(ls.take(i as int)),
        decreases m - i,
    {
        proof {
            assert(ls.take(i + 1).drop_last() =~= ls.take(i as int));
            assert(ls.take(i + 1).last() == ls[i as int]);
            assert(lines.deep_view()[i as int] == ls[i as int]);
        }
        match parse_gpu_code_line(lines[i]) {
            Some(n) => {
                codes.push(n);
                proof {
                    assert(codes@.map_values(|v: usize| v as int) =~= spec_codes(ls.take(i + 1)));
                }
            },
            None => {
                proof {
                    assert(codes@.map_values(|v: usize| v as int) =~= spec_codes(ls.take(i + 1)));
                }
            },
        }
        i = i + 1;
    }
    proof {
        assert(ls.take(m as int) =~= ls);
    }
    codes
}

/// The largest value in a sequence of codes; zero when it is empty.
pub open spec fn max_code(s: Seq<int>) -> int
    decreases s.len(),
{
    if s.len() == 0 {
        0
    } else if s.last() >= max_code(s.drop_last()) {
        s.last()
    } else {
        max_code(s.drop_last())
    }
}

/// The largest supported architecture, if any is supported at all.
pub fn max_supported(codes: &Vec<usize>) -> (r: Option<usize>)
    ensures
        match r {
            Some(m) => codes@.len() > 0 && m as int == max_code(
                codes@.map_values(|v: usize| v as int),
            ),
            None => codes@.len() == 0,
        },
{
    let ghost cs = codes@.map_values(|v: usize| v as int);
    let m = codes.len();
    if m == 0 {
        return None;
    }
    let mut max_seen: usize = codes[0];
    let mut i: usize = 1;
    proof {
        assert(cs.take(1).drop_last() =~= Seq::<int>::empty());
        assert(cs.take(1).last() == cs[0]);
        assert(cs[0] == codes@[0] as int);
        assert(max_code(Seq::<int>::empty()) == 0);
        assert(max_seen as int == max_code(cs.take(1)));
    }
    while i < m
        invariant
            1 <= i <= m,
            m == codes@.len(),
            cs == codes@.map_values(|v: usize| v as int),
            max_seen as int == max_code(cs.take(i as int)),
        decreases m - i,
    {
        proof {
            assert(cs.take(i + 1).drop_last() =~= cs.take(i as int));
            assert(cs.take(i + 1).last() == cs[i as int]);
            assert(cs[i as int] == codes@[i as int] as int);
        }
        let c = codes[i];
        if c > max_seen {
            max_seen = c;
        }
        i = i + 1;
    }
    proof {
        assert(cs.take(m as int) =~= cs);
    }
    Some(max_seen)
}

/// The architecture is a usable member of the supported set.
pub open spec fn arch_accepted(cap: int, cs: Seq<int>) -> bool {
    cs.len() > 0 && cap <= max_code(cs) && cs.contains(cap)
}

/// The one configuration error owed for an unusable architecture: an
/// empty set, a value above the set's maximum, or a non-member, each
/// reported apart.
pub open spec fn arch_rejected(cap: int, cs: Seq<int>, e: Error) -> bool {
    match e {
        Error::Config(ConfigIssue::EmptySupportedSet) => cs.len() == 0,
        Error::Config(ConfigIssue::ExceedsMax { requested, max }) => cs.len() > 0 && requested
            as int == cap && max as int == max_code(cs) && cap > max_code(cs),
        Error::Config(ConfigIssue::NotSupported { requested }) => cs.len() > 0 && requested as int
            == cap && cap <= max_code(cs) && !cs.contains(cap),
        _ => false,
    }
}

/// Validate the detected architecture against the supported set: the
/// set must be non-empty, the architecture must not exceed the set's
/// maximum, and it must be a member — three distinct failures.
pub fn validate_arch(cap: usize, codes: &Vec<usize>) -> (r: Result<(), Error>)
    ensures
        ({
            let cs = codes@.map_values(|v: usize| v as int);
            match r {
                Ok(()) => arch_accepted(cap as int, cs),
                Err(e) => arch_rejected(cap as int, cs, e),
            }
        }),
{
    let ghost cs = codes@.map_values(|v: usize| v as int);
    let m = codes.len();
    if m == 0 {
        return Err(Error::Config(ConfigIssue::EmptySupportedSet));
    }
    let mut max_seen: usize = codes[0];
    let mut found: bool = codes[0] == cap;
    let mut i: usize = 1;
    proof {
        assert(cs.take(1).drop_last() =~= Seq::<int>::empty());
        assert(cs.take(1).last() == cs[0]);
        assert(cs[0] == codes@[0] as int);
        assert(max_code(Seq::<int>::empty()) == 0);
        assert(max_seen as int == max_code(cs.take(1)));
    }
    while i < m
        invariant
            1 <= i <= m,
            m == codes@.len(),
            cs == codes@.map_values(|v: usize| v as int),
            max_seen as int == max_code(cs.take(i as int)),
            found == exists|k: int| 0 <= k < i && cs[k] == cap as int,
        decreases m - i,
    {
        proof {
            assert(cs.take(i + 1).drop_last() =~= cs.take(i as int));
            assert(cs.take(i + 1).last() == cs[i as int]);
            assert(cs[i as int] == codes@[i as int] as int);
        }
        let c = codes[i];
        if c > max_seen {
            max_seen = c;
        }
        if c == cap {
            found = true;
        }
        i = i + 1;
    }
    proof {
        assert(cs.take(m as int) =~= cs);
        assert(found == cs.contains(cap as int));
    }
    if cap > max_seen {
        return Err(
            Error::Config(ConfigIssue::ExceedsMax { requested: cap, max: max_seen }),
        );
    }
    if !found {
        return Err(Error::Config(ConfigIssue::NotSupported { requested: cap }));
    }
    Ok(())
}

} // verus!
