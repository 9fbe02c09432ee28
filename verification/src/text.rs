//! Character-level helpers shared by the parsers: decimal digits and
//! separator-based splitting, specified over `Seq<char>`.
use vstd::prelude::*;
use vstd::string::*;

verus! {

/// An ASCII decimal digit.
pub open spec fn is_digit(c: char) -> bool {
    48 <= c as u32 && c as u32 <= 57
}

/// Numeric value of a digit character.
pub open spec fn digit_val(c: char) -> int {
    c as u32 - 48
}

/// Every character of `s` is a decimal digit.
pub open spec fn is_digits(s: Seq<char>) -> bool {
    forall|i: int| 0 <= i < s.len() ==> is_digit(#[trigger] s[i])
}

/// A non-empty, all-digit string: the shape `parse_usize` accepts.
pub open spec fn is_uint_str(s: Seq<char>) -> bool {
    s.len() > 0 && is_digits(s)
}

/// Value of a digit string read most-significant first.
pub open spec fn digits_value(s: Seq<char>) -> int
    decreases s.len(),
{
    if s.len() == 0 {
        0
    } else {
        digits_value(s.drop_last()) * 10 + digit_val(s.last())
    }
}

pub proof fn lemma_digits_value_nonneg(s: Seq<char>)
    requires
        is_digits(s),
    ensures
        digits_value(s) >= 0,
    decreases s.len(),
{
    if s.len() > 0 {
        assert(is_digits(s.drop_last()));
        lemma_digits_value_nonneg(s.drop_last());
    }
}

/// On an all-digit string the value of a prefix never exceeds the value
/// of the whole.
pub proof fn lemma_digits_value_mono(s: Seq<char>, k: int)
    requires
        is_digits(s),
        0 <= k <= s.len(),
    ensures
        digits_value(s.subrange(0, k)) <= digits_value(s),
    decreases s.len() - k,
{
    if k == s.len() {
        assert(s.subrange(0, k) =~= s);
    } else {
        assert(s.subrange(0, k + 1).drop_last() =~= s.subrange(0, k));
        assert(is_digits(s.subrange(0, k)));
        lemma_digits_value_nonneg(s.subrange(0, k));
        assert(digits_value(s.subrange(0, k + 1)) == digits_value(s.subrange(0, k)) * 10
            + digit_val(s[k]));
        lemma_digits_value_mono(s, k + 1);
    }
}

/// Parse a non-empty all-digit string as an unsigned integer; anything
/// else, and any value past `usize::MAX`, is refused.
pub fn parse_usize(s: &str) -> (r: Option<usize>)
    ensures
        match r {
            Some(n) => is_uint_str(s@) && n as int == digits_value(s@),
            None => !(is_uint_str(s@) && digits_value(s@) <= usize::MAX as int),
        },
{
    let n = s.unicode_len();
    if n == 0 {
        return None;
    }
    let mut acc: usize = 0;
    let mut i: usize = 0;
    while i < n
        invariant
            0 <= i <= n,
            n == s@.len(),
            is_digits(s@.subrange(0, i as int)),
            acc as int == digits_value(s@.subrange(0, i as int)),
        decreases n - i,
    {
        let c = s.get_char(i);
        let cv = c as u32;
        if cv < 48 || cv > 57 {
            assert(!is_digit(s@[i as int]));
            return None;
        }
        let d = (cv - 48) as usize;
        proof {
            assert(s@.subrange(0, i + 1).drop_last() =~= s@.subrange(0, i as int));
            assert(digits_value(s@.subrange(0, i + 1)) == acc * 10 + d);
        }
        if acc > (usize::MAX - d) / 10 {
            proof {
                vstd::arithmetic::div_mod::lemma_fundamental_div_mod((usize::MAX - d) as int, 10);
                assert(acc * 10 + d > usize::MAX);
                if is_digits(s@) {
                    lemma_digits_value_mono(s@, i + 1);
                }
            }
            return None;
        }
        proof {
            vstd::arithmetic::div_mod::lemma_fundamental_div_mod((usize::MAX - d) as int, 10);
            assert(acc * 10 + d <= usize::MAX);
        }
        acc = acc * 10 + d;
        i = i + 1;
    }
    proof {
        assert(s@.subrange(0, n as int) =~= s@);
    }
    Some(acc)
}

/// The digit character for a value below ten.
pub open spec fn digit_char(d: int) -> char {
    if d == 0 {
        '0'
    } else if d == 1 {
        '1'
    } else if d == 2 {
        '2'
    } else if d == 3 {
        '3'
    } else if d == 4 {
        '4'
    } else if d == 5 {
        '5'
    } else if d == 6 {
        '6'
    } else if d == 7 {
        '7'
    } else if d == 8 {
        '8'
    } else {
        '9'
    }
}

/// Decimal rendering of a non-negative integer, no leading zeros.
pub open spec fn dec_digits(n: int) -> Seq<char>
    decreases n,
{
    if n < 10 {
        seq![digit_char(n)]
    } else {
        dec_digits(n / 10).push(digit_char(n % 10))
    }
}

fn digit_str(d: usize) -> (s: &'static str)
    requires
        d < 10,
    ensures
        s@ =~= seq![digit_char(d as int)],
{
    if d == 0 {
        proof { reveal_strlit("0"); }
        "0"
    } else if d == 1 {
        proof { reveal_strlit("1"); }
        "1"
    } else if d == 2 {
        proof { reveal_strlit("2"); }
        "2"
    } else if d == 3 {
        proof { reveal_strlit("3"); }
        "3"
    } else if d == 4 {
        proof { reveal_strlit("4"); }
        "4"
    } else if d == 5 {
        proof { reveal_strlit("5"); }
        "5"
    } else if d == 6 {
        proof { reveal_strlit("6"); }
        "6"
    } else if d == 7 {
        proof { reveal_strlit("7"); }
        "7"
    } else if d == 8 {
        proof { reveal_strlit("8"); }
        "8"
    } else {
        proof { reveal_strlit("9"); }
        "9"
    }
}

/// Render an unsigned integer in decimal.
pub fn render_usize(n: usize) -> (r: String)
    ensures
        r@ == dec_digits(n as int),
    decreases n,
{
    if n < 10 {
        let mut s = String::new();
        s.append(digit_str(n));
        proof {
            assert(s@ =~= dec_digits(n as int));
        }
        s
    } else {
        let mut s = render_usize(n / 10);
        s.append(digit_str(n % 10));
        proof {
            assert(s@ =~= dec_digits(n as int));
        }
        s
    }
}

pub proof fn lemma_digit_char_val(d: int)
    requires
        0 <= d < 10,
    ensures
        is_digit(digit_char(d)),
        digit_val(digit_char(d)) == d,
{
}

/// Rendering then reading a number gives the number back.
pub proof fn lemma_dec_digits_value(n: int)
    requires
        n >= 0,
    ensures
        is_uint_str(dec_digits(n)),
        digits_value(dec_digits(n)) == n,
    decreases n,
{
    if n < 10 {
        lemma_digit_char_val(n);
        assert(dec_digits(n).drop_last() =~= Seq::<char>::empty());
        assert(dec_digits(n).last() == digit_char(n));
        assert(digits_value(Seq::<char>::empty()) == 0);
        assert(digits_value(dec_digits(n)) == 0 * 10 + digit_val(digit_char(n)));
    } else {
        lemma_dec_digits_value(n / 10);
        lemma_digit_char_val(n % 10);
        assert(dec_digits(n).drop_last() =~= dec_digits(n / 10));
        assert(dec_digits(n).last() == digit_char(n % 10));
        assert forall|i: int| 0 <= i < dec_digits(n).len() implies is_digit(
            #[trigger] dec_digits(n)[i],
        ) by {
            if i < dec_digits(n).len() - 1 {
                assert(dec_digits(n)[i] == dec_digits(n / 10)[i]);
            } else {
                assert(dec_digits(n)[i] == digit_char(n % 10));
            }
        }
        assert(digits_value(dec_digits(n)) == digits_value(dec_digits(n / 10)) * 10 + digit_val(
            digit_char(n % 10),
        ));
        vstd::arithmetic::div_mod::lemma_fundamental_div_mod(n, 10);
    }
}

/// Character-for-character string equality.
pub fn str_eq(a: &str, b: &str) -> (r: bool)
    ensures
        r == (a@ == b@),
{
    let na = a.unicode_len();
    let nb = b.unicode_len();
    if na != nb {
        return false;
    }
    let mut i: usize = 0;
    while i < na
        invariant
            0 <= i <= na,
            na == a@.len(),
            na == b@.len(),
            forall|j: int| 0 <= j < i ==> a@[j] == b@[j],
        decreases na - i,
    {
        if a.get_char(i) != b.get_char(i) {
            return false;
        }
        i = i + 1;
    }
    proof {
        assert(a@ =~= b@);
    }
    true
}

/// The pieces of `s` between occurrences of `sep`, with the separators
/// removed; empty pieces are kept, and a string without the separator is
/// one piece.
pub open spec fn spec_split(s: Seq<char>, sep: char) -> Seq<Seq<char>>
    decreases s.len(),
{
    if s.len() == 0 {
        seq![Seq::<char>::empty()]
    } else {
        let rest = spec_split(s.drop_first(), sep);
        if s[0] == sep {
            seq![Seq::<char>::empty()] + rest
        } else {
            seq![seq![s[0]] + rest[0]] + rest.drop_first()
        }
    }
}

pub proof fn lemma_split_len(s: Seq<char>, sep: char)
    ensures
        spec_split(s, sep).len() >= 1,
    decreases s.len(),
{
    if s.len() > 0 {
        lemma_split_len(s.drop_first(), sep);
    }
}

/// Appending the separator adds one empty piece at the end.
pub proof fn lemma_split_push_sep(s: Seq<char>, sep: char)
    ensures
        spec_split(s.push(sep), sep) == spec_split(s, sep).push(Seq::<char>::empty()),
    decreases s.len(),
{
    lemma_split_len(s, sep);
    if s.len() == 0 {
        assert(s =~= Seq::<char>::empty());
        assert(s.push(sep)[0] == sep);
        assert(s.push(sep).drop_first() =~= Seq::<char>::empty());
        assert(spec_split(Seq::<char>::empty(), sep) == seq![Seq::<char>::empty()]);
        assert(spec_split(s.push(sep), sep) == seq![Seq::<char>::empty()] + spec_split(
            s.push(sep).drop_first(),
            sep,
        ));
        assert(spec_split(s.push(sep), sep) =~= spec_split(s, sep).push(Seq::<char>::empty()));
    } else {
        let t = s.drop_first();
        let rest = spec_split(t, sep);
        lemma_split_push_sep(t, sep);
        lemma_split_len(t, sep);
        assert(s.push(sep).drop_first() =~= t.push(sep));
        assert(spec_split(t.push(sep), sep) == rest.push(Seq::<char>::empty()));
        if s[0] == sep {
            assert(spec_split(s.push(sep), sep) == seq![Seq::<char>::empty()] + rest.push(
                Seq::<char>::empty(),
            ));
            assert(spec_split(s, sep) == seq![Seq::<char>::empty()] + rest);
            assert(seq![Seq::<char>::empty()] + rest.push(Seq::<char>::empty()) =~= (
            seq![Seq::<char>::empty()] + rest).push(Seq::<char>::empty()));
        } else {
            assert(rest.push(Seq::<char>::empty())[0] == rest[0]);
            assert(spec_split(s.push(sep), sep) == seq![seq![s[0]] + rest[0]] + rest.push(
                Seq::<char>::empty(),
            ).drop_first());
            assert(spec_split(s, sep) == seq![seq![s[0]] + rest[0]] + rest.drop_first());
            assert(rest.push(Seq::<char>::empty()).drop_first() =~= rest.drop_first().push(
                Seq::<char>::empty(),
            ));
            assert(seq![seq![s[0]] + rest[0]] + rest.drop_first().push(Seq::<char>::empty()) =~= (
            seq![seq![s[0]] + rest[0]] + rest.drop_first()).push(Seq::<char>::empty()));
        }
    }
}

/// Appending any other character extends the last piece.
pub proof fn lemma_split_push_chr(s: Seq<char>, sep: char, c: char)
    requires
        c != sep,
    ensures
        spec_split(s.push(c), sep) == spec_split(s, sep).drop_last().push(
            spec_split(s, sep).last().push(c),
        ),
    decreases s.len(),
{
    lemma_split_len(s, sep);
    if s.len() == 0 {
        assert(s =~= Seq::<char>::empty());
        assert(s.push(c)[0] == c);
        assert(s.push(c).drop_first() =~= Seq::<char>::empty());
        assert(spec_split(Seq::<char>::empty(), sep) == seq![Seq::<char>::empty()]);
        assert(spec_split(s.push(c), sep) == seq![seq![c] + spec_split(
            s.push(c).drop_first(),
            sep,
        )[0]] + spec_split(s.push(c).drop_first(), sep).drop_first());
        assert(seq![Seq::<char>::empty()].drop_first() =~= Seq::<Seq<char>>::empty());
        assert(Seq::<char>::empty().push(c) =~= seq![c] + Seq::<char>::empty());
        assert(spec_split(s.push(c), sep) =~= spec_split(s, sep).drop_last().push(
            spec_split(s, sep).last().push(c),
        ));
    } else {
        let t = s.drop_first();
        let rest = spec_split(t, sep);
        lemma_split_push_chr(t, sep, c);
        lemma_split_len(t, sep);
        assert(s.push(c).drop_first() =~= t.push(c));
        let rest2 = rest.drop_last().push(rest.last().push(c));
        assert(spec_split(t.push(c), sep) == rest2);
        assert(rest2.len() == rest.len());
        if s[0] == sep {
            assert(spec_split(s.push(c), sep) == seq![Seq::<char>::empty()] + rest2);
            assert(spec_split(s, sep) == seq![Seq::<char>::empty()] + rest);
            assert((seq![Seq::<char>::empty()] + rest).last() == rest.last());
            assert(seq![Seq::<char>::empty()] + rest2 =~= (seq![Seq::<char>::empty()]
                + rest).drop_last().push(rest.last().push(c)));
        } else {
            assert(rest2[0] == if rest.len() == 1 {
                rest.last().push(c)
            } else {
                rest[0]
            });
            assert(spec_split(s.push(c), sep) == seq![seq![s[0]] + rest2[0]] + rest2.drop_first());
            assert(spec_split(s, sep) == seq![seq![s[0]] + rest[0]] + rest.drop_first());
            if rest.len() == 1 {
                assert(seq![seq![s[0]] + rest2[0]] + rest2.drop_first() =~= (seq![seq![s[0]]
                    + rest[0]] + rest.drop_first()).drop_last().push((seq![seq![s[0]] + rest[0]]
                    + rest.drop_first()).last().push(c)));
            } else {
                assert((seq![seq![s[0]] + rest[0]] + rest.drop_first()).last() == rest.last());
                assert(rest2.drop_first() =~= rest.drop_first().drop_last().push(
                    rest.last().push(c),
                ));
                assert(seq![seq![s[0]] + rest2[0]] + rest2.drop_first() =~= (seq![seq![s[0]]
                    + rest[0]] + rest.drop_first()).drop_last().push(rest.last().push(c)));
            }
        }
    }
}

/// Split `s` on `sep`, keeping empty pieces, as `spec_split` describes.
pub fn split_str<'a>(s: &'a str, sep: char) -> (r: Vec<&'a str>)
    ensures
        r.deep_view() == spec_split(s@, sep),
{
    let n = s.unicode_len();
    let mut pieces: Vec<&'a str> = Vec::new();
    let mut start: usize = 0;
    let mut i: usize = 0;
    proof {
        assert(s@.subrange(0, 0) =~= Seq::<char>::empty());
        assert(pieces.deep_view() + seq![s@.subrange(0, 0)] =~~= spec_split(
            s@.subrange(0, 0),
            sep,
        ));
    }
    while i < n
        invariant
            0 <= start <= i <= n,
            n == s@.len(),
            pieces.deep_view() + seq![s@.subrange(start as int, i as int)] == spec_split(
                s@.subrange(0, i as int),
                sep,
            ),
        decreases n - i,
    {
        let c = s.get_char(i);
        proof {
            assert(s@.subrange(0, i + 1) =~= s@.subrange(0, i as int).push(s@[i as int]));
        }
        if c == sep {
            let piece = s.substring_char(start, i);
            pieces.push(piece);
            proof {
                lemma_split_push_sep(s@.subrange(0, i as int), sep);
                assert(s@.subrange(i + 1, i + 1) =~= Seq::<char>::empty());
                assert(pieces.deep_view() + seq![s@.subrange(i + 1, i + 1)] =~~= spec_split(
                    s@.subrange(0, i + 1),
                    sep,
                ));
            }
            start = i + 1;
        } else {
            proof {
                lemma_split_push_chr(s@.subrange(0, i as int), sep, s@[i as int]);
                lemma_split_len(s@.subrange(0, i as int), sep);
                assert(s@.subrange(start as int, i + 1) =~= s@.subrange(
                    start as int,
                    i as int,
                ).push(s@[i as int]));
                assert(pieces.deep_view() + seq![s@.subrange(start as int, i + 1)] =~~= spec_split(
                    s@.subrange(0, i + 1),
                    sep,
                ));
            }
        }
        i = i + 1;
    }
    let piece = s.substring_char(start, n);
    pieces.push(piece);
    proof {
        assert(s@.subrange(0, n as int) =~= s@);
        assert(pieces.deep_view() =~~= spec_split(s@, sep));
    }
    pieces
}

/// `s` with every occurrence of `sep` removed.
pub open spec fn without_sep(s: Seq<char>, sep: char) -> Seq<char>
    decreases s.len(),
{
    if s.len() == 0 {
        Seq::<char>::empty()
    } else if s[0] == sep {
        without_sep(s.drop_first(), sep)
    } else {
        seq![s[0]] + without_sep(s.drop_first(), sep)
    }
}

pub proof fn lemma_without_sep_push(s: Seq<char>, sep: char, c: char)
    ensures
        without_sep(s.push(c), sep) == if c == sep {
            without_sep(s, sep)
        } else {
            without_sep(s, sep).push(c)
        },
    decreases s.len(),
{
    if s.len() == 0 {
        assert(s =~= Seq::<char>::empty());
        assert(s.push(c)[0] == c);
        assert(s.push(c).drop_first() =~= Seq::<char>::empty());
        assert(without_sep(Seq::<char>::empty(), sep) == Seq::<char>::empty());
        if c != sep {
            assert(without_sep(s.push(c), sep) =~= without_sep(s, sep).push(c));
        }
    } else {
        lemma_without_sep_push(s.drop_first(), sep, c);
        assert(s.push(c).drop_first() =~= s.drop_first().push(c));
        assert(s.push(c)[0] == s[0]);
        if c == sep {
            assert(without_sep(s.push(c), sep) =~= without_sep(s, sep));
        } else if s[0] == sep {
            assert(without_sep(s.push(c), sep) =~= without_sep(s, sep).push(c));
        } else {
            assert(without_sep(s.push(c), sep) =~= without_sep(s, sep).push(c));
        }
    }
}

/// Parse as an unsigned integer after dropping every `sep` (the shape
/// `<major>.<minor>` with the dot stripped).
pub fn parse_usize_skipping(s: &str, sep: char) -> (r: Option<usize>)
    ensures
        match r {
            Some(n) => is_uint_str(without_sep(s@, sep)) && n as int == digits_value(
                without_sep(s@, sep),
            ),
            None => !(is_uint_str(without_sep(s@, sep)) && digits_value(without_sep(s@, sep))
                <= usize::MAX as int),
        },
{
    let n = s.unicode_len();
    let mut acc: usize = 0;
    let mut seen: bool = false;
    let mut i: usize = 0;
    proof {
        assert(s@.subrange(0, 0) =~= Seq::<char>::empty());
    }
    while i < n
        invariant
            0 <= i <= n,
            n == s@.len(),
            is_digits(without_sep(s@.subrange(0, i as int), sep)),
            acc as int == digits_value(without_sep(s@.subrange(0, i as int), sep)),
            seen == (without_sep(s@.subrange(0, i as int), sep).len() > 0),
        decreases n - i,
    {
        let c = s.get_char(i);
        proof {
            assert(s@.subrange(0, i + 1) =~= s@.subrange(0, i as int).push(s@[i as int]));
            lemma_without_sep_push(s@.subrange(0, i as int), sep, s@[i as int]);
        }
        if c == sep {
            i = i + 1;
            continue;
        }
        let cv = c as u32;
        let ghost w = without_sep(s@.subrange(0, i as int), sep);
        if cv < 48 || cv > 57 {
            proof {
                lemma_without_sep_prefix(s@, sep, i as int);
                assert(without_sep(s@, sep)[w.len() as int] == s@[i as int]);
                assert(!is_digit(without_sep(s@, sep)[w.len() as int]));
            }
            return None;
        }
        let d = (cv - 48) as usize;
        proof {
            assert(without_sep(s@.subrange(0, i + 1), sep).drop_last() =~= w);
            assert(digits_value(without_sep(s@.subrange(0, i + 1), sep)) == acc * 10 + d);
        }
        if acc > (usize::MAX - d) / 10 {
            proof {
                vstd::arithmetic::div_mod::lemma_fundamental_div_mod((usize::MAX - d) as int, 10);
                assert(acc * 10 + d > usize::MAX);
                lemma_without_sep_prefix(s@, sep, i + 1);
                if is_digits(without_sep(s@, sep)) {
                    lemma_digits_value_mono(
                        without_sep(s@, sep),
                        without_sep(s@.subrange(0, i + 1), sep).len() as int,
                    );
                }
            }
            return None;
        }
        proof {
            vstd::arithmetic::div_mod::lemma_fundamental_div_mod((usize::MAX - d) as int, 10);
            assert(acc * 10 + d <= usize::MAX);
        }
        acc = acc * 10 + d;
        seen = true;
        i = i + 1;
    }
    proof {
        assert(s@.subrange(0, n as int) =~= s@);
    }
    if seen {
        Some(acc)
    } else {
        None
    }
}

/// The stripped form of a prefix of `s` is a prefix of the stripped form
/// of `s`, and the next kept character follows it directly.
pub proof fn lemma_without_sep_prefix(s: Seq<char>, sep: char, i: int)
    requires
        0 <= i <= s.len(),
    ensures
        without_sep(s.subrange(0, i), sep).len() <= without_sep(s, sep).len(),
        without_sep(s.subrange(0, i), sep) == without_sep(s, sep).subrange(
            0,
            without_sep(s.subrange(0, i), sep).len() as int,
        ),
        i < s.len() && s[i] != sep ==> without_sep(s.subrange(0, i), sep).len() < without_sep(
            s,
            sep,
        ).len() && without_sep(s, sep)[without_sep(s.subrange(0, i), sep).len() as int] == s[i],
    decreases s.len() - i,
{
    if i == s.len() {
        assert(s.subrange(0, i) =~= s);
        assert(without_sep(s, sep).subrange(0, without_sep(s, sep).len() as int) =~= without_sep(
            s,
            sep,
        ));
    } else {
        assert(s.subrange(0, i + 1) =~= s.subrange(0, i).push(s[i]));
        lemma_without_sep_push(s.subrange(0, i), sep, s[i]);
        lemma_without_sep_prefix(s, sep, i + 1);
        let w = without_sep(s.subrange(0, i), sep);
        let w1 = without_sep(s.subrange(0, i + 1), sep);
        if s[i] == sep {
        } else {
            assert(w1 == w.push(s[i]));
            assert(w =~= without_sep(s, sep).subrange(0, w.len() as int));
            assert(without_sep(s, sep)[w.len() as int] == w1[w.len() as int]);
        }
    }
}

/// A line with a trailing carriage return removed.
pub open spec fn strip_cr(l: Seq<char>) -> Seq<char> {
    if l.len() > 0 && l.last() == '\r' {
        l.drop_last()
    } else {
        l
    }
}

/// The lines of `s`: pieces between newlines, one trailing empty piece
/// dropped when `s` ends in a newline, carriage returns stripped.
pub open spec fn spec_lines(s: Seq<char>) -> Seq<Seq<char>> {
    if s.len() == 0 {
        Seq::<Seq<char>>::empty()
    } else {
        let ps = spec_split(s, '\n');
        let qs = if s.last() == '\n' {
            ps.drop_last()
        } else {
            ps
        };
        qs.map_values(|l: Seq<char>| strip_cr(l))
    }
}

/// Split `s` into lines as `spec_lines` describes.
pub fn split_lines<'a>(s: &'a str) -> (r: Vec<&'a str>)
    ensures
        r.deep_view() == spec_lines(s@),
{
    let n = s.unicode_len();
    let mut out: Vec<&'a str> = Vec::new();
    if n == 0 {
        proof {
            assert(out.deep_view() =~~= spec_lines(s@));
        }
        return out;
    }
    let mut pieces = split_str(s, '\n');
    if s.get_char(n - 1) == '\n' {
        proof {
            lemma_split_len(s@, '\n');
        }
        pieces.pop();
    }
    let ghost qs = if s@.last() == '\n' {
        spec_split(s@, '\n').drop_last()
    } else {
        spec_split(s@, '\n')
    };
    proof {
        assert(pieces.deep_view() == qs);
    }
    let m = pieces.len();
    let mut i: usize = 0;
    while i < m
        invariant
            0 <= i <= m,
            m == qs.len(),
            pieces.deep_view() == qs,
            out.deep_view() == qs.map_values(|l: Seq<char>| strip_cr(l)).take(i as int),
        decreases m - i,
    {
        let piece = pieces[i];
        let pl = piece.unicode_len();
        let line = if pl > 0 && piece.get_char(pl - 1) == '\r' {
            piece.substring_char(0, pl - 1)
        } else {
            piece
        };
        proof {
            assert(line@ == strip_cr(qs[i as int]));
        }
        let ghost out0 = out.deep_view();
        out.push(line);
        proof {
            assert(out.deep_view() =~~= out0.push(line@));
            assert(qs.map_values(|l: Seq<char>| strip_cr(l))[i as int] == strip_cr(
                qs[i as int],
            ));
            assert(out0.push(line@) =~~= qs.map_values(|l: Seq<char>| strip_cr(l)).take(
                i + 1,
            ));
        }
        i = i + 1;
    }
    proof {
        assert(qs.map_values(|l: Seq<char>| strip_cr(l)).take(m as int) =~~= spec_lines(s@));
    }
    out
}

} // verus!
