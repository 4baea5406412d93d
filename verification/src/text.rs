//! Text transformations of the parser: trimming the whitespace a text run
//! can carry at its edges, stripping underscores from numeric literals, and
//! reading a decimal integer literal.

use vstd::prelude::*;

use crate::chars::dec_digit;
use crate::chars::is_dec_digit;
use crate::chars::slice_chars;

verus! {

/// The whitespace characters a token stream can leave at the edge of a text
/// run: space, tab, newline and carriage return.
pub open spec fn is_edge_ws(c: char) -> bool {
    c == ' ' || c == '\t' || c == '\n' || c == '\r'
}

pub open spec fn trim_start_of(s: Seq<char>) -> Seq<char>
    decreases s.len(),
{
    if s.len() == 0 {
        s
    } else if is_edge_ws(s[0]) {
        trim_start_of(s.drop_first())
    } else {
        s
    }
}

pub open spec fn trim_end_of(s: Seq<char>) -> Seq<char>
    decreases s.len(),
{
    if s.len() == 0 {
        s
    } else if is_edge_ws(s.last()) {
        trim_end_of(s.drop_last())
    } else {
        s
    }
}

/// `s` with leading and trailing whitespace removed.
pub open spec fn spec_trim(s: Seq<char>) -> Seq<char> {
    trim_end_of(trim_start_of(s))
}

fn edge_ws(c: char) -> (r: bool)
    ensures
        r == is_edge_ws(c),
{
    c == ' ' || c == '\t' || c == '\n' || c == '\r'
}

/// A copy of `v` with leading and trailing whitespace removed.
pub fn trim_chars(v: &Vec<char>) -> (r: Vec<char>)
    ensures
        r@ == spec_trim(v@),
{
    let len: usize = v.len();
    proof {
        assert(v@.subrange(0, len as int) =~= v@);
    }
    let mut start: usize = 0;
    while start < len && edge_ws(v[start])
        invariant
            start <= len == v@.len(),
            trim_start_of(v@) == trim_start_of(v@.subrange(start as int, len as int)),
        decreases len - start,
    {
        proof {
            assert(v@.subrange(start as int, len as int).drop_first() =~= v@.subrange(
                start as int + 1,
                len as int,
            ));
        }
        start = start + 1;
    }
    proof {
        assert(trim_start_of(v@) =~= v@.subrange(start as int, len as int));
    }
    let mut end: usize = len;
    while end > start && edge_ws(v[end - 1])
        invariant
            start <= end <= len == v@.len(),
            trim_start_of(v@) == v@.subrange(start as int, len as int),
            trim_end_of(v@.subrange(start as int, len as int)) == trim_end_of(
                v@.subrange(start as int, end as int),
            ),
        decreases end,
    {
        proof {
            assert(v@.subrange(start as int, end as int).drop_last() =~= v@.subrange(
                start as int,
                end as int - 1,
            ));
        }
        end = end - 1;
    }
    proof {
        assert(trim_end_of(v@.subrange(start as int, end as int)) =~= v@.subrange(
            start as int,
            end as int,
        ));
    }
    slice_chars(v, start, end)
}

/// A sequence that begins with a non-whitespace character does not trim to
/// nothing.
pub proof fn lemma_trim_keeps(s: Seq<char>)
    requires
        s.len() > 0,
        !is_edge_ws(s[0]),
    ensures
        spec_trim(s).len() > 0,
{
    assert(trim_start_of(s) == s);
    lemma_trim_end_keeps(s);
}

proof fn lemma_trim_end_keeps(s: Seq<char>)
    requires
        s.len() > 0,
        !is_edge_ws(s[0]),
    ensures
        trim_end_of(s).len() > 0,
    decreases s.len(),
{
    if is_edge_ws(s.last()) {
        assert(s.len() > 1);
        assert(s.drop_last()[0] == s[0]);
        lemma_trim_end_keeps(s.drop_last());
    }
}

/// A sequence with a non-whitespace character anywhere does not trim to
/// nothing.
pub proof fn lemma_trim_keeps_any(s: Seq<char>, j: int)
    requires
        0 <= j < s.len(),
        !is_edge_ws(s[j]),
    ensures
        spec_trim(s).len() > 0,
    decreases s.len(),
{
    if is_edge_ws(s[0]) {
        assert(j >= 1);
        assert(s.drop_first()[j - 1] == s[j]);
        lemma_trim_keeps_any(s.drop_first(), j - 1);
        assert(trim_start_of(s) == trim_start_of(s.drop_first()));
    } else {
        lemma_trim_keeps(s);
    }
}

/// A sequence of whitespace alone trims to nothing.
pub proof fn lemma_trim_all_ws(s: Seq<char>)
    requires
        forall|j: int| 0 <= j < s.len() ==> is_edge_ws(#[trigger] s[j]),
    ensures
        spec_trim(s).len() == 0,
    decreases s.len(),
{
    if s.len() > 0 {
        assert forall|j: int| 0 <= j < s.drop_first().len() implies is_edge_ws(
            #[trigger] s.drop_first()[j],
        ) by {
            assert(s.drop_first()[j] == s[j + 1]);
        }
        lemma_trim_all_ws(s.drop_first());
    }
}

/// `s` with every underscore removed.
pub open spec fn strip_underscores(s: Seq<char>) -> Seq<char>
    decreases s.len(),
{
    if s.len() == 0 {
        Seq::empty()
    } else if s.last() == '_' {
        strip_underscores(s.drop_last())
    } else {
        strip_underscores(s.drop_last()).push(s.last())
    }
}

/// A copy of `v` with every underscore removed.
pub fn strip_underscores_chars(v: &Vec<char>) -> (r: Vec<char>)
    ensures
        r@ == strip_underscores(v@),
{
    let len: usize = v.len();
    let mut out: Vec<char> = Vec::new();
    let mut i: usize = 0;
    while i < len
        invariant
            i <= len == v@.len(),
            out@ == strip_underscores(v@.subrange(0, i as int)),
        decreases len - i,
    {
        proof {
            assert(v@.subrange(0, i as int + 1).drop_last() =~= v@.subrange(0, i as int));
            assert(v@.subrange(0, i as int + 1).last() == v@[i as int]);
        }
        let c = v[i];
        if c != '_' {
            out.push(c);
        }
        i = i + 1;
    }
    proof {
        assert(v@.subrange(0, len as int) =~= v@);
    }
    out
}

/// Whether every character of `s` is a decimal digit.
pub open spec fn all_digits(s: Seq<char>) -> bool {
    forall|i: int| 0 <= i < s.len() ==> is_dec_digit(#[trigger] s[i])
}

/// The integer the decimal digits of `s` denote, most significant first.
pub open spec fn digits_value(s: Seq<char>) -> int
    decreases s.len(),
{
    if s.len() == 0 {
        0
    } else {
        digits_value(s.drop_last()) * 10 + (s.last() as u32 - 48)
    }
}

/// The integer an integer literal denotes, once underscores are stripped: an
/// optional leading minus followed by at least one digit; anything else
/// denotes nothing.
pub open spec fn spec_parse_int(s: Seq<char>) -> Option<int> {
    let t = strip_underscores(s);
    if t.len() >= 1 && t[0] == '-' {
        let d = t.drop_first();
        if d.len() >= 1 && all_digits(d) {
            Some(-digits_value(d))
        } else {
            None
        }
    } else if t.len() >= 1 && all_digits(t) {
        Some(digits_value(t))
    } else {
        None
    }
}

proof fn lemma_digits_nonneg(s: Seq<char>)
    requires
        all_digits(s),
    ensures
        digits_value(s) >= 0,
    decreases s.len(),
{
    if s.len() > 0 {
        assert forall|i: int| 0 <= i < s.drop_last().len() implies is_dec_digit(
            #[trigger] s.drop_last()[i],
        ) by {
            assert(s.drop_last()[i] == s[i]);
        }
        lemma_digits_nonneg(s.drop_last());
        assert(is_dec_digit(s[s.len() - 1]));
    }
}

proof fn lemma_digits_prefix(s: Seq<char>, j: int)
    requires
        all_digits(s),
        0 <= j <= s.len(),
    ensures
        digits_value(s) >= digits_value(s.take(j)),
    decreases s.len() - j,
{
    if j == s.len() {
        assert(s.take(j) =~= s);
    } else {
        lemma_digits_prefix(s, j + 1);
        let t = s.take(j + 1);
        assert(t.drop_last() =~= s.take(j));
        assert forall|i: int| 0 <= i < t.drop_last().len() implies is_dec_digit(
            #[trigger] t.drop_last()[i],
        ) by {
            assert(t.drop_last()[i] == s[i]);
        }
        lemma_digits_nonneg(t.drop_last());
        assert(t.last() == s[j]);
        assert(is_dec_digit(s[j]));
        assert(digits_value(t) == digits_value(t.drop_last()) * 10 + (t.last() as u32 - 48));
        assert(digits_value(t) >= digits_value(t.drop_last()));
    }
}

/// Reads a decimal integer literal (underscores allowed, optional leading
/// minus). `None` means the text denotes no integer, or one outside the
/// range of `i64`.
pub fn parse_int_chars(text: &Vec<char>) -> (r: Option<i64>)
    ensures
        match r {
            Some(v) => spec_parse_int(text@) == Some(v as int),
            None => spec_parse_int(text@) is None || (spec_parse_int(text@) matches Some(n) && (n
                < i64::MIN || i64::MAX < n)),
        },
{
    let t = strip_underscores_chars(text);
    let tlen: usize = t.len();
    if tlen == 0 {
        return None;
    }
    let neg = t[0] == '-';
    let startd: usize = if neg {
        1
    } else {
        0
    };
    if tlen == startd {
        return None;
    }
    let ghost digits = if neg {
        t@.drop_first()
    } else {
        t@
    };
    proof {
        if neg {
            assert(digits =~= t@.subrange(startd as int, tlen as int));
        } else {
            assert(digits =~= t@.subrange(startd as int, tlen as int));
        }
    }
    let mut i: usize = startd;
    let mut acc: u64 = 0;
    let dmax: u64 = if neg {
        8
    } else {
        7
    };
    while i < tlen
        invariant
            startd <= i <= tlen == t@.len(),
            t@ == strip_underscores(text@),
            1 <= tlen,
            neg == (t@[0] == '-'),
            startd == (if neg { 1int } else { 0int }),
            digits == (if neg { t@.drop_first() } else { t@ }),
            digits == t@.subrange(startd as int, tlen as int),
            digits.len() >= 1,
            acc <= 9223372036854775807 + (if neg { 1int } else { 0int }),
            dmax == (if neg { 8int } else { 7int }),
            all_digits(t@.subrange(startd as int, i as int)),
            acc as int == digits_value(t@.subrange(startd as int, i as int)),
        decreases tlen - i,
    {
        let c = t[i];
        if !dec_digit(c) {
            proof {
                assert(digits[i as int - startd] == t@[i as int]);
                assert(!is_dec_digit(digits[i as int - startd]));
                assert(!all_digits(digits));
            }
            return None;
        }
        let d: u64 = (c as u32 - 48) as u64;
        proof {
            assert(t@.subrange(startd as int, i as int + 1).drop_last() =~= t@.subrange(
                startd as int,
                i as int,
            ));
            assert(t@.subrange(startd as int, i as int + 1).last() == t@[i as int]);
        }
        if acc > 922337203685477580 || (acc == 922337203685477580 && d > dmax) {
            proof {
                let pre = t@.subrange(startd as int, i as int + 1);
                assert(pre.last() == t@[i as int]);
                assert(d == t@[i as int] as u32 - 48);
                assert(digits_value(pre) == acc as int * 10 + d);
                assert(digits_value(pre) > 9223372036854775807 + (if neg {
                    1int
                } else {
                    0int
                }));
                if all_digits(digits) {
                    assert(pre =~= digits.take(i + 1 - startd));
                    lemma_digits_prefix(digits, i + 1 - startd);
                    assert(digits_value(digits) >= digits_value(pre));
                    if neg {
                        assert(spec_parse_int(text@) == Some(-digits_value(digits)));
                        assert(-digits_value(digits) < i64::MIN);
                    } else {
                        assert(spec_parse_int(text@) == Some(digits_value(digits)));
                        assert(digits_value(digits) > i64::MAX);
                    }
                } else {
                    assert(spec_parse_int(text@) is None);
                }
            }
            return None;
        }
        proof {
            assert(d == t@[i as int] as u32 - 48);
        }
        acc = acc * 10 + d;
        i = i + 1;
        proof {
            assert forall|j: int| 0 <= j < i - startd implies is_dec_digit(
                #[trigger] t@.subrange(startd as int, i as int)[j],
            ) by {
                assert(t@.subrange(startd as int, i as int)[j] == t@[startd + j]);
                if startd + j < i - 1 {
                    assert(t@.subrange(startd as int, i as int - 1)[j] == t@[startd + j]);
                }
            }
        }
    }
    proof {
        assert(t@.subrange(startd as int, tlen as int) =~= digits);
    }
    if neg {
        if acc > 9223372036854775807 {
            return Some(i64::MIN);
        }
        Some(-(acc as i64))
    } else {
        Some(acc as i64)
    }
}

} // verus!
