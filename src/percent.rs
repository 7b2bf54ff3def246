//! Percentages as fixed-point hundredths.
use vstd::prelude::*;

verus! {

/// A full bar: 100.00 percent, in hundredths.
pub const PERCENT_FULL: u16 = 10000;

pub open spec fn is_digit(c: char) -> bool {
    '0' <= c && c <= '9'
}

pub open spec fn digit_value(c: char) -> nat {
    (c as nat - '0' as nat) as nat
}

pub open spec fn all_digits(s: Seq<char>) -> bool {
    forall|i: int| 0 <= i < s.len() ==> is_digit(#[trigger] s[i])
}

/// The value of a sequence of decimal digits, most significant first.
pub open spec fn digits_value(s: Seq<char>) -> nat
    decreases s.len(),
{
    if s.len() == 0 {
        0
    } else {
        digits_value(s.drop_last()) * 10 + digit_value(s.last())
    }
}

/// The number of decimal digits at the start of `s`.
pub open spec fn whole_len(s: Seq<char>) -> nat
    decreases s.len(),
{
    if s.len() == 0 || !is_digit(s[0]) {
        0
    } else {
        1 + whole_len(s.drop_first())
    }
}

/// `s` without one trailing percent sign, if it has one.
pub open spec fn strip_percent(s: Seq<char>) -> Seq<char> {
    if s.len() > 0 && s.last() == '%' {
        s.drop_last()
    } else {
        s
    }
}

/// A number: digits, then optionally a point and more digits, with at
/// least one digit in all; the whole optionally followed by a percent sign.
pub open spec fn is_percentage_text(s: Seq<char>) -> bool {
    let b = strip_percent(s);
    let n = whole_len(b) as int;
    if n == b.len() {
        n >= 1
    } else {
        b[n] == '.' && all_digits(b.subrange(n + 1, b.len() as int)) && (n >= 1 || b.len() > n + 1)
    }
}

/// Hundredths given by the first two digits of a fraction; later digits are
/// cut off.
pub open spec fn fraction_hundredths(f: Seq<char>) -> nat {
    (if f.len() > 0 { digit_value(f[0]) * 10 } else { 0 }) + (if f.len() > 1 {
        digit_value(f[1])
    } else {
        0
    })
}

/// The number that `s` spells, in hundredths, truncated toward zero.
pub open spec fn hundredths_of(s: Seq<char>) -> nat {
    let b = strip_percent(s);
    let n = whole_len(b) as int;
    digits_value(b.subrange(0, n)) * 100 + (if n < b.len() {
        fraction_hundredths(b.subrange(n + 1, b.len() as int))
    } else {
        0
    })
}

pub open spec fn min_nat(a: nat, b: nat) -> nat {
    if a < b {
        a
    } else {
        b
    }
}

/// The percentage that `s` spells, in hundredths, held to the full bar.
pub open spec fn percentage_of(s: Seq<char>) -> nat {
    min_nat(hundredths_of(s), PERCENT_FULL as nat)
}

/// The text is not a number.
#[derive(Debug, Clone, Copy, PartialEq, Eq, Structural)]
pub struct ParseError;

proof fn lemma_whole_len_step(b: Seq<char>, i: int)
    requires
        0 <= i < b.len(),
        is_digit(b[i]),
    ensures
        whole_len(b.subrange(i, b.len() as int)) == 1 + whole_len(b.subrange(i + 1, b.len() as int)),
{
    let s = b.subrange(i, b.len() as int);
    assert(s.drop_first() =~= b.subrange(i + 1, b.len() as int));
}

proof fn lemma_whole_len_digits(b: Seq<char>, i: int)
    requires
        0 <= i <= b.len(),
        all_digits(b.subrange(0, i)),
    ensures
        whole_len(b) == i + whole_len(b.subrange(i, b.len() as int)),
    decreases i,
{
    if i > 0 {
        lemma_whole_len_digits(b, i - 1);
        assert(b.subrange(0, i)[i - 1] == b[i - 1]);
        lemma_whole_len_step(b, i - 1);
    } else {
        assert(b.subrange(0, b.len() as int) =~= b);
    }
}

/// Whether the characters of `s` from `from` up to `to` are all digits.
fn digits_between(s: &str, from: usize, to: usize) -> (r: bool)
    requires
        from <= to <= s@.len(),
    ensures
        r == all_digits(s@.subrange(from as int, to as int)),
{
    let ghost f = s@.subrange(from as int, to as int);
    let mut j: usize = from;
    while j < to
        invariant
            from <= j <= to <= s@.len(),
            f == s@.subrange(from as int, to as int),
            forall|k: int| from <= k < j ==> is_digit(#[trigger] s@[k]),
        decreases to - j,
    {
        let c = s.get_char(j);
        if !('0' <= c && c <= '9') {
            assert(f[j - from] == c);
            return false;
        }
        j = j + 1;
    }
    assert forall|k: int| 0 <= k < f.len() implies is_digit(#[trigger] f[k]) by {
        assert(f[k] == s@[k + from]);
    }
    true
}

/// Reads a percentage such as `42`, `42%`, `.5` or `99.5%` into hundredths of a
/// percent, truncating further fraction digits; values above a full bar are
/// held to it.
pub fn parse_percentage(s: &str) -> (r: Result<u16, ParseError>)
    ensures
        r is Ok <==> is_percentage_text(s@),
        r matches Ok(v) ==> v as nat == percentage_of(s@),
{
    let len = s.unicode_len();
    let mut end = len;
    if len > 0 && s.get_char(len - 1) == '%' {
        end = len - 1;
    }
    let ghost b = strip_percent(s@);
    assert(b =~= s@.subrange(0, end as int));
    let mut i: usize = 0;
    let mut whole: u64 = 0;
    while i < end
        invariant
            end <= len == s@.len(),
            b == s@.subrange(0, end as int),
            i <= end,
            all_digits(b.subrange(0, i as int)),
            whole as nat == min_nat(digits_value(b.subrange(0, i as int)), 1000),
        ensures
            i <= end,
            all_digits(b.subrange(0, i as int)),
            whole as nat == min_nat(digits_value(b.subrange(0, i as int)), 1000),
            i < end ==> !is_digit(b[i as int]),
        decreases end - i,
    {
        let c = s.get_char(i);
        if !('0' <= c && c <= '9') {
            break;
        }
        let d = (c as u32 - '0' as u32) as u64;
        proof {
            let p = b.subrange(0, i as int + 1);
            assert(p.drop_last() =~= b.subrange(0, i as int));
            assert(p.last() == c);
            assert(digits_value(p) == digits_value(b.subrange(0, i as int)) * 10 + d);
            assert forall|k: int| 0 <= k < p.len() implies is_digit(#[trigger] p[k]) by {
                if k < i {
                    assert(p[k] == b.subrange(0, i as int)[k]);
                }
            }
        }
        if whole < 1000 {
            whole = whole * 10 + d;
            if whole > 1000 {
                whole = 1000;
            }
        }
        i = i + 1;
    }
    proof {
        lemma_whole_len_digits(b, i as int);
        if i < end {
            assert(b.subrange(i as int, b.len() as int)[0] == b[i as int]);
        }
        assert(whole_len(b) == i);
    }
    if end == 0 {
        return Err(ParseError);
    }
    let mut frac: u64 = 0;
    if i < end {
        if s.get_char(i) != '.' {
            return Err(ParseError);
        }
        if i == 0 && end < 2 {
            return Err(ParseError);
        }
        let ghost f = b.subrange(i + 1, b.len() as int);
        assert(f =~= s@.subrange(i + 1, end as int));
        if !digits_between(s, i + 1, end) {
            return Err(ParseError);
        }
        if i + 1 < end {
            let c = s.get_char(i + 1);
            assert(f[0] == c);
            frac = (c as u32 - '0' as u32) as u64 * 10;
        }
        if end - i > 2 {
            let c = s.get_char(i + 2);
            assert(f[1] == c);
            frac = frac + (c as u32 - '0' as u32) as u64;
        }
    }
    let total = whole * 100 + frac;
    proof {
        let w = digits_value(b.subrange(0, i as int));
        assert(frac < 100);
        assert(hundredths_of(s@) == w * 100 + frac);
        if w >= 1000 {
            assert(w * 100 >= 100000) by (nonlinear_arith)
                requires w >= 1000;
        }
    }
    if total >= PERCENT_FULL as u64 {
        Ok(PERCENT_FULL)
    } else {
        Ok(total as u16)
    }
}

} // verus!
