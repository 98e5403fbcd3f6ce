use vstd::prelude::*;

use crate::error::{Error, ErrorModel};
use crate::stream::{push_range, string_of};

verus! {

pub open spec fn is_digit(c: char) -> bool {
    '0' <= c && c <= '9'
}

/// A character that may stand in a numeric literal.
pub open spec fn is_number_char(c: char) -> bool {
    is_digit(c) || c == '.'
}

/// How many `.` a text holds.
pub open spec fn dot_count(s: Seq<char>) -> nat
    decreases s.len(),
{
    if s.len() == 0 {
        0
    } else {
        dot_count(s.drop_last()) + if s.last() == '.' { 1nat } else { 0nat }
    }
}

/// A text made of digits and `.` only.
pub open spec fn is_number_run(s: Seq<char>) -> bool {
    forall|k: int| 0 <= k < s.len() ==> is_number_char(#[trigger] s[k])
}

/// A run that reads as a number: digits and `.`, at most one `.`, at least one digit.
pub open spec fn is_valid_number(s: Seq<char>) -> bool {
    &&& is_number_run(s)
    &&& dot_count(s) <= 1
    &&& exists|k: int| 0 <= k < s.len() && is_digit(#[trigger] s[k])
}

/// Index of the first `.`, or the length where there is none.
pub open spec fn dot_index(s: Seq<char>) -> nat
    decreases s.len(),
{
    if s.len() == 0 || s[0] == '.' {
        0
    } else {
        1 + dot_index(s.drop_first())
    }
}

pub open spec fn strip_leading_zeros(s: Seq<char>) -> Seq<char>
    decreases s.len(),
{
    if s.len() > 0 && s[0] == '0' {
        strip_leading_zeros(s.drop_first())
    } else {
        s
    }
}

pub open spec fn strip_trailing_zeros(s: Seq<char>) -> Seq<char>
    decreases s.len(),
{
    if s.len() > 0 && s.last() == '0' {
        strip_trailing_zeros(s.drop_last())
    } else {
        s
    }
}

/// The digits after the first `.`; none where there is no `.`.
pub open spec fn fraction_part(s: Seq<char>) -> Seq<char> {
    if dot_index(s) < s.len() {
        s.subrange(dot_index(s) + 1int, s.len() as int)
    } else {
        Seq::empty()
    }
}

/// The canonical decimal text of a valid run: no leading zeros before the point
/// (a lone `0` where nothing is left), no trailing zeros after it, and no point
/// where no fractional digit is left.
pub open spec fn render_magnitude(s: Seq<char>) -> Seq<char> {
    let whole = strip_leading_zeros(s.take(dot_index(s) as int));
    let frac = strip_trailing_zeros(fraction_part(s));
    let w = if whole.len() == 0 { seq!['0'] } else { whole };
    if frac.len() == 0 { w } else { w + seq!['.'] + frac }
}

/// The text of the number that a run stands for, negated when `negative`.
pub open spec fn render_value(negative: bool, s: Seq<char>) -> Seq<char> {
    if negative { seq!['-'] + render_magnitude(s) } else { render_magnitude(s) }
}

/// The text of a numeric literal, or the failure that its run gives.
pub open spec fn number_text(negative: bool, s: Seq<char>) -> Result<Seq<char>, ErrorModel> {
    if is_valid_number(s) {
        Ok(render_value(negative, s))
    } else {
        Err(ErrorModel::ParsingNumber(s))
    }
}

pub fn is_number_char_exec(c: char) -> (r: bool)
    ensures
        r == is_number_char(c),
{
    ('0' <= c && c <= '9') || c == '.'
}

/// Checks that `number` is a valid run, and renders it as canonical decimal text.
pub fn validate_value(negative: bool, number: &Vec<char>) -> (r: Result<String, Error>)
    ensures
        match r {
            Ok(t) => number_text(negative, number@) == Ok::<Seq<char>, ErrorModel>(t@),
            Err(e) => number_text(negative, number@) == Err::<Seq<char>, ErrorModel>(e@),
        },
{
    let ghost s = number@;
    let n = number.len();
    let mut i: usize = 0;
    let mut all_num = true;
    let mut dots: usize = 0;
    let mut seen_digit = false;
    while i < n
        invariant
            n == s.len(),
            s == number@,
            i <= n,
            dots <= i,
            all_num == (forall|k: int| 0 <= k < i ==> is_number_char(#[trigger] s[k])),
            dots == dot_count(s.take(i as int)),
            seen_digit == (exists|k: int| 0 <= k < i && is_digit(#[trigger] s[k])),
        decreases n - i,
    {
        let c = number[i];
        assert(s.take(i + 1).drop_last() =~= s.take(i as int));
        if !is_number_char_exec(c) {
            all_num = false;
        }
        if c == '.' {
            dots = dots + 1;
        }
        if '0' <= c && c <= '9' {
            seen_digit = true;
        }
        i = i + 1;
    }
    assert(s.take(n as int) =~= s);
    if !(all_num && dots <= 1 && seen_digit) {
        return Err(Error::ParsingNumber(string_of(number)));
    }
    // first `.`
    let mut d: usize = 0;
    while d < n && number[d] != '.'
        invariant
            n == s.len(),
            s == number@,
            d <= n,
            dot_index(s) == d + dot_index(s.skip(d as int)),
        decreases n - d,
    {
        assert(s.skip(d as int).drop_first() =~= s.skip(d + 1));
        d = d + 1;
    }
    assert(dot_index(s) == d);
    // leading zeros of the whole part
    let mut lead: usize = 0;
    assert(s.take(d as int) =~= s.subrange(0, d as int));
    while lead < d && number[lead] == '0'
        invariant
            n == s.len(),
            s == number@,
            lead <= d <= n,
            strip_leading_zeros(s.take(d as int)) == strip_leading_zeros(s.subrange(lead as int, d as int)),
        decreases d - lead,
    {
        assert(s.subrange(lead as int, d as int).drop_first() =~= s.subrange(lead + 1, d as int));
        lead = lead + 1;
    }
    // trailing zeros of the fraction
    let fs: usize = if d < n { d + 1 } else { n };
    let mut end: usize = n;
    assert(fraction_part(s) =~= s.subrange(fs as int, n as int));
    while end > fs && number[end - 1] == '0'
        invariant
            n == s.len(),
            s == number@,
            fs <= end <= n,
            strip_trailing_zeros(fraction_part(s)) == strip_trailing_zeros(s.subrange(fs as int, end as int)),
        decreases end,
    {
        assert(s.subrange(fs as int, end as int).drop_last() =~= s.subrange(fs as int, end - 1));
        end = end - 1;
    }
    let ghost whole = s.subrange(lead as int, d as int);
    let ghost frac = s.subrange(fs as int, end as int);
    assert(strip_leading_zeros(whole) == whole);
    assert(strip_trailing_zeros(frac) == frac);
    let mut out = String::new();
    if negative {
        out.push('-');
    }
    let ghost sign = out@;
    if lead == d {
        out.push('0');
    } else {
        push_range(&mut out, number, lead, d);
    }
    if end > fs {
        out.push('.');
        push_range(&mut out, number, fs, end);
    }
    assert(sign == if negative { seq!['-'] } else { Seq::<char>::empty() });
    assert(out@ =~= render_value(negative, s));
    Ok(out)
}

} // verus!
