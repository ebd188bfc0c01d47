//! Characters of a string, white space, and decimal numbers.

use vstd::prelude::*;

verus! {

/// White space: the code points that carry the Unicode property `White_Space`.
pub open spec fn is_whitespace(c: char) -> bool {
    ||| '\u{9}' <= c <= '\u{d}'
    ||| c == ' '
    ||| c == '\u{85}'
    ||| c == '\u{a0}'
    ||| c == '\u{1680}'
    ||| '\u{2000}' <= c <= '\u{200a}'
    ||| c == '\u{2028}'
    ||| c == '\u{2029}'
    ||| c == '\u{202f}'
    ||| c == '\u{205f}'
    ||| c == '\u{3000}'
}

/// Tells whether `c` is white space.
pub fn whitespace(c: char) -> (b: bool)
    ensures
        b == is_whitespace(c),
{
    ('\u{9}' <= c && c <= '\u{d}') || c == ' ' || c == '\u{85}' || c == '\u{a0}' || c
        == '\u{1680}' || ('\u{2000}' <= c && c <= '\u{200a}') || c == '\u{2028}' || c
        == '\u{2029}' || c == '\u{202f}' || c == '\u{205f}' || c == '\u{3000}'
}

/// The characters of `s`, in order.
pub fn chars_of(s: &str) -> (v: Vec<char>)
    ensures
        v@ == s@,
{
    let mut v: Vec<char> = Vec::new();
    for c in it: s.chars()
        invariant
            v@ == it.seq().take(it.index() as int),
    {
        v.push(c);
    }
    v
}

/// `s` without the white space at its start.
pub open spec fn trim_start(s: Seq<char>) -> Seq<char>
    decreases s.len(),
{
    if s.len() > 0 && is_whitespace(s.first()) {
        trim_start(s.drop_first())
    } else {
        s
    }
}

/// `s` without the white space at its end.
pub open spec fn trim_end(s: Seq<char>) -> Seq<char>
    decreases s.len(),
{
    if s.len() > 0 && is_whitespace(s.last()) {
        trim_end(s.drop_last())
    } else {
        s
    }
}

/// `s` without the white space at either end.
pub open spec fn trim(s: Seq<char>) -> Seq<char> {
    trim_end(trim_start(s))
}

/// A text with no white space at its start or at its end is its own trim.
pub proof fn trim_keeps_tight_text(s: Seq<char>)
    requires
        s.len() > 0 ==> !is_whitespace(s.first()) && !is_whitespace(s.last()),
    ensures
        trim(s) == s,
{
}

/// Trimming the end of two texts put together trims the second, and goes
/// on into the first only if nothing of the second is left.
pub proof fn trim_end_of_joined(a: Seq<char>, b: Seq<char>)
    ensures
        trim_end(a + b) == if trim_end(b).len() > 0 {
            a + trim_end(b)
        } else {
            trim_end(a)
        },
    decreases b.len(),
{
    if b.len() == 0 {
        assert(a + b =~= a);
    } else if is_whitespace(b.last()) {
        assert((a + b).drop_last() =~= a + b.drop_last());
        trim_end_of_joined(a, b.drop_last());
    }
}

/// Trimming the end leaves the start in place, where the text starts with
/// no white space.
pub proof fn trim_end_keeps_first(s: Seq<char>)
    requires
        s.len() > 0,
        !is_whitespace(s.first()),
    ensures
        trim_end(s).len() > 0,
        trim_end(s).first() == s.first(),
    decreases s.len(),
{
    if is_whitespace(s.last()) {
        trim_end_keeps_first(s.drop_last());
    }
}

/// What is left after trimming the end has no white space at its end, so
/// trimming the end once more changes nothing.
pub proof fn trim_end_is_done(s: Seq<char>)
    ensures
        trim_end(s).len() > 0 ==> !is_whitespace(trim_end(s).last()),
        trim_end(trim_end(s)) == trim_end(s),
    decreases s.len(),
{
    if s.len() > 0 && is_whitespace(s.last()) {
        trim_end_is_done(s.drop_last());
    }
}

/// It makes no difference which end is trimmed first.
pub proof fn trims_commute(s: Seq<char>)
    ensures
        trim_end(trim_start(s)) == trim_start(trim_end(s)),
    decreases s.len(),
{
    if s.len() == 0 {
    } else if is_whitespace(s.first()) {
        let rest = s.drop_first();
        let head = seq![s.first()];
        trims_commute(rest);
        assert(s =~= head + rest);
        trim_end_of_joined(head, rest);
        if trim_end(rest).len() > 0 {
            let joined = head + trim_end(rest);
            assert(joined.first() == s.first());
            assert(joined.drop_first() =~= trim_end(rest));
            assert(trim_start(joined) == trim_start(trim_end(rest)));
        } else {
            assert(head.last() == s.first());
            assert(head.drop_last() =~= Seq::<char>::empty());
            assert(trim_end(head) == trim_end(head.drop_last()));
            assert(trim_end(s) =~= Seq::<char>::empty());
            assert(trim_end(rest) =~= Seq::<char>::empty());
        }
    } else {
        trim_end_keeps_first(s);
    }
}

/// Trimming a text whose end was trimmed before gives the trim of the
/// whole text.
pub proof fn trim_after_trim_end(s: Seq<char>)
    ensures
        trim(trim_end(s)) == trim(s),
{
    trims_commute(trim_end(s));
    trim_end_is_done(s);
    trims_commute(s);
}

/// Finds where `v[from..to]` starts and ends once the white space at either
/// end is left out.
pub(crate) fn trim_bounds(v: &Vec<char>, from: usize, to: usize) -> (r: (usize, usize))
    requires
        from <= to <= v.len(),
    ensures
        from <= r.0 <= r.1 <= to,
        v@.subrange(r.0 as int, r.1 as int) == trim(v@.subrange(from as int, to as int)),
{
    let mut start = from;
    while start < to && whitespace(v[start])
        invariant
            from <= start <= to <= v.len(),
            trim_start(v@.subrange(from as int, to as int)) == trim_start(
                v@.subrange(start as int, to as int),
            ),
        decreases to - start,
    {
        assert(v@.subrange(start as int, to as int).drop_first() =~= v@.subrange(
            start + 1,
            to as int,
        ));
        start += 1;
    }
    let mut end = to;
    while end > start && whitespace(v[end - 1])
        invariant
            start <= end <= to <= v.len(),
            trim_end(v@.subrange(start as int, to as int)) == trim_end(
                v@.subrange(start as int, end as int),
            ),
        decreases end - start,
    {
        assert(v@.subrange(start as int, end as int).drop_last() =~= v@.subrange(
            start as int,
            end - 1,
        ));
        end -= 1;
    }
    (start, end)
}

/// `text` without the white space at either end.
pub fn trimmed(text: &str) -> (inner: &str)
    ensures
        inner@ == trim(text@),
{
    let v = chars_of(text);
    let (from, to) = trim_bounds(&v, 0, v.len());
    assert(v@.subrange(0, v.len() as int) =~= v@);
    text.substring_char(from, to)
}

/// A decimal digit.
pub open spec fn is_digit(c: char) -> bool {
    '0' <= c <= '9'
}

/// The number that the digit `c` stands for.
pub open spec fn digit_value(c: char) -> nat {
    (c as int - '0' as int) as nat
}

/// Every character of `s` is a decimal digit.
pub open spec fn all_digits(s: Seq<char>) -> bool {
    forall|i: int| 0 <= i < s.len() ==> is_digit(#[trigger] s[i])
}

/// The number that the digits `s` write in base ten; leading zeros count
/// for nothing.
pub open spec fn digits_value(s: Seq<char>) -> nat
    decreases s.len(),
{
    if s.len() == 0 {
        0
    } else {
        10 * digits_value(s.drop_last()) + digit_value(s.last())
    }
}

/// `s` without a plus sign in front.
pub open spec fn unsigned_part(s: Seq<char>) -> Seq<char> {
    if s.len() > 0 && s.first() == '+' {
        s.drop_first()
    } else {
        s
    }
}

/// The number that `s` writes, if it writes one: an optional plus sign, then
/// one or more decimal digits, and a value that a `usize` can hold.
pub open spec fn decimal_value(s: Seq<char>) -> Option<nat> {
    let digits = unsigned_part(s);
    if digits.len() > 0 && all_digits(digits) && digits_value(digits) <= usize::MAX {
        Some(digits_value(digits))
    } else {
        None
    }
}

/// The digit that stands for `d`, for `d` under ten.
pub open spec fn digit_char(d: nat) -> char {
    ('0' as int + d) as char
}

/// `n` written in base ten, without a sign and without leading zeros.
pub open spec fn decimal(n: nat) -> Seq<char>
    decreases n,
{
    if n < 10 {
        seq![digit_char(n)]
    } else {
        decimal(n / 10).push(digit_char(n % 10))
    }
}

/// A number written in base ten reads back as itself, as long as a `usize`
/// can hold it; a larger one does not read as a number.
pub proof fn decimal_reads_back(n: nat)
    ensures
        decimal(n).len() > 0,
        all_digits(decimal(n)),
        digits_value(decimal(n)) == n,
        decimal_value(decimal(n)) == if n <= usize::MAX {
            Some(n)
        } else {
            None
        },
    decreases n,
{
    if n < 10 {
        assert(decimal(n).drop_last() =~= Seq::<char>::empty());
        assert(digits_value(decimal(n).drop_last()) == 0);
    } else {
        decimal_reads_back(n / 10);
        assert(decimal(n).drop_last() =~= decimal(n / 10));
    }
    assert(digit_value(decimal(n).last()) == n % 10);
    assert(is_digit(decimal(n).first()));
}

/// A number of digits never writes less than its first `k` digits do.
pub proof fn digits_value_grows(s: Seq<char>, k: int)
    requires
        0 <= k <= s.len(),
    ensures
        digits_value(s.take(k)) <= digits_value(s),
    decreases s.len(),
{
    if k == s.len() {
        assert(s.take(k) =~= s);
    } else {
        digits_value_grows(s.drop_last(), k);
        assert(s.drop_last().take(k) =~= s.take(k));
    }
}

/// Reads `v[from..to]` as a decimal number.
pub(crate) fn parse_decimal(v: &Vec<char>, from: usize, to: usize) -> (r: Option<usize>)
    requires
        from <= to <= v.len(),
    ensures
        match r {
            Some(n) => decimal_value(v@.subrange(from as int, to as int)) == Some(n as nat),
            None => decimal_value(v@.subrange(from as int, to as int)) is None,
        },
{
    let ghost text = v@.subrange(from as int, to as int);
    let mut i = from;
    if i < to && v[i] == '+' {
        i += 1;
    }
    let first = i;
    let ghost digits = v@.subrange(first as int, to as int);
    assert(digits =~= unsigned_part(text));
    if i == to {
        return None;
    }
    let mut acc: usize = 0;
    while i < to
        invariant
            from <= first <= i <= to <= v.len(),
            digits == v@.subrange(first as int, to as int),
            digits == unsigned_part(v@.subrange(from as int, to as int)),
            all_digits(digits.take(i - first)),
            acc == digits_value(digits.take(i - first)),
        decreases to - i,
    {
        let c = v[i];
        if !('0' <= c && c <= '9') {
            assert(!is_digit(digits[i - first]));
            return None;
        }
        let d = (c as u32 - '0' as u32) as usize;
        let ghost longer = digits.take(i - first + 1);
        assert(longer.drop_last() =~= digits.take(i - first));
        assert(digits_value(longer) == 10 * acc + d);
        proof {
            digits_value_grows(digits, i - first + 1);
        }
        let scaled = match acc.checked_mul(10) {
            Some(m) => m,
            None => { return None; },
        };
        acc = match scaled.checked_add(d) {
            Some(a) => a,
            None => { return None; },
        };
        i += 1;
    }
    assert(digits.take(i - first) =~= digits);
    Some(acc)
}

/// Reads `text` as a decimal number: an optional plus sign, then one or
/// more decimal digits. There is no number where anything else stands, white
/// space too, or where the value is more than a `usize` can hold.
pub fn parse_number(text: &str) -> (r: Option<usize>)
    ensures
        match r {
            Some(n) => decimal_value(text@) == Some(n as nat),
            None => decimal_value(text@) is None,
        },
{
    let v = chars_of(text);
    assert(v@.subrange(0, v.len() as int) =~= v@);
    parse_decimal(&v, 0, v.len())
}

} // verus!
