//! Small string helpers that the rest of the crate builds on.
use vstd::prelude::*;

verus! {

/// Whether `r` failed with exactly the message `text`.
pub open spec fn is_err_with<T>(r: Result<T, String>, text: Seq<char>) -> bool {
    r matches Err(m) && m@ == text
}

/// Appends one character to a string (`String::push`).
#[verifier::external_body]
pub(crate) fn push_char(s: &mut String, c: char)
    ensures
        final(s)@ == old(s)@.push(c),
{
    s.push(c);
}

/// The characters of a string slice, in order (`str::chars` collected).
#[verifier::external_body]
pub(crate) fn chars_of(s: &str) -> (r: Vec<char>)
    ensures
        r@ == s@,
{
    s.chars().collect()
}

/// Whether two string slices hold the same characters.
pub fn same_text(a: &str, b: &str) -> (r: bool)
    ensures
        r == (a@ == b@),
{
    let x = chars_of(a);
    let y = chars_of(b);
    if x.len() != y.len() {
        return false;
    }
    let mut i: usize = 0;
    while i < x.len()
        invariant
            x@ == a@,
            y@ == b@,
            x.len() == y.len(),
            i <= x.len(),
            forall|j: int| 0 <= j < i ==> x@[j] == y@[j],
        decreases x.len() - i,
    {
        if x[i] != y[i] {
            return false;
        }
        i = i + 1;
    }
    assert(a@ =~= b@);
    true
}

/// The characters with the Unicode `White_Space` property: U+0009 to U+000D, U+0020, U+0085,
/// U+00A0, U+1680, U+2000 to U+200A, U+2028, U+2029, U+202F, U+205F and U+3000.
pub open spec fn white_space(c: char) -> bool {
    let n = c as u32;
    (0x9 <= n && n <= 0xd) || n == 0x20 || n == 0x85 || n == 0xa0 || n == 0x1680 || (0x2000 <= n
        && n <= 0x200a) || n == 0x2028 || n == 0x2029 || n == 0x202f || n == 0x205f || n == 0x3000
}

/// Whether `c` is white space (`char::is_whitespace`, documented as the Unicode `White_Space`
/// property, the 25 characters of `white_space`).
#[verifier::external_body]
pub fn is_whitespace(c: char) -> (r: bool)
    ensures
        r == white_space(c),
{
    c.is_whitespace()
}

/// Whether every character of `s` is white space (so that trimming leaves nothing).
pub open spec fn all_whitespace(s: Seq<char>) -> bool {
    forall|i: int| 0 <= i < s.len() ==> white_space(#[trigger] s[i])
}

pub fn is_blank(s: &Vec<char>) -> (r: bool)
    ensures
        r == all_whitespace(s@),
{
    let mut i: usize = 0;
    while i < s.len()
        invariant
            i <= s.len(),
            forall|j: int| 0 <= j < i ==> white_space(#[trigger] s@[j]),
        decreases s.len() - i,
    {
        if !is_whitespace(s[i]) {
            return false;
        }
        i = i + 1;
    }
    true
}

/// The decimal digits of `n`.
pub open spec fn decimal(n: nat) -> Seq<char>
    decreases n,
{
    if n < 10 {
        seq![((('0' as nat) + n) as char)]
    } else {
        decimal(n / 10).push(((('0' as nat) + n % 10) as char))
    }
}

/// Appends the decimal digits of `n`.
pub fn push_decimal(out: &mut String, n: u64)
    ensures
        final(out)@ == old(out)@ + decimal(n as nat),
    decreases n,
{
    if n < 10 {
        push_char(out, (48u8 + n as u8) as char);
        assert(old(out)@.push((('0' as nat) + n) as char) =~= old(out)@ + decimal(n as nat));
    } else {
        push_decimal(out, n / 10);
        push_char(out, (48u8 + (n % 10) as u8) as char);
        assert(old(out)@ + decimal((n / 10) as nat) + seq![((('0' as nat) + n % 10) as char)]
            =~= old(out)@ + decimal(n as nat));
    }
}

/// The number that a text of decimal digits reads as.
pub open spec fn digits_value(s: Seq<char>) -> int
    decreases s.len(),
{
    if s.len() == 0 {
        0
    } else {
        digits_value(s.drop_last()) * 10 + (s.last() as int - '0' as int)
    }
}

/// `decimal(n)` is `n` in the usual notation: only the digits 0 to 9, no leading zero, and it
/// reads back as `n`.
pub proof fn law_decimal_reads_back(n: nat)
    ensures
        decimal(n).len() > 0,
        forall|i: int| 0 <= i < decimal(n).len() ==> '0' <= #[trigger] decimal(n)[i] <= '9',
        decimal(n)[0] == '0' ==> n == 0,
        digits_value(decimal(n)) == n,
    decreases n,
{
    if n < 10 {
        assert(decimal(n).drop_last() =~= Seq::<char>::empty());
        assert(decimal(n).last() as int == 48 + n);
        assert('0' as int == 48);
        assert(digits_value(decimal(n)) == digits_value(decimal(n).drop_last()) * 10 + (
        decimal(n).last() as int - '0' as int));
    } else {
        law_decimal_reads_back(n / 10);
        let head = decimal(n / 10);
        assert(decimal(n).last() as int == 48 + n % 10);
        assert(n == (n / 10) * 10 + n % 10);
        assert('0' as int == 48);
        assert(digits_value(decimal(n)) == digits_value(decimal(n).drop_last()) * 10 + (
        decimal(n).last() as int - '0' as int));
        assert(decimal(n).drop_last() =~= head);
        assert(decimal(n)[0] == head[0]);
        assert forall|i: int| 0 <= i < decimal(n).len() implies '0' <= #[trigger] decimal(n)[i]
            <= '9' by {
            if i < head.len() {
                assert(decimal(n)[i] == head[i]);
            }
        }
    }
}

/// A signed integer in decimal, with `-` in front when negative.
pub open spec fn signed_decimal(n: int) -> Seq<char> {
    if n < 0 {
        seq!['-'] + decimal((-n) as nat)
    } else {
        decimal(n as nat)
    }
}

pub fn push_signed_decimal(out: &mut String, n: i64)
    ensures
        final(out)@ == old(out)@ + signed_decimal(n as int),
{
    if n < 0 {
        push_char(out, '-');
        let magnitude: u64 = ((-(n + 1)) as u64) + 1;
        push_decimal(out, magnitude);
        assert(old(out)@.push('-') + decimal(magnitude as nat) =~= old(out)@ + (seq!['-']
            + decimal(magnitude as nat)));
    } else {
        push_decimal(out, n as u64);
    }
}

} // verus!
