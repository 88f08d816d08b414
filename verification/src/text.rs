//! Text that goes into URLs, labels and texture names.

use vstd::prelude::*;
use vstd::string::*;

verus! {

/// `String::push` appends one character to the text.
pub assume_specification[ String::push ](s: &mut String, ch: char)
    ensures
        final(s)@ == old(s)@.push(ch),
;

/// The decimal digit for `d`.
pub open spec fn digit(d: int) -> char {
    (48 + d) as char
}

/// `n` in decimal, without leading zeros.
pub open spec fn decimal(n: nat) -> Seq<char>
    decreases n,
{
    if n < 10 {
        seq![digit(n as int)]
    } else {
        decimal(n / 10).push(digit((n % 10) as int))
    }
}

/// The number that a run of decimal digits writes.
pub open spec fn decimal_value(s: Seq<char>) -> int
    decreases s.len(),
{
    if s.len() == 0 {
        0
    } else {
        10 * decimal_value(s.drop_last()) + (s.last() as int - 48)
    }
}

/// Every character of `s` is a decimal digit.
pub open spec fn all_digits(s: Seq<char>) -> bool {
    forall|i: int| 0 <= i < s.len() ==> '0' <= #[trigger] s[i] && s[i] <= '9'
}

/// Decimal writing loses nothing: the digits give the number back.
pub proof fn decimal_round_trips(n: nat)
    ensures
        decimal_value(decimal(n)) == n,
        all_digits(decimal(n)),
        decimal(n).len() > 0,
    decreases n,
{
    let s = decimal(n);
    if n < 10 {
        assert(s.drop_last() =~= Seq::<char>::empty());
        assert(decimal_value(s.drop_last()) == 0);
    } else {
        decimal_round_trips(n / 10);
        assert(s.drop_last() =~= decimal(n / 10));
    }
}

/// Three numbers in decimal with `sep` in between, after `prefix` and before
/// `suffix`.
pub open spec fn three_numbers(
    prefix: Seq<char>,
    sep: Seq<char>,
    suffix: Seq<char>,
    a: nat,
    b: nat,
    c: nat,
) -> Seq<char> {
    prefix + decimal(a) + sep + decimal(b) + sep + decimal(c) + suffix
}

/// A number, what separates it from the rest, and the rest can be read off the
/// whole.
pub proof fn number_is_readable(a: Seq<char>, b: Seq<char>, c: Seq<char>, d: Seq<char>, sep: Seq<char>)
    requires
        a + sep + b == c + sep + d,
        all_digits(a),
        all_digits(c),
        sep.len() == 1,
        !('0' <= sep[0] && sep[0] <= '9'),
    ensures
        a == c,
        b == d,
{
    let s = a + sep + b;
    let t = c + sep + d;
    if a.len() < c.len() {
        assert(s[a.len() as int] == sep[0]);
        assert(t[a.len() as int] == c[a.len() as int]);
    }
    if c.len() < a.len() {
        assert(t[c.len() as int] == sep[0]);
        assert(s[c.len() as int] == a[c.len() as int]);
    }
    assert(s.take(a.len() as int) =~= a);
    assert(t.take(c.len() as int) =~= c);
    assert(s.skip(a.len() as int + 1) =~= b);
    assert(t.skip(c.len() as int + 1) =~= d);
}

proof fn lemma_regroup(
    prefix: Seq<char>,
    a: Seq<char>,
    sep: Seq<char>,
    b: Seq<char>,
    c: Seq<char>,
    suffix: Seq<char>,
)
    ensures
        (prefix + a + sep + b + sep + c + suffix).skip(prefix.len() as int) == a + sep + (b + sep + (
        c + suffix)),
{
    assert((prefix + a + sep + b + sep + c + suffix).skip(prefix.len() as int) =~= a + sep + (b
        + sep + (c + suffix)));
}

/// Three numbers written with the same separator and suffix, after prefixes of
/// one length, can be told apart by the text.
pub proof fn three_numbers_are_readable(
    prefix: Seq<char>,
    other_prefix: Seq<char>,
    sep: Seq<char>,
    suffix: Seq<char>,
    a: (nat, nat, nat),
    b: (nat, nat, nat),
)
    requires
        prefix.len() == other_prefix.len(),
        sep.len() == 1,
        !('0' <= sep[0] && sep[0] <= '9'),
        three_numbers(prefix, sep, suffix, a.0, a.1, a.2) == three_numbers(
            other_prefix,
            sep,
            suffix,
            b.0,
            b.1,
            b.2,
        ),
    ensures
        a == b,
{
    decimal_round_trips(a.0);
    decimal_round_trips(a.1);
    decimal_round_trips(a.2);
    decimal_round_trips(b.0);
    decimal_round_trips(b.1);
    decimal_round_trips(b.2);
    let a2 = decimal(a.2) + suffix;
    let b2 = decimal(b.2) + suffix;
    let a1 = decimal(a.1) + sep + a2;
    let b1 = decimal(b.1) + sep + b2;
    lemma_regroup(prefix, decimal(a.0), sep, decimal(a.1), decimal(a.2), suffix);
    lemma_regroup(other_prefix, decimal(b.0), sep, decimal(b.1), decimal(b.2), suffix);
    number_is_readable(decimal(a.0), a1, decimal(b.0), b1, sep);
    number_is_readable(decimal(a.1), a2, decimal(b.1), b2, sep);
    assert(a2.len() == b2.len());
    assert(a2.take(decimal(a.2).len() as int) =~= decimal(a.2));
    assert(b2.take(decimal(b.2).len() as int) =~= decimal(b.2));
}

/// Appends `n` in decimal.
pub fn push_decimal(s: &mut String, n: u64)
    ensures
        final(s)@ == old(s)@ + decimal(n as nat),
    decreases n,
{
    if n >= 10 {
        push_decimal(s, n / 10);
    }
    let d: u8 = (n % 10) as u8;
    s.push((48u8 + d) as char);
    assert(s@ =~= old(s)@ + decimal(n as nat));
}

/// `n` in decimal, with a sign if it is negative.
pub open spec fn signed_decimal(n: int) -> Seq<char> {
    if n < 0 {
        seq!['-'] + decimal((-n) as nat)
    } else {
        decimal(n as nat)
    }
}

/// The number that a run of decimal digits writes, after a sign or without one.
pub open spec fn signed_decimal_value(s: Seq<char>) -> int {
    if s.len() > 0 && s[0] == '-' {
        -decimal_value(s.skip(1))
    } else {
        decimal_value(s)
    }
}

/// Decimal writing with a sign loses nothing.
pub proof fn signed_decimal_round_trips(n: int)
    ensures
        signed_decimal_value(signed_decimal(n)) == n,
{
    if n < 0 {
        decimal_round_trips((-n) as nat);
        assert(signed_decimal(n).skip(1) =~= decimal((-n) as nat));
    } else {
        decimal_round_trips(n as nat);
    }
}

/// Appends `n` in decimal, with a sign if it is negative.
pub fn push_signed_decimal(s: &mut String, n: i64)
    ensures
        final(s)@ == old(s)@ + signed_decimal(n as int),
{
    if n < 0 {
        s.push('-');
        push_decimal(s, (-(n as i128)) as u64);
    } else {
        push_decimal(s, n as u64);
    }
    assert(s@ =~= old(s)@ + signed_decimal(n as int));
}

/// A run of digits is worth ten times what it is worth without its last digit,
/// and that digit more.
pub proof fn digits_are_worth_their_place(s: Seq<char>, d: int)
    requires
        0 <= d <= 9,
    ensures
        decimal_value(Seq::empty()) == 0,
        decimal_value(s.push((48 + d) as char)) == 10 * decimal_value(s) + d,
{
    let t = s.push((48 + d) as char);
    assert(t.drop_last() =~= s);
}

/// A run of digits holds the characters from `0` to `9` only.
pub proof fn digits_run_from_0_to_9(s: Seq<char>)
    ensures
        all_digits(s) <==> forall|i: int|
            0 <= i < s.len() ==> 48 <= #[trigger] s[i] as int && s[i] as int <= 57,
{
}

/// A number below ten is one digit. Any other is the number without its last
/// digit, and that digit.
pub proof fn decimal_appends_the_last_digit(n: nat, d: nat)
    requires
        d <= 9,
    ensures
        decimal(d) == seq![(48 + d) as char],
        n > 0 ==> decimal(10 * n + d) == decimal(n).push((48 + d) as char),
{
    assert((10 * n + d) / 10 == n && (10 * n + d) % 10 == d);
}

/// A negative number is a `-` before its size, any other is its size.
pub proof fn sign_comes_first(n: int)
    ensures
        n >= 0 ==> signed_decimal(n) == decimal(n as nat),
        n < 0 ==> signed_decimal(n) == seq!['-'] + decimal((-n) as nat),
{
}

} // verus!
