//! Decimal numerals: reading a 32-bit number from text, writing one out, and
//! adding numerals of any length.

use vstd::prelude::*;
use vstd::slice::slice_to_vec;
use crate::chars::{trimmed, trimmed_end, trimmed_start};
use crate::text::{ascii_text, is_ascii};

verus! {

/// Whether `c` is one of the digits `0` to `9`.
pub open spec fn is_digit(c: char) -> bool {
    '0' <= c <= '9'
}

/// What the digit `c` counts for; 0 for any other character.
pub open spec fn digit_value(c: char) -> nat {
    if is_digit(c) {
        (c as u32 - '0' as u32) as nat
    } else {
        0
    }
}

/// Whether `s` holds digits only.
pub open spec fn all_digits(s: Seq<char>) -> bool {
    forall|i: int| 0 <= i < s.len() ==> is_digit(#[trigger] s[i])
}

/// The number that the digits of `s` write in base ten, the last digit
/// counting least.
pub open spec fn decimal_value(s: Seq<char>) -> nat
    decreases s.len(),
{
    if s.len() == 0 {
        0
    } else {
        decimal_value(s.drop_last()) * 10 + digit_value(s.last())
    }
}

/// The digits of a numeral: `s` without the plus sign that may stand in front.
pub open spec fn unsigned_part(s: Seq<char>) -> Seq<char> {
    if s.len() > 0 && s.first() == '+' {
        s.drop_first()
    } else {
        s
    }
}

/// The number that `s` writes, if `s` is a numeral for a 32-bit number: an
/// optional plus sign, then one digit or more and nothing else, the value at
/// most `u32::MAX`. Zeros in front are allowed.
pub open spec fn parsed(s: Seq<char>) -> Option<u32> {
    let digits = unsigned_part(s);
    if digits.len() > 0 && all_digits(digits) && decimal_value(digits) <= u32::MAX {
        Some(decimal_value(digits) as u32)
    } else {
        None
    }
}

/// The ASCII code of the digit for `d`.
pub open spec fn digit_byte(d: nat) -> u8
    recommends
        d < 10,
{
    (48 + d) as u8
}

/// The numeral for `n` in ASCII: its decimal digits, the first of them not a
/// zero unless `n` is zero.
pub open spec fn decimal(n: nat) -> Seq<u8>
    decreases n,
{
    if n < 10 {
        seq![digit_byte(n)]
    } else {
        decimal(n / 10).push(digit_byte(n % 10))
    }
}

/// The decimal digits of `n` in ASCII, none at all for zero.
pub open spec fn digits_of(n: nat) -> Seq<u8>
    decreases n,
{
    if n == 0 {
        seq![]
    } else {
        digits_of(n / 10).push(digit_byte(n % 10))
    }
}

/// The number that the ASCII digits `s` write.
pub open spec fn numeral_value(s: Seq<u8>) -> nat {
    decimal_value(ascii_text(s))
}

/// Whether `s` is the numeral of a number: what `decimal` writes for it.
pub open spec fn is_numeral(s: Seq<u8>) -> bool {
    s == decimal(numeral_value(s))
}

/// A numeral is worth at least as much as any part it starts with.
pub proof fn lemma_decimal_value_prefix(s: Seq<char>, k: int)
    requires
        0 <= k <= s.len(),
    ensures
        decimal_value(s.take(k)) <= decimal_value(s),
    decreases s.len(),
{
    if k == s.len() {
        assert(s.take(k) == s);
    } else {
        lemma_decimal_value_prefix(s.drop_last(), k);
        assert(s.drop_last().take(k) == s.take(k));
    }
}

/// Text that holds a character other than the digits and the plus sign is no
/// numeral.
pub proof fn lemma_parsed_rejects(s: Seq<char>, c: char)
    requires
        s.contains(c),
        !is_digit(c),
        c != '+',
    ensures
        parsed(s) is None,
{
    let i = choose|i: int| 0 <= i < s.len() && s[i] == c;
    let digits = unsigned_part(s);
    if s.first() == '+' {
        assert(digits[i - 1] == c);
    } else {
        assert(digits[i] == c);
    }
}

/// A numeral written by `decimal` is one digit or more, each an ASCII code.
pub proof fn lemma_decimal_digits(n: nat)
    ensures
        decimal(n).len() > 0,
        is_ascii(decimal(n)),
        all_digits(ascii_text(decimal(n))),
    decreases n,
{
    if n >= 10 {
        lemma_decimal_digits(n / 10);
        let front = decimal(n / 10);
        assert forall|i: int| 0 <= i < decimal(n).len() implies #[trigger] decimal(n)[i] < 128
            && is_digit(ascii_text(decimal(n))[i]) by {
            if i < front.len() {
                assert(front[i] < 128);
                assert(is_digit(ascii_text(front)[i]));
            }
        }
    }
}

/// The digits that `decimal` writes for `n` are worth `n`.
pub proof fn lemma_decimal_value(n: nat)
    ensures
        decimal_value(ascii_text(decimal(n))) == n,
    decreases n,
{
    let text = ascii_text(decimal(n));
    if n < 10 {
        assert(text.drop_last() == Seq::<char>::empty());
        assert(decimal_value(text.drop_last()) == 0);
    } else {
        lemma_decimal_value(n / 10);
        assert(text.drop_last() == ascii_text(decimal(n / 10)));
    }
}

/// Writing a 32-bit number out and reading the numeral gives the number
/// back, and there is nothing to trim from the numeral.
pub proof fn lemma_parsed_decimal(n: nat)
    requires
        n <= u32::MAX,
    ensures
        trimmed(ascii_text(decimal(n))) == ascii_text(decimal(n)),
        parsed(ascii_text(decimal(n))) == Some(n as u32),
{
    let text = ascii_text(decimal(n));
    lemma_decimal_digits(n);
    lemma_decimal_value(n);
    assert(is_digit(text.first()));
    assert(is_digit(text.last()));
    assert(trimmed_start(text) == text);
    assert(trimmed_end(text) == text);
}

/// Reads a 32-bit number from `s`.
pub fn parse_u32(s: &[char]) -> (r: Option<u32>)
    ensures
        r == parsed(s@),
{
    let n: usize = s.len();
    let start: usize = if n > 0 && s[0] == '+' {
        1
    } else {
        0
    };
    let ghost digits = unsigned_part(s@);
    assert(digits == s@.subrange(start as int, n as int));
    if start == n {
        return None;
    }
    let mut value: u32 = 0;
    let mut k: usize = start;
    while k < n
        invariant
            start <= k <= n,
            n == s@.len(),
            digits == unsigned_part(s@),
            digits == s@.subrange(start as int, n as int),
            all_digits(digits.take(k - start)),
            value == decimal_value(digits.take(k - start)),
        decreases n - k,
    {
        let c: char = s[k];
        let ghost upto = digits.take(k - start + 1);
        assert(upto.drop_last() == digits.take(k - start));
        assert(upto.last() == c);
        if !('0' <= c && c <= '9') {
            assert(!is_digit(digits[k - start]));
            return None;
        }
        let d: u64 = (c as u32 - '0' as u32) as u64;
        let next: u64 = value as u64 * 10 + d;
        if next > u32::MAX as u64 {
            proof {
                lemma_decimal_value_prefix(digits, k - start + 1);
            }
            return None;
        }
        value = next as u32;
        k += 1;
    }
    assert(digits.take(k - start) == digits);
    Some(value)
}

/// The elements of `v` in the opposite order.
fn reversed(v: &Vec<u8>) -> (r: Vec<u8>)
    ensures
        r@ == v@.reverse(),
{
    let mut r: Vec<u8> = Vec::new();
    let mut i: usize = v.len();
    while i > 0
        invariant
            i <= v@.len(),
            r@ == v@.reverse().take(v@.len() - i),
        decreases i,
    {
        i -= 1;
        r.push(v[i]);
        assert(v@.reverse().take(v@.len() - i) == v@.reverse().take(v@.len() - i - 1).push(
            v@[i as int],
        ));
    }
    assert(v@.reverse().take(v@.len() as int) == v@.reverse());
    r
}

/// Writes `n` out in decimal.
pub fn to_decimal(n: u32) -> (v: Vec<u8>)
    ensures
        v@ == decimal(n as nat),
{
    let mut low_first: Vec<u8> = Vec::new();
    let mut rest: u32 = n;
    while rest >= 10
        invariant
            decimal(n as nat) == decimal(rest as nat) + low_first@.reverse(),
        decreases rest,
    {
        let d: u8 = (rest % 10) as u8;
        let ghost before = low_first@;
        low_first.push(48 + d);
        assert(low_first@.reverse() == seq![digit_byte((rest % 10) as nat)] + before.reverse());
        assert(decimal(rest as nat) == decimal((rest / 10) as nat) + seq![
            digit_byte((rest % 10) as nat),
        ]);
        rest = rest / 10;
    }
    let ghost before = low_first@;
    low_first.push(48 + rest as u8);
    assert(low_first@.reverse() == decimal(rest as nat) + before.reverse());
    reversed(&low_first)
}

/// From the first digit on, a number above zero is written with the digits
/// of `digits_of`.
pub proof fn lemma_decimal_is_digits(n: nat)
    requires
        n > 0,
    ensures
        decimal(n) == digits_of(n),
    decreases n,
{
    if n >= 10 {
        lemma_decimal_is_digits(n / 10);
    } else {
        assert(digits_of(n / 10) == Seq::<u8>::empty());
    }
}

/// Adds two numbers of any size, given and returned as decimal numerals.
pub fn add_numerals(a: &[u8], b: &[u8]) -> (sum: Vec<u8>)
    requires
        is_numeral(a@),
        is_numeral(b@),
    ensures
        sum@ == decimal(numeral_value(a@) + numeral_value(b@)),
{
    let ghost x = numeral_value(a@);
    let ghost y = numeral_value(b@);
    proof {
        lemma_decimal_value(0);
        assert(decimal(0) == seq![48u8]);
    }
    if a.len() == 1 && a[0] == 48 {
        assert(a@ == seq![48u8]);
        return slice_to_vec(b);
    }
    if b.len() == 1 && b[0] == 48 {
        assert(b@ == seq![48u8]);
        return slice_to_vec(a);
    }
    proof {
        lemma_decimal_is_digits(x);
        lemma_decimal_is_digits(y);
        lemma_decimal_is_digits(x + y);
    }
    let mut i: usize = a.len();
    let mut j: usize = b.len();
    let mut carry: u8 = 0;
    let mut low_first: Vec<u8> = Vec::new();
    let ghost mut high_a: nat = x;
    let ghost mut high_b: nat = y;
    assert(a@.take(i as int) == a@);
    assert(b@.take(j as int) == b@);
    while i > 0 || j > 0 || carry > 0
        invariant
            i <= a@.len(),
            j <= b@.len(),
            carry <= 1,
            a@.take(i as int) == digits_of(high_a),
            b@.take(j as int) == digits_of(high_b),
            digits_of(x + y) == digits_of(high_a + high_b + carry as nat) + low_first@.reverse(),
        decreases i + j + carry,
    {
        let ghost total: nat = high_a + high_b + carry as nat;
        let mut t: u8 = carry;
        if i > 0 {
            assert(high_a > 0 && a@[i - 1] == digit_byte(high_a % 10)) by {
                assert(a@.take(i as int).len() > 0);
                assert(a@.take(i as int).last() == a@[i - 1]);
            }
            assert(a@.take(i - 1) == digits_of(high_a / 10)) by {
                assert(a@.take(i as int).drop_last() == a@.take(i - 1));
            }
            i -= 1;
            t += a[i] - 48;
        } else {
            assert(high_a == 0) by {
                assert(a@.take(0).len() == 0);
            }
        }
        if j > 0 {
            assert(high_b > 0 && b@[j - 1] == digit_byte(high_b % 10)) by {
                assert(b@.take(j as int).len() > 0);
                assert(b@.take(j as int).last() == b@[j - 1]);
            }
            assert(b@.take(j - 1) == digits_of(high_b / 10)) by {
                assert(b@.take(j as int).drop_last() == b@.take(j - 1));
            }
            j -= 1;
            t += b[j] - 48;
        } else {
            assert(high_b == 0) by {
                assert(b@.take(0).len() == 0);
            }
        }
        assert(t == high_a % 10 + high_b % 10 + carry);
        let ghost before = low_first@;
        low_first.push(48 + t % 10);
        carry = t / 10;
        proof {
            high_a = high_a / 10;
            high_b = high_b / 10;
            assert(total > 0);
            assert(total / 10 == high_a + high_b + carry);
            assert(total % 10 == t % 10);
            let last: nat = total % 10;
            let front: nat = total / 10;
            assert(low_first@.reverse() == seq![digit_byte(last)] + before.reverse());
            assert(digits_of(total) + before.reverse() == digits_of(front) + low_first@.reverse());
        }
    }
    reversed(&low_first)
}

} // verus!
