//! Building display strings: decimal numbers and name sanitizing.

use vstd::prelude::*;

verus! {

/// The character of decimal digit `d` (for `d < 10`).
pub open spec fn digit_char(d: nat) -> char {
    (48 + d) as char
}

/// The decimal representation of `n`, without leading zeros.
pub open spec fn decimal(n: nat) -> Seq<char>
    decreases n,
{
    if n < 10 {
        seq![digit_char(n)]
    } else {
        decimal(n / 10).push(digit_char(n % 10))
    }
}

/// `c` repeated `k` times.
pub open spec fn repeat_char(c: char, k: nat) -> Seq<char> {
    Seq::new(k, |i: int| c)
}

/// The decimal representation of `n`, left-padded with zeros to at least
/// `width` characters (what `{:0width$}` prints).
pub open spec fn decimal_padded(n: nat, width: nat) -> Seq<char> {
    let d = decimal(n);
    if d.len() >= width {
        d
    } else {
        repeat_char('0', (width - d.len()) as nat) + d
    }
}

/// Appends `c` to `s`: `String::push`.
#[verifier::external_body]
pub(crate) fn push_char(s: &mut String, c: char)
    ensures
        final(s)@ == old(s)@.push(c),
{
    s.push(c)
}

/// Appends the characters of `t` to `s`.
pub fn push_chars(s: &mut String, t: &str)
    ensures
        final(s)@ == old(s)@ + t@,
{
    let ghost start = s@;
    let n = t.unicode_len();
    let mut i: usize = 0;
    while i < n
        invariant
            n == t@.len(),
            i <= n,
            s@ == start + t@.take(i as int),
        decreases n - i,
    {
        let c = t.get_char(i);
        proof {
            assert(start + t@.take(i + 1) =~= (start + t@.take(i as int)).push(c));
        }
        push_char(s, c);
        i += 1;
    }
    proof {
        assert(t@.take(n as int) =~= t@);
    }
}

/// The character of decimal digit `d`.
pub fn digit(d: u64) -> (c: char)
    requires
        d < 10,
    ensures
        c == digit_char(d as nat),
{
    let b: u8 = 48 + (d as u8);
    b as char
}

/// Number of characters in the decimal representation of `n`.
pub fn decimal_len(n: u64) -> (r: usize)
    ensures
        r == decimal(n as nat).len(),
        1 <= r <= 20,
    decreases n,
{
    if n < 10 {
        1
    } else {
        let r = decimal_len(n / 10);
        proof {
            assert(n / 10 < 0x1999_9999_9999_999a);
            if n / 10 >= 10 {
                lemma_decimal_len_bound((n / 10) as nat);
            }
        }
        r + 1
    }
}

/// Every `u64` below 10^19 has at most 19 digits.
proof fn lemma_decimal_len_bound(n: nat)
    requires
        n < 0x1999_9999_9999_999a,
    ensures
        decimal(n).len() <= 19,
    decreases n,
{
    reveal_with_fuel(pow10, 20);
    assert(pow10(19) == 10_000_000_000_000_000_000nat);
    lemma_decimal_len_log(n, 19);
}

/// Numbers below 10^k have at most k digits.
proof fn lemma_decimal_len_log(n: nat, k: nat)
    requires
        k >= 1,
        n < pow10(k),
    ensures
        decimal(n).len() <= k,
    decreases n,
{
    if n >= 10 {
        assert(k >= 2) by {
            if k == 1 {
                assert(pow10(1) == 10 * pow10(0));
            }
        }
        assert(pow10(k) == 10 * pow10((k - 1) as nat));
        assert(n / 10 < pow10((k - 1) as nat));
        lemma_decimal_len_log(n / 10, (k - 1) as nat);
    }
}

pub open spec fn pow10(k: nat) -> nat
    decreases k,
{
    if k == 0 { 1 } else { 10 * pow10((k - 1) as nat) }
}

/// Appends the decimal representation of `n`.
pub fn push_decimal(out: &mut String, n: u64)
    ensures
        final(out)@ == old(out)@ + decimal(n as nat),
    decreases n,
{
    if n >= 10 {
        push_decimal(out, n / 10);
    }
    push_char(out, digit(n % 10));
    proof {
        if n >= 10 {
            assert(decimal(n as nat) == decimal((n / 10) as nat).push(digit_char((n % 10) as nat)));
        }
    }
}

/// Appends the decimal representation of `n`, left-padded with zeros to at
/// least `width` characters.
pub fn push_decimal_padded(out: &mut String, n: u64, width: usize)
    ensures
        final(out)@ == old(out)@ + decimal_padded(n as nat, width as nat),
{
    let len = decimal_len(n);
    let ghost start = out@;
    if len < width {
        let pad = width - len;
        let mut i: usize = 0;
        while i < pad
            invariant
                i <= pad,
                out@ == start + repeat_char('0', i as nat),
            decreases pad - i,
        {
            proof {
                assert(start + repeat_char('0', (i + 1) as nat) =~= (start + repeat_char('0', i as nat)).push('0'));
            }
            push_char(out, '0');
            i += 1;
        }
    }
    push_decimal(out, n);
    proof {
        if len < width {
            assert(start + repeat_char('0', (width - len) as nat) + decimal(n as nat)
                =~= start + (repeat_char('0', (width - len) as nat) + decimal(n as nat)));
        }
    }
}

/// A decimal digit character.
pub open spec fn is_digit(c: char) -> bool {
    '0' <= c <= '9'
}

/// Digit characters tell their digits apart.
pub proof fn lemma_digit_char(d: nat, e: nat)
    requires
        d < 10,
        e < 10,
    ensures
        is_digit(digit_char(d)),
        digit_char(d) == digit_char(e) ==> d == e,
        d != 0 ==> digit_char(d) != '0',
{
}

/// Decimal representations are made of digits, and start with a nonzero
/// digit unless the number is zero.
pub proof fn lemma_decimal_shape(m: nat)
    ensures
        decimal(m).len() >= 1,
        forall|i: int| 0 <= i < decimal(m).len() ==> is_digit(#[trigger] decimal(m)[i]),
        m >= 10 ==> decimal(m).len() >= 2,
        m >= 1 ==> decimal(m)[0] != '0',
    decreases m,
{
    if m < 10 {
        lemma_digit_char(m, 0);
    } else {
        lemma_decimal_shape(m / 10);
        lemma_digit_char(m % 10, 0);
        let d = decimal(m);
        assert forall|i: int| 0 <= i < d.len() implies is_digit(#[trigger] d[i]) by {
            if i < d.len() - 1 {
                assert(d[i] == decimal(m / 10)[i]);
            }
        }
        assert(d[0] == decimal(m / 10)[0]);
    }
}

/// Different numbers have different decimal representations.
pub proof fn lemma_decimal(m: nat, n: nat)
    ensures
        decimal(m).len() >= 1,
        forall|i: int| 0 <= i < decimal(m).len() ==> is_digit(#[trigger] decimal(m)[i]),
        m >= 10 ==> decimal(m).len() >= 2,
        m >= 1 ==> decimal(m)[0] != '0',
        decimal(m) == decimal(n) ==> m == n,
    decreases m,
{
    lemma_decimal_shape(m);
    lemma_decimal_shape(n);
    if decimal(m) == decimal(n) {
        if m < 10 && n < 10 {
            lemma_digit_char(m, n);
        } else if m >= 10 && n >= 10 {
            lemma_decimal(m / 10, n / 10);
            lemma_digit_char(m % 10, n % 10);
            assert(decimal(m).drop_last() =~= decimal(m / 10));
            assert(decimal(n).drop_last() =~= decimal(n / 10));
            assert(decimal(m).last() == digit_char(m % 10));
            assert(decimal(n).last() == digit_char(n % 10));
        }
    }
}

/// Numbers from 1 up, padded to two digits, are made of digits and tell
/// numbers apart.
pub proof fn lemma_decimal_padded2(m: nat, n: nat)
    requires
        m >= 1,
        n >= 1,
    ensures
        forall|i: int| 0 <= i < decimal_padded(m, 2).len() ==> is_digit(#[trigger] decimal_padded(m, 2)[i]),
        decimal_padded(m, 2) == decimal_padded(n, 2) ==> m == n,
{
    lemma_decimal(m, n);
    lemma_decimal(n, m);
    let pm = decimal_padded(m, 2);
    let pn = decimal_padded(n, 2);
    if m < 10 {
        assert(pm =~= seq!['0'] + decimal(m));
        assert forall|i: int| 0 <= i < pm.len() implies is_digit(#[trigger] pm[i]) by {
            if i >= 1 {
                assert(pm[i] == decimal(m)[i - 1]);
            }
        }
    }
    if pm == pn {
        if m < 10 && n < 10 {
            assert(pn =~= seq!['0'] + decimal(n));
            assert(decimal(m) =~= pm.drop_first());
            assert(decimal(n) =~= pn.drop_first());
        } else if m < 10 {
            assert(pm[0] == '0');
        } else if n < 10 {
            assert(pn =~= seq!['0'] + decimal(n));
            assert(pn[0] == '0');
        }
    }
}

} // verus!
