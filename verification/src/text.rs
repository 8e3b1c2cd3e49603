//! Plain-text helpers shared by the row and renderer code: moving between
//! `String` and `Vec<char>`, and writing unsigned numbers in decimal.

use vstd::prelude::*;

verus! {

/// Relies on `String::from_iter` over `core::iter::Copied`: collecting the
/// characters of a vector yields the string of exactly those characters.
#[verifier::external_body]
pub fn chars_to_string(chars: &Vec<char>) -> (s: String)
    ensures
        s@ == chars@,
{
    chars.iter().copied().collect()
}

/// Copies the characters of a string slice into a vector, in order.
pub fn str_chars(s: &str) -> (chars: Vec<char>)
    ensures
        chars@ == s@,
{
    let n = s.unicode_len();
    let mut chars: Vec<char> = Vec::new();
    let mut i: usize = 0;
    while i < n
        invariant
            n == s@.len(),
            i <= n,
            chars@ == s@.subrange(0, i as int),
        decreases n - i,
    {
        chars.push(s.get_char(i));
        i += 1;
        proof {
            assert(chars@ =~= s@.subrange(0, i as int));
        }
    }
    proof {
        assert(chars@ =~= s@);
    }
    chars
}

/// Copies the characters `[from, to)` of `v` into a fresh vector.
pub fn char_range(v: &Vec<char>, from: usize, to: usize) -> (r: Vec<char>)
    requires
        from <= to <= v@.len(),
    ensures
        r@ == v@.subrange(from as int, to as int),
{
    let mut r: Vec<char> = Vec::new();
    let mut i = from;
    proof {
        assert(r@ =~= v@.subrange(from as int, from as int));
    }
    while i < to
        invariant
            from <= i <= to <= v@.len(),
            r@ == v@.subrange(from as int, i as int),
        decreases to - i,
    {
        r.push(v[i]);
        i += 1;
        proof {
            assert(r@ =~= v@.subrange(from as int, i as int));
        }
    }
    r
}

/// The character for one decimal digit.
pub open spec fn digit_char(d: int) -> char {
    if d == 0 {
        '0'
    } else if d == 1 {
        '1'
    } else if d == 2 {
        '2'
    } else if d == 3 {
        '3'
    } else if d == 4 {
        '4'
    } else if d == 5 {
        '5'
    } else if d == 6 {
        '6'
    } else if d == 7 {
        '7'
    } else if d == 8 {
        '8'
    } else {
        '9'
    }
}

/// The decimal digits of `n`, most significant first, with no leading zero
/// except for `n == 0` itself.
pub open spec fn decimal_digits(n: int) -> Seq<char>
    decreases n,
{
    if n < 10 {
        seq![digit_char(n)]
    } else {
        decimal_digits(n / 10).push(digit_char(n % 10))
    }
}

fn exec_digit_char(d: usize) -> (c: char)
    requires
        d < 10,
    ensures
        c == digit_char(d as int),
{
    if d == 0 {
        '0'
    } else if d == 1 {
        '1'
    } else if d == 2 {
        '2'
    } else if d == 3 {
        '3'
    } else if d == 4 {
        '4'
    } else if d == 5 {
        '5'
    } else if d == 6 {
        '6'
    } else if d == 7 {
        '7'
    } else if d == 8 {
        '8'
    } else {
        '9'
    }
}

/// Appends the decimal form of `n` to `out`.
pub fn push_decimal(out: &mut Vec<char>, n: usize)
    ensures
        final(out)@ == old(out)@ + decimal_digits(n as int),
{
    let mut rev: Vec<char> = Vec::new();
    let mut rest: usize = n;
    proof {
        assert(decimal_digits(n as int) =~= decimal_digits(rest as int) + rev@.reverse());
    }
    loop
        invariant_except_break
            decimal_digits(n as int) == decimal_digits(rest as int) + rev@.reverse(),
        ensures
            decimal_digits(n as int) == rev@.reverse(),
        decreases rest,
    {
        let d = rest % 10;
        let next = rest / 10;
        let c = exec_digit_char(d);
        let ghost rev_old = rev@;
        rev.push(c);
        proof {
            assert(rev@.reverse() =~= seq![c] + rev_old.reverse());
            if next == 0 {
                assert(decimal_digits(rest as int) == seq![digit_char(rest as int)]);
                assert(decimal_digits(n as int) =~= rev@.reverse());
            } else {
                assert(rest >= 10);
                assert(decimal_digits(rest as int) == decimal_digits(rest as int / 10).push(
                    digit_char(rest as int % 10),
                ));
                assert(decimal_digits(rest as int / 10).push(digit_char(rest as int % 10))
                    =~= decimal_digits(next as int) + seq![c]);
                assert(decimal_digits(next as int) + rev@.reverse() =~= decimal_digits(n as int));
            }
        }
        if next == 0 {
            break;
        }
        rest = next;
    }
    let ghost digits = decimal_digits(n as int);
    let mut k: usize = rev.len();
    proof {
        assert(digits.take(0) =~= Seq::<char>::empty());
        assert(out@ =~= old(out)@ + digits.take(rev@.len() - k));
    }
    while k > 0
        invariant
            k <= rev@.len(),
            digits == rev@.reverse(),
            out@ == old(out)@ + digits.take(rev@.len() - k),
        decreases k,
    {
        k -= 1;
        let c = rev[k];
        out.push(c);
        proof {
            let m = rev@.len() - k - 1;
            assert(digits[m] == rev@[k as int]);
            assert(digits.take(m + 1) =~= digits.take(m).push(digits[m]));
            assert(out@ =~= old(out)@ + digits.take(rev@.len() - k));
        }
    }
    proof {
        assert(digits.take(rev@.len() as int) =~= digits);
        assert(out@ =~= old(out)@ + decimal_digits(n as int));
    }
}

} // verus!
