//! Base-10 reading and writing of unsigned integers.
//!
//! The reading side mirrors `u64::from_str_radix(_, 10)`: an optional leading
//! `'+'`, then one or more ASCII digits, rejected on overflow. The writing
//! side renders a value as its decimal digits.

use vstd::prelude::*;

verus! {

/// An ASCII decimal digit.
pub open spec fn is_digit(c: char) -> bool {
    0x30 <= c as u32 && c as u32 <= 0x39
}

/// The numeric value of an ASCII decimal digit.
pub open spec fn digit_of(c: char) -> nat {
    (c as u32 - 0x30) as nat
}

/// The value of a sequence of ASCII decimal digits, most significant first.
pub open spec fn digits_val(s: Seq<char>) -> nat
    decreases s.len(),
{
    if s.len() == 0 {
        0
    } else {
        digits_val(s.drop_last()) * 10 + digit_of(s.last())
    }
}

pub open spec fn all_digits(s: Seq<char>) -> bool {
    forall|i: int| 0 <= i < s.len() ==> is_digit(s[i])
}

/// The digit part of a number literal: everything after an optional leading
/// `'+'` sign.
pub open spec fn unsigned_body(s: Seq<char>) -> Seq<char> {
    if s.len() > 0 && s[0] == '+' {
        s.skip(1)
    } else {
        s
    }
}

/// Whether `u64::from_str_radix(s, 10)` accepts `s`: an optional `'+'`, then
/// at least one digit, with a value that fits in a `u64`.
pub open spec fn u64_parse_ok(s: Seq<char>) -> bool {
    let d = unsigned_body(s);
    d.len() > 0 && all_digits(d) && digits_val(d) <= u64::MAX
}

/// The value that a successful base-10 parse of `s` yields.
pub open spec fn u64_parse_val(s: Seq<char>) -> nat {
    digits_val(unsigned_body(s))
}

proof fn lemma_digits_val_mono(s: Seq<char>, m: int)
    requires
        0 <= m <= s.len(),
    ensures
        digits_val(s.take(m)) <= digits_val(s),
    decreases s.len() - m,
{
    if m == s.len() {
        assert(s.take(m) =~= s);
    } else {
        lemma_digits_val_mono(s, m + 1);
        assert(s.take(m + 1).drop_last() =~= s.take(m));
        assert(digits_val(s.take(m + 1)) == digits_val(s.take(m)) * 10 + digit_of(
            s.take(m + 1).last(),
        ));
    }
}

/// Parse `s` as `u64::from_str_radix(s, 10)` would: `None` exactly where it
/// returns an error.
pub fn parse_u64(s: &Vec<char>) -> (r: Option<u64>)
    ensures
        r is Some <==> u64_parse_ok(s@),
        r is Some ==> r.unwrap() as nat == u64_parse_val(s@),
{
    let ghost d = unsigned_body(s@);
    let start: usize = if s.len() > 0 && s[0] == '+' {
        1
    } else {
        0
    };
    proof {
        assert(d =~= s@.skip(start as int));
    }
    if start == s.len() {
        return None;
    }
    let mut acc: u64 = 0;
    let mut i: usize = start;
    proof {
        assert(d.take(0) =~= Seq::<char>::empty());
    }
    while i < s.len()
        invariant
            start <= i <= s.len(),
            d == s@.skip(start as int),
            d == unsigned_body(s@),
            d.len() > 0,
            all_digits(d.take(i - start)),
            acc as nat == digits_val(d.take(i - start)),
        decreases s.len() - i,
    {
        let c = s[i];
        let u = c as u32;
        if !(0x30 <= u && u <= 0x39) {
            proof {
                assert(d[i - start] == c);
                assert(!is_digit(c));
                assert(!all_digits(d));
            }
            return None;
        }
        let dv: u64 = (u - 0x30) as u64;
        proof {
            assert(d.take(i - start + 1).drop_last() =~= d.take(i - start));
            assert(d.take(i - start + 1).last() == d[i - start]);
        }
        proof {
            assert(digit_of(d[i - start]) == dv as nat);
            assert(digits_val(d.take(i - start + 1)) == acc as nat * 10 + dv as nat);
        }
        let m = acc.checked_mul(10);
        match m {
            None => {
                proof {
                    assert(digits_val(d.take(i - start + 1)) > u64::MAX);
                    lemma_digits_val_mono(d, i - start + 1);
                    assert(digits_val(d) > u64::MAX);
                }
                return None;
            },
            Some(m10) => {
                let a = m10.checked_add(dv);
                match a {
                    None => {
                        proof {
                            assert(digits_val(d.take(i - start + 1)) > u64::MAX);
                            lemma_digits_val_mono(d, i - start + 1);
                            assert(digits_val(d) > u64::MAX);
                        }
                        return None;
                    },
                    Some(next) => {
                        acc = next;
                    },
                }
            },
        }
        i = i + 1;
    }
    proof {
        assert(d.take(i - start) =~= d);
    }
    Some(acc)
}

/// The character of one decimal digit value.
pub open spec fn digit_char(d: nat) -> char {
    if d == 0 {
        '0'
    } else if d == 1 {
        '1'
    } else if d == 2 {
        '2'
    } else if d == 3 {
        '3'
    } else if d == 4 {
        '4'
    } else if d == 5 {
        '5'
    } else if d == 6 {
        '6'
    } else if d == 7 {
        '7'
    } else if d == 8 {
        '8'
    } else {
        '9'
    }
}

fn digit_char_exec(d: u64) -> (r: char)
    requires
        d < 10,
    ensures
        r == digit_char(d as nat),
{
    if d == 0 {
        '0'
    } else if d == 1 {
        '1'
    } else if d == 2 {
        '2'
    } else if d == 3 {
        '3'
    } else if d == 4 {
        '4'
    } else if d == 5 {
        '5'
    } else if d == 6 {
        '6'
    } else if d == 7 {
        '7'
    } else if d == 8 {
        '8'
    } else {
        '9'
    }
}

/// The decimal digits of `n`, most significant first, no sign and no
/// leading zero (a single `'0'` for zero).
pub open spec fn dec_digits(n: nat) -> Seq<char>
    decreases n,
{
    if n < 10 {
        seq![digit_char(n)]
    } else {
        dec_digits(n / 10).push(digit_char(n % 10))
    }
}

fn u64_to_dec_chars(n: u64) -> (r: Vec<char>)
    ensures
        r@ == dec_digits(n as nat),
    decreases n,
{
    if n < 10 {
        let mut v: Vec<char> = Vec::new();
        v.push(digit_char_exec(n));
        proof {
            assert(v@ =~= seq![digit_char(n as nat)]);
        }
        v
    } else {
        let mut v = u64_to_dec_chars(n / 10);
        v.push(digit_char_exec(n % 10));
        v
    }
}

/// Render `n` in decimal, as formatting it for display would.
pub fn u64_to_string(n: u64) -> (r: String)
    ensures
        r@ == dec_digits(n as nat),
{
    let v = u64_to_dec_chars(n);
    crate::text::chars_to_string(&v)
}

} // verus!
