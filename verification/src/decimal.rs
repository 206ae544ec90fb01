//! Decimal text: the spec-level meaning of digit sequences, a verified
//! renderer from `i32` to decimal text, and a verified parser from a digit
//! sequence to an `i32`.
//!
//! The scanner parses numeric literals with these functions, and the code
//! generator renders token payloads back to text with them, so emitted
//! literals are canonical decimal (`007` is emitted as `7`).

use vstd::prelude::*;

verus! {

/// An ASCII decimal digit.
pub open spec fn is_dec_digit(c: char) -> bool {
    48 <= (c as u32) && (c as u32) <= 57
}

/// Every character of `s` is an ASCII decimal digit.
pub open spec fn all_dec_digits(s: Seq<char>) -> bool {
    forall|k: int| 0 <= k < s.len() ==> is_dec_digit(#[trigger] s[k])
}

/// The numeric value of a sequence of ASCII decimal digits
/// (most significant first; the empty sequence has value 0).
pub open spec fn dec_val(s: Seq<char>) -> int
    decreases s.len(),
{
    if s.len() == 0 {
        0
    } else {
        dec_val(s.drop_last()) * 10 + ((s.last() as u32) - 48)
    }
}

/// The canonical decimal rendering of a non-negative integer:
/// no sign, no leading zeros (`0` renders as "0").
pub open spec fn dec_digits_of(n: int) -> Seq<char>
    decreases n,
{
    if n <= 0 {
        seq!['0']
    } else if n < 10 {
        seq![digit_char(n)]
    } else {
        dec_digits_of(n / 10).push(digit_char(n % 10))
    }
}

/// The digit character for a value in 0..10 (other values map to '9').
pub open spec fn digit_char(d: int) -> char {
    if d == 0 {
        '0'
    } else if d == 1 {
        '1'
    } else if d == 2 {
        '2'
    } else if d == 3 {
        '3'
    } else if d == 4 {
        '4'
    } else if d == 5 {
        '5'
    } else if d == 6 {
        '6'
    } else if d == 7 {
        '7'
    } else if d == 8 {
        '8'
    } else {
        '9'
    }
}

/// The canonical decimal rendering of any integer: a `-` sign for
/// negative values, then the digits of the absolute value.
pub open spec fn dec_str_of(n: int) -> Seq<char> {
    if n < 0 {
        seq!['-'] + dec_digits_of(-n)
    } else {
        dec_digits_of(n)
    }
}

/// The digit characters of `digits`, last element first: character `k` of
/// the result renders the digit `digits[len - 1 - k]`.
pub open spec fn rev_digit_chars(digits: Seq<u8>) -> Seq<char> {
    Seq::new(digits.len(), |k: int| digit_char(digits[digits.len() - 1 - k] as int))
}

/// A one-character string for a single decimal digit value.
fn digit_str(d: u8) -> (r: &'static str)
    requires
        d < 10,
    ensures
        r@ == seq![digit_char(d as int)],
{
    let r: &'static str = if d == 0 {
        "0"
    } else if d == 1 {
        "1"
    } else if d == 2 {
        "2"
    } else if d == 3 {
        "3"
    } else if d == 4 {
        "4"
    } else if d == 5 {
        "5"
    } else if d == 6 {
        "6"
    } else if d == 7 {
        "7"
    } else if d == 8 {
        "8"
    } else {
        "9"
    };
    proof {
        reveal_strlit("0");
        reveal_strlit("1");
        reveal_strlit("2");
        reveal_strlit("3");
        reveal_strlit("4");
        reveal_strlit("5");
        reveal_strlit("6");
        reveal_strlit("7");
        reveal_strlit("8");
        reveal_strlit("9");
        assert(r@ =~= seq![digit_char(d as int)]);
    }
    r
}

/// Renders an `i32` as canonical decimal text.
pub fn i32_to_string(n: i32) -> (r: String)
    ensures
        r@ == dec_str_of(n as int),
{
    let mut out = String::new();
    let mut m: u64;
    if n < 0 {
        out.append("-");
        let mm: i64 = -(n as i64);
        m = mm as u64;
        proof {
            assert(m as int == -(n as int));
        }
    } else {
        m = n as u64;
    }
    let ghost sign: Seq<char> = if n < 0 {
        seq!['-']
    } else {
        Seq::<char>::empty()
    };
    proof {
        reveal_strlit("-");
        assert(out@ =~= sign);
    }
    if m == 0 {
        out.append("0");
        proof {
            reveal_strlit("0");
            assert(out@ =~= dec_str_of(n as int));
        }
        return out;
    }
    let ghost m0: int = m as int;
    let mut digits: Vec<u8> = Vec::new();
    proof {
        assert(dec_digits_of(m0) =~= dec_digits_of(m0) + rev_digit_chars(digits@));
    }
    while m != 0
        invariant
            0 < m0 <= u64::MAX,
            m <= m0,
            forall|k: int| 0 <= k < digits@.len() ==> #[trigger] digits@[k] < 10,
            m > 0 ==> dec_digits_of(m0) == dec_digits_of(m as int) + rev_digit_chars(digits@),
            m == 0 ==> dec_digits_of(m0) == rev_digit_chars(digits@),
        decreases m,
    {
        let d: u8 = (m % 10) as u8;
        let ghost old_digits = digits@;
        let ghost old_m = m as int;
        digits.push(d);
        m = m / 10;
        proof {
            assert(rev_digit_chars(old_digits.push(d)) =~= seq![digit_char(d as int)]
                + rev_digit_chars(old_digits));
            if old_m < 10 {
                assert(m == 0);
                assert(dec_digits_of(old_m) == seq![digit_char(d as int)]);
                assert(dec_digits_of(old_m) + rev_digit_chars(old_digits) =~= rev_digit_chars(
                    digits@,
                ));
                assert(dec_digits_of(m0) == rev_digit_chars(digits@));
            } else {
                assert(m == old_m / 10 > 0);
                assert(dec_digits_of(old_m) == dec_digits_of(old_m / 10).push(
                    digit_char(old_m % 10),
                ));
                assert(dec_digits_of(old_m) =~= dec_digits_of(old_m / 10) + seq![
                    digit_char(d as int),
                ]);
                assert(dec_digits_of(old_m) + rev_digit_chars(old_digits) =~= dec_digits_of(
                    m as int,
                ) + rev_digit_chars(digits@));
                assert(dec_digits_of(m0) == dec_digits_of(m as int) + rev_digit_chars(digits@));
            }
        }
    }
    let total: usize = digits.len();
    proof {
        assert(out@ =~= sign + rev_digit_chars(digits@).take(0));
    }
    let mut k: usize = 0;
    while k < total
        invariant
            total == digits@.len(),
            k <= total,
            forall|j: int| 0 <= j < digits@.len() ==> #[trigger] digits@[j] < 10,
            out@ == sign + rev_digit_chars(digits@).take(k as int),
        decreases total - k,
    {
        let d = digits[total - 1 - k];
        out.append(digit_str(d));
        proof {
            assert(rev_digit_chars(digits@).take(k + 1) =~= rev_digit_chars(digits@).take(k as int)
                + seq![digit_char(digits@[total - 1 - k as int] as int)]);
            assert(out@ =~= sign + rev_digit_chars(digits@).take(k + 1));
        }
        k += 1;
    }
    proof {
        assert(rev_digit_chars(digits@).take(total as int) =~= rev_digit_chars(digits@));
        assert(out@ == sign + dec_digits_of(m0));
        if n < 0 {
            assert(m0 == -(n as int));
            assert(out@ =~= dec_str_of(n as int));
        } else {
            assert(m0 == n as int);
            assert(sign + dec_digits_of(m0) =~= dec_digits_of(n as int));
        }
    }
    out
}

/// The value of a digit sequence is never negative.
proof fn lemma_dec_val_nonneg(s: Seq<char>)
    requires
        all_dec_digits(s),
    ensures
        dec_val(s) >= 0,
    decreases s.len(),
{
    if s.len() > 0 {
        assert(all_dec_digits(s.drop_last()));
        lemma_dec_val_nonneg(s.drop_last());
    }
}

/// The value of a digit sequence is at least the value of any prefix.
proof fn lemma_dec_val_prefix(s: Seq<char>, j: int)
    requires
        all_dec_digits(s),
        0 <= j <= s.len(),
    ensures
        dec_val(s) >= dec_val(s.take(j)),
    decreases s.len() - j,
{
    if j == s.len() {
        assert(s.take(j) =~= s);
    } else {
        lemma_dec_val_prefix(s, j + 1);
        assert(s.take(j + 1).drop_last() =~= s.take(j));
        assert(s.take(j + 1).last() == s[j]);
        lemma_dec_val_nonneg(s.take(j));
        assert(dec_val(s.take(j + 1)) == dec_val(s.take(j)) * 10 + ((s[j] as u32) - 48));
        assert(dec_val(s.take(j)) * 10 >= dec_val(s.take(j))) by {
            lemma_dec_val_nonneg(s.take(j));
        }
    }
}

/// Parses a sequence of characters as an unsigned decimal `i32` literal.
/// Succeeds exactly when every character is an ASCII decimal digit and the
/// value fits in `i32`; the result is then that value.
pub fn parse_dec_digits(digits: &Vec<char>) -> (r: Option<i32>)
    ensures
        match r {
            Some(n) => all_dec_digits(digits@) && n as int == dec_val(digits@) && n >= 0,
            None => !(all_dec_digits(digits@) && dec_val(digits@) <= i32::MAX),
        },
{
    let mut acc: u64 = 0;
    let mut i: usize = 0;
    let len: usize = digits.len();
    while i < len
        invariant
            len == digits@.len(),
            i <= len,
            forall|k: int| 0 <= k < i ==> is_dec_digit(#[trigger] digits@[k]),
            acc as int == dec_val(digits@.take(i as int)),
            acc <= i32::MAX,
        decreases len - i,
    {
        let c = digits[i];
        let cu = c as u32;
        if cu < 48 || cu > 57 {
            assert(!is_dec_digit(digits@[i as int]));
            return None;
        }
        proof {
            assert(digits@.take(i + 1).drop_last() =~= digits@.take(i as int));
            assert(digits@.take(i + 1).last() == digits@[i as int]);
        }
        acc = acc * 10 + (cu - 48) as u64;
        i = i + 1;
        if acc > 2147483647u64 {
            proof {
                if all_dec_digits(digits@) {
                    lemma_dec_val_prefix(digits@, i as int);
                }
            }
            return None;
        }
    }
    proof {
        assert(digits@.take(len as int) =~= digits@);
    }
    Some(acc as i32)
}

} // verus!
