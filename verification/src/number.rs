//! Decimal numbers in text: parsing as `u32::from_str` / `u64::from_str`
//! accept them, and printing as `Display` writes them.
use vstd::prelude::*;

verus! {

/// An ASCII decimal digit.
pub open spec fn is_digit(c: char) -> bool {
    48 <= (c as u32) && (c as u32) <= 57
}

/// The value of an ASCII decimal digit.
pub open spec fn digit_of(c: char) -> nat {
    ((c as u32) - 48) as nat
}

/// Every character of `t` is a decimal digit.
pub open spec fn all_digits(t: Seq<char>) -> bool {
    forall|i: int| 0 <= i < t.len() ==> is_digit(#[trigger] t[i])
}

/// The value of a string of decimal digits, most significant first.
pub open spec fn digits_value(t: Seq<char>) -> nat
    decreases t.len(),
{
    if t.len() == 0 {
        0
    } else {
        digits_value(t.drop_last()) * 10 + digit_of(t.last())
    }
}

/// The digits of an unsigned number in text: one optional leading `+` is dropped.
pub open spec fn unsigned_digits(s: Seq<char>) -> Seq<char> {
    if s.len() > 0 && s[0] == '+' {
        s.drop_first()
    } else {
        s
    }
}

/// The value that `s` denotes as an unsigned decimal number, if it is one:
/// an optional `+`, then at least one digit and nothing else.
pub open spec fn decimal_value(s: Seq<char>) -> Option<nat> {
    let t = unsigned_digits(s);
    if t.len() > 0 && all_digits(t) {
        Some(digits_value(t))
    } else {
        None
    }
}

/// `s.parse::<u64>().ok()`.
pub open spec fn parse_u64(s: Seq<char>) -> Option<u64> {
    match decimal_value(s) {
        Some(n) => if n <= u64::MAX {
            Some(n as u64)
        } else {
            None
        },
        None => None,
    }
}

/// `s.parse::<u32>().ok()`.
pub open spec fn parse_u32(s: Seq<char>) -> Option<u32> {
    match decimal_value(s) {
        Some(n) => if n <= u32::MAX {
            Some(n as u32)
        } else {
            None
        },
        None => None,
    }
}

/// A number's value is at least that of any of its prefixes.
pub proof fn lemma_digits_value_prefix(t: Seq<char>, k: int)
    requires
        0 <= k <= t.len(),
    ensures
        digits_value(t.take(k)) <= digits_value(t),
    decreases t.len() - k,
{
    if k < t.len() {
        lemma_digits_value_prefix(t.drop_last(), k);
        assert(t.drop_last().take(k) =~= t.take(k));
    } else {
        assert(t.take(k) =~= t);
    }
}

/// Parses the characters of `v` as an unsigned 64-bit decimal number.
pub fn parse_u64_chars(v: &Vec<char>) -> (r: Option<u64>)
    ensures
        r == parse_u64(v@),
{
    let start: usize = if v.len() > 0 && v[0] == '+' {
        1
    } else {
        0
    };
    let ghost t = unsigned_digits(v@);
    proof {
        assert(t =~= v@.skip(start as int));
    }
    if start == v.len() {
        return None;
    }
    let mut acc: u64 = 0;
    let mut i: usize = start;
    proof {
        assert(t.take(0) =~= Seq::<char>::empty());
    }
    while i < v.len()
        invariant
            start <= i <= v.len(),
            t == v@.skip(start as int),
            t == unsigned_digits(v@),
            t.len() > 0,
            all_digits(t.take(i - start)),
            acc as nat == digits_value(t.take(i - start)),
        decreases v.len() - i,
    {
        let c = v[i];
        proof {
            assert(t[i - start] == c);
            assert(t.take(i - start + 1).drop_last() =~= t.take(i - start));
            assert(t.take(i - start + 1).last() == c);
        }
        if !((c as u32) >= 48 && (c as u32) <= 57) {
            proof {
                assert(!all_digits(t)) by {
                    assert(!is_digit(t[i - start]));
                }
            }
            return None;
        }
        let d = ((c as u32) - 48) as u64;
        match acc.checked_mul(10) {
            Some(m) => match m.checked_add(d) {
                Some(n) => {
                    acc = n;
                },
                None => {
                    proof {
                        assert(digits_value(t.take(i - start + 1)) == acc * 10 + d);
                        if all_digits(t) {
                            lemma_digits_value_prefix(t, i - start + 1);
                        }
                    }
                    return None;
                },
            },
            None => {
                proof {
                    if all_digits(t) {
                        lemma_digits_value_prefix(t, i - start + 1);
                    }
                }
                return None;
            },
        }
        proof {
            assert forall|j: int| 0 <= j < i - start + 1 implies is_digit(
                #[trigger] t.take(i - start + 1)[j],
            ) by {
                if j < i - start {
                    assert(t.take(i - start + 1)[j] == t.take(i - start)[j]);
                }
            }
        }
        i = i + 1;
    }
    proof {
        assert(t.take(i - start) =~= t);
    }
    Some(acc)
}

/// Parses the characters of `v` as an unsigned 32-bit decimal number.
pub fn parse_u32_chars(v: &Vec<char>) -> (r: Option<u32>)
    ensures
        r == parse_u32(v@),
{
    match parse_u64_chars(v) {
        Some(n) => {
            if n <= 0xffff_ffffu64 {
                Some(n as u32)
            } else {
                None
            }
        },
        None => {
            proof {
                if decimal_value(v@) is Some {
                    assert(decimal_value(v@)->0 > u64::MAX);
                }
            }
            None
        },
    }
}

/// `s.parse::<i32>().ok()`: an optional `+` or `-`, then at least one
/// digit and nothing else, in the range of `i32`.
pub open spec fn parse_i32(s: Seq<char>) -> Option<i32> {
    if s.len() > 0 && s[0] == '-' {
        let t = s.drop_first();
        if t.len() > 0 && all_digits(t) && digits_value(t) <= 0x8000_0000 {
            Some((0 - digits_value(t)) as i32)
        } else {
            None
        }
    } else {
        match decimal_value(s) {
            Some(n) => if n <= i32::MAX {
                Some(n as i32)
            } else {
                None
            },
            None => None,
        }
    }
}

/// Parses the characters of `v` as a signed 32-bit decimal number.
pub fn parse_i32_chars(v: &Vec<char>) -> (r: Option<i32>)
    ensures
        r == parse_i32(v@),
{
    if v.len() > 0 && v[0] == '-' {
        let rest = crate::text::slice_chars(v, 1, v.len());
        proof {
            assert(rest@ =~= v@.drop_first());
        }
        if rest.len() == 0 || rest[0] == '+' {
            proof {
                if rest@.len() > 0 {
                    assert(!is_digit(rest@[0]));
                }
            }
            return None;
        }
        match parse_u64_chars(&rest) {
            Some(n) => {
                if n <= 0x8000_0000u64 {
                    let r = (0i64 - n as i64) as i32;
                    Some(r)
                } else {
                    None
                }
            },
            None => None,
        }
    } else {
        match parse_u64_chars(v) {
            Some(n) => {
                if n <= 0x7fff_ffffu64 {
                    Some(n as i32)
                } else {
                    None
                }
            },
            None => None,
        }
    }
}

/// The ASCII digit for `d < 10`.
pub open spec fn digit_char(d: nat) -> char {
    ((48 + d) as u8) as char
}

/// The decimal text of `n`, as `Display` writes an unsigned integer.
pub open spec fn decimal_string(n: nat) -> Seq<char>
    decreases n,
{
    if n < 10 {
        seq![digit_char(n)]
    } else {
        decimal_string(n / 10).push(digit_char(n % 10))
    }
}

/// Appends the decimal text of `n` to `v`.
pub fn push_decimal(v: &mut Vec<char>, n: u64)
    ensures
        final(v)@ == old(v)@ + decimal_string(n as nat),
    decreases n,
{
    if n >= 10 {
        push_decimal(v, n / 10);
    }
    let d = (n % 10) as u8;
    v.push((48u8 + d) as char);
    proof {
        if n >= 10 {
            assert(old(v)@ + decimal_string(n as nat) =~= old(v)@ + decimal_string((n / 10) as nat)
                + seq![digit_char((n % 10) as nat)]);
        } else {
            assert(old(v)@ + decimal_string(n as nat) =~= old(v)@.push(digit_char(n as nat)));
        }
    }
}

/// The decimal text of `n`.
pub fn decimal_chars(n: u64) -> (r: Vec<char>)
    ensures
        r@ == decimal_string(n as nat),
{
    let mut v: Vec<char> = Vec::new();
    push_decimal(&mut v, n);
    proof {
        assert(Seq::<char>::empty() + decimal_string(n as nat) =~= decimal_string(n as nat));
    }
    v
}

/// The digit written for `d < 10` is a decimal digit of value `d`.
pub proof fn lemma_digit_char(d: nat)
    requires
        d < 10,
    ensures
        is_digit(digit_char(d)),
        digit_of(digit_char(d)) == d,
{
}

/// The decimal text of `n` is a non-empty run of digits whose value is `n`.
pub proof fn lemma_decimal_string(n: nat)
    ensures
        decimal_string(n).len() > 0,
        all_digits(decimal_string(n)),
        digits_value(decimal_string(n)) == n,
    decreases n,
{
    if n < 10 {
        lemma_digit_char(n);
        assert(decimal_string(n).drop_last() =~= Seq::<char>::empty());
        assert(digits_value(decimal_string(n)) == digits_value(Seq::<char>::empty()) * 10
            + digit_of(digit_char(n)));
    } else {
        lemma_decimal_string(n / 10);
        lemma_digit_char(n % 10);
        let s = decimal_string(n);
        assert(s.drop_last() =~= decimal_string(n / 10));
        assert(s.last() == digit_char(n % 10));
        assert(digits_value(s) == (n / 10) * 10 + n % 10);
        assert((n / 10) * 10 + n % 10 == n) by (nonlinear_arith);
        assert forall|i: int| 0 <= i < s.len() implies is_digit(#[trigger] s[i]) by {
            if i < s.len() - 1 {
                assert(s[i] == decimal_string(n / 10)[i]);
            }
        }
    }
}

/// `u32::from_str` reads back what `Display` writes for a `u32`.
pub proof fn lemma_parse_decimal_u32(n: u32)
    ensures
        parse_u32(decimal_string(n as nat)) == Some(n),
{
    lemma_decimal_string(n as nat);
    let s = decimal_string(n as nat);
    assert(is_digit(s[0]));
}

/// `u64::from_str` reads back what `Display` writes for a `u64`.
pub proof fn lemma_parse_decimal_u64(n: u64)
    ensures
        parse_u64(decimal_string(n as nat)) == Some(n),
{
    lemma_decimal_string(n as nat);
    let s = decimal_string(n as nat);
    assert(is_digit(s[0]));
}

/// A decimal digit is none of the characters the text formats here treat
/// specially: whitespace, `v`, `.`, `:`, `-` and `+`.
pub proof fn lemma_digit_is_plain(c: char)
    requires
        is_digit(c),
    ensures
        !crate::text::is_ws(c),
        c != 'v',
        c != '.',
        c != ':',
        c != '-',
        c != '+',
{
}

/// The decimal text of `n` is non-empty and holds none of the characters
/// treated specially by the text formats here.
pub proof fn lemma_decimal_plain(n: nat)
    ensures
        decimal_string(n).len() > 0,
        forall|i: int|
            0 <= i < decimal_string(n).len() ==> {
                let c = #[trigger] decimal_string(n)[i];
                &&& is_digit(c)
                &&& !crate::text::is_ws(c)
                &&& c != 'v'
                &&& c != '.'
                &&& c != ':'
                &&& c != '-'
                &&& c != '+'
            },
{
    lemma_decimal_string(n);
    assert forall|i: int| 0 <= i < decimal_string(n).len() implies {
        let c = #[trigger] decimal_string(n)[i];
        &&& is_digit(c)
        &&& !crate::text::is_ws(c)
        &&& c != 'v'
        &&& c != '.'
        &&& c != ':'
        &&& c != '-'
        &&& c != '+'
    } by {
        lemma_digit_is_plain(decimal_string(n)[i]);
    }
}

/// The decimal text of `n` after `k` zeros, as `ps` pads minutes and seconds.
pub open spec fn zero_padded(k: nat, n: nat) -> Seq<char> {
    Seq::new(k, |i: int| '0') + decimal_string(n)
}

/// Leading zeros do not change the value of a digit string.
proof fn lemma_leading_zeros(k: nat, t: Seq<char>)
    ensures
        digits_value(Seq::new(k, |i: int| '0') + t) == digits_value(t),
    decreases t.len(), k,
{
    let z = Seq::new(k, |i: int| '0');
    if t.len() == 0 {
        assert(z + t =~= z);
        if k > 0 {
            lemma_leading_zeros((k - 1) as nat, t);
            assert(z.drop_last() =~= Seq::new((k - 1) as nat, |i: int| '0'));
            assert(z.last() == '0');
            assert(digit_of('0') == 0);
            assert(Seq::new((k - 1) as nat, |i: int| '0') + t =~= Seq::new(
                (k - 1) as nat,
                |i: int| '0',
            ));
        }
    } else {
        lemma_leading_zeros(k, t.drop_last());
        assert((z + t).drop_last() =~= z + t.drop_last());
        assert((z + t).last() == t.last());
    }
}

/// A zero-padded decimal text is non-empty, holds only digits, and reads
/// back as its number.
pub proof fn lemma_zero_padded(k: nat, n: u64)
    ensures
        zero_padded(k, n as nat).len() > 0,
        forall|i: int|
            0 <= i < zero_padded(k, n as nat).len() ==> {
                let c = #[trigger] zero_padded(k, n as nat)[i];
                &&& is_digit(c)
                &&& !crate::text::is_ws(c)
                &&& c != 'v'
                &&& c != '.'
                &&& c != ':'
                &&& c != '-'
                &&& c != '+'
            },
        parse_u64(zero_padded(k, n as nat)) == Some(n),
{
    let d = decimal_string(n as nat);
    let z = Seq::new(k, |i: int| '0');
    let s = zero_padded(k, n as nat);
    lemma_decimal_plain(n as nat);
    lemma_decimal_string(n as nat);
    lemma_leading_zeros(k, d);
    assert forall|i: int| 0 <= i < s.len() implies {
        let c = #[trigger] s[i];
        &&& is_digit(c)
        &&& !crate::text::is_ws(c)
        &&& c != 'v'
        &&& c != '.'
        &&& c != ':'
        &&& c != '-'
        &&& c != '+'
    } by {
        if i < k {
            assert(s[i] == '0');
            lemma_digit_is_plain('0');
        } else {
            assert(s[i] == d[i - k]);
        }
    }
    assert(is_digit(s[0]));
    assert(all_digits(s));
}

} // verus!
