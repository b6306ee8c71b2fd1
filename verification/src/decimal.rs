//! Decimal rendering and parsing of integers, together with the facts the
//! rest of the library needs about them: rendering is injective (distinct
//! numbers never render to the same text), and parsing accepts exactly an
//! optional leading `+` followed by digits whose value fits in a `u64`.

use vstd::prelude::*;

verus! {

/// The character for one decimal digit value.
pub open spec fn dec_digit(d: nat) -> char {
    (((d + 48) as u8) as char)
}

/// The decimal rendering of a natural number, most significant digit first,
/// with no leading zeros (and `0` rendered as "0").
pub open spec fn dec_spec(n: nat) -> Seq<char>
    decreases n,
{
    if n < 10 {
        seq![dec_digit(n)]
    } else {
        dec_spec(n / 10) + seq![dec_digit(n % 10)]
    }
}

/// The decimal rendering of a signed number: a leading `-` for negatives.
pub open spec fn dec_int_spec(x: int) -> Seq<char> {
    if x < 0 {
        seq!['-'] + dec_spec((-x) as nat)
    } else {
        dec_spec(x as nat)
    }
}

/// The character for one decimal digit value.
pub fn exec_dec_digit(d: u64) -> (r: char)
    requires
        d < 10,
    ensures
        r == dec_digit(d as nat),
{
    ((d as u8) + 48) as char
}

/// Render a `u64` as its decimal digit characters.
pub fn dec_chars(x: u64) -> (r: Vec<char>)
    ensures
        r@ == dec_spec(x as nat),
{
    let mut digits: Vec<char> = Vec::new();
    let mut m = x;
    while m >= 10
        invariant
            dec_spec(x as nat) =~= dec_spec(m as nat) + digits@,
        decreases m,
    {
        let d = m % 10;
        digits.insert(0, exec_dec_digit(d));
        proof {
            assert(dec_spec(m as nat) =~= dec_spec((m as nat) / 10) + seq![
                dec_digit((m as nat) % 10),
            ]);
            assert(dec_spec((m as nat) / 10) + seq![dec_digit((m as nat) % 10)] + digits@.drop_first()
                =~= dec_spec((m as nat) / 10) + digits@);
        }
        m = m / 10;
    }
    digits.insert(0, exec_dec_digit(m));
    proof {
        assert(seq![dec_digit(m as nat)] + digits@.drop_first() =~= digits@);
        assert(dec_spec(m as nat) + digits@.drop_first() =~= digits@);
    }
    digits
}

/// Render a `u64` in decimal.
pub fn u64_to_dec(x: u64) -> (r: String)
    ensures
        r@ == dec_spec(x as nat),
{
    let digits = dec_chars(x);
    crate::text::chars_to_string(&digits)
}

/// Render a `u32` in decimal.
pub fn u32_to_dec(x: u32) -> (r: String)
    ensures
        r@ == dec_spec(x as nat),
{
    u64_to_dec(x as u64)
}

/// Render an `i64` in decimal, with a leading `-` for negative values.
pub fn i64_to_dec(x: i64) -> (r: String)
    ensures
        r@ == dec_int_spec(x as int),
{
    if x >= 0 {
        u64_to_dec(x as u64)
    } else {
        let mag: u64 = if x == i64::MIN {
            9223372036854775808u64
        } else {
            (-x) as u64
        };
        let digits = dec_chars(mag);
        let mut out: Vec<char> = Vec::new();
        out.push('-');
        let mut i: usize = 0;
        while i < digits.len()
            invariant
                digits@ == dec_spec(mag as nat),
                0 <= i <= digits@.len(),
                out@ =~= seq!['-'] + digits@.take(i as int),
            decreases digits@.len() - i,
        {
            out.push(digits[i]);
            assert(out@ =~= seq!['-'] + digits@.take(i + 1));
            i = i + 1;
        }
        proof {
            assert(out@ =~= seq!['-'] + digits@);
        }
        crate::text::chars_to_string(&out)
    }
}

/// Digit characters are distinct for distinct digit values.
proof fn lemma_dec_digit_injective(x: nat, y: nat)
    requires
        x < 10,
        y < 10,
        dec_digit(x) == dec_digit(y),
    ensures
        x == y,
{
    assert((dec_digit(x) as u32) == x + 48);
    assert((dec_digit(y) as u32) == y + 48);
}

/// Every character of a decimal rendering is a digit.
pub proof fn lemma_dec_digits(n: nat)
    ensures
        dec_spec(n).len() >= 1,
        forall|i: int|
            0 <= i < dec_spec(n).len() ==> '0' <= #[trigger] dec_spec(n)[i] && dec_spec(n)[i]
                <= '9',
    decreases n,
{
    if n < 10 {
    } else {
        lemma_dec_digits(n / 10);
    }
}

/// Decimal rendering is injective: distinct numbers render differently.
pub proof fn lemma_dec_injective(a: nat, b: nat)
    requires
        dec_spec(a) == dec_spec(b),
    ensures
        a == b,
    decreases a,
{
    lemma_dec_digits(a);
    lemma_dec_digits(b);
    if a < 10 && b < 10 {
        assert(dec_spec(a) == seq![dec_digit(a)]);
        assert(dec_spec(b) == seq![dec_digit(b)]);
        assert(dec_digit(a) == dec_spec(a)[0]);
        assert(dec_digit(b) == dec_spec(b)[0]);
        lemma_dec_digit_injective(a, b);
    } else if a < 10 && b >= 10 {
        lemma_dec_digits(b / 10);
        assert(dec_spec(b).len() >= 2);
    } else if a >= 10 && b < 10 {
        lemma_dec_digits(a / 10);
        assert(dec_spec(a).len() >= 2);
    } else {
        assert(dec_spec(a) == dec_spec(a / 10) + seq![dec_digit(a % 10)]);
        assert(dec_spec(b) == dec_spec(b / 10) + seq![dec_digit(b % 10)]);
        assert(dec_spec(a).last() == dec_digit(a % 10));
        assert(dec_spec(b).last() == dec_digit(b % 10));
        lemma_dec_digit_injective(a % 10, b % 10);
        assert(dec_spec(a).drop_last() =~= dec_spec(a / 10));
        assert(dec_spec(b).drop_last() =~= dec_spec(b / 10));
        lemma_dec_injective(a / 10, b / 10);
    }
}

/// Signed decimal rendering is injective as well.
pub proof fn lemma_dec_int_injective(a: int, b: int)
    requires
        dec_int_spec(a) == dec_int_spec(b),
    ensures
        a == b,
{
    lemma_dec_digits(if a < 0 {
        (-a) as nat
    } else {
        a as nat
    });
    lemma_dec_digits(if b < 0 {
        (-b) as nat
    } else {
        b as nat
    });
    if a < 0 && b < 0 {
        assert(dec_int_spec(a).drop_first() =~= dec_spec((-a) as nat));
        assert(dec_int_spec(b).drop_first() =~= dec_spec((-b) as nat));
        lemma_dec_injective((-a) as nat, (-b) as nat);
    } else if a < 0 && b >= 0 {
        assert(dec_int_spec(a)[0] == '-');
        assert(dec_int_spec(b)[0] != '-');
    } else if a >= 0 && b < 0 {
        assert(dec_int_spec(a)[0] != '-');
        assert(dec_int_spec(b)[0] == '-');
    } else {
        lemma_dec_injective(a as nat, b as nat);
    }
}

/// Whether a character is a decimal digit.
pub open spec fn is_digit(c: char) -> bool {
    '0' <= c && c <= '9'
}

/// The numeric value of a sequence of digit characters, most significant
/// first.
pub open spec fn digits_value(s: Seq<char>) -> nat
    decreases s.len(),
{
    if s.len() == 0 {
        0
    } else {
        digits_value(s.drop_last()) * 10 + (s.last() as nat - 48) as nat
    }
}

/// The digit characters a decimal parse reads: the input without a single
/// leading `+`, if it has one.
pub open spec fn parse_body(s: Seq<char>) -> Seq<char> {
    if s.len() > 0 && s[0] == '+' {
        s.drop_first()
    } else {
        s
    }
}

/// What parsing a decimal `u64` returns: the value of the digits, provided
/// the body is non-empty, all digits, and fits in a `u64`.
pub open spec fn parse_u64_spec(s: Seq<char>) -> Option<u64> {
    let body = parse_body(s);
    if body.len() >= 1 && (forall|i: int| 0 <= i < body.len() ==> is_digit(#[trigger] body[i]))
        && digits_value(body) <= u64::MAX {
        Some(digits_value(body) as u64)
    } else {
        None
    }
}

/// Parse a decimal `u64` from a string: an optional `+`, then digits.
/// Returns `None` on empty input, other characters, or overflow.
pub fn parse_u64(s: &str) -> (r: Option<u64>)
    ensures
        r == parse_u64_spec(s@),
{
    let v = crate::text::str_chars(s);
    let n = v.len();
    let start: usize = if n > 0 && v[0] == '+' {
        1
    } else {
        0
    };
    let ghost body = parse_body(s@);
    proof {
        assert(body =~= v@.subrange(start as int, n as int));
    }
    if start == n {
        return None;
    }
    let mut acc: u64 = 0;
    let mut i = start;
    while i < n
        invariant
            v@ == s@,
            n == v@.len(),
            start <= i <= n,
            body == parse_body(s@),
            body =~= v@.subrange(start as int, n as int),
            forall|j: int| start <= j < i ==> is_digit(#[trigger] v@[j]),
            acc == digits_value(v@.subrange(start as int, i as int)),
        decreases n - i,
    {
        let c = v[i];
        if !('0' <= c && c <= '9') {
            proof {
                assert(!is_digit(body[i - start]));
            }
            return None;
        }
        let d: u64 = (c as u8) as u64 - 48;
        let next = match acc.checked_mul(10) {
            Some(t) => t.checked_add(d),
            None => None,
        };
        match next {
            Some(t) => {
                proof {
                    let pref = v@.subrange(start as int, i + 1);
                    assert(pref.drop_last() =~= v@.subrange(start as int, i as int));
                    assert(pref.last() == v@[i as int]);
                }
                acc = t;
            },
            None => {
                proof {
                    let pref = v@.subrange(start as int, i + 1);
                    assert(pref.drop_last() =~= v@.subrange(start as int, i as int));
                    assert(pref.last() == v@[i as int]);
                    assert(digits_value(pref) > u64::MAX);
                    assert(body.take(i + 1 - start) =~= pref);
                    lemma_digits_value_monotone(body, i + 1 - start);
                }
                return None;
            },
        }
        i = i + 1;
    }
    proof {
        assert(v@.subrange(start as int, n as int) =~= body);
    }
    Some(acc)
}

/// The value of a digit string is at least the value of any of its prefixes.
proof fn lemma_digits_value_monotone(s: Seq<char>, k: int)
    requires
        0 <= k <= s.len(),
    ensures
        digits_value(s) >= digits_value(s.take(k)),
    decreases s.len() - k,
{
    if k < s.len() {
        lemma_digits_value_monotone(s, k + 1);
        let p = s.take(k + 1);
        assert(p.drop_last() =~= s.take(k));
        assert(digits_value(p) == digits_value(s.take(k)) * 10 + ((p.last() as nat - 48) as nat));
    } else {
        assert(s.take(k) =~= s);
    }
}

} // verus!
