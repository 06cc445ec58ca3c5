//! Text helpers shared by the indexer: decimal rendering and parsing of
//! integers, and small string builders.
use vstd::prelude::*;

verus! {

/// The ASCII character of a decimal digit.
pub open spec fn digit_char(d: nat) -> char {
    (d + 48) as char
}

/// Whether `c` is an ASCII decimal digit.
pub open spec fn is_digit(c: char) -> bool {
    '0' <= c && c <= '9'
}

/// The numeric value of an ASCII digit.
pub open spec fn digit_value(c: char) -> int {
    c as int - 48
}

/// Whether every character of `s` is an ASCII decimal digit.
pub open spec fn all_digits(s: Seq<char>) -> bool {
    forall|i: int| 0 <= i < s.len() ==> is_digit(#[trigger] s[i])
}

/// The value of a string of decimal digits (most significant first).
pub open spec fn digits_value(s: Seq<char>) -> int
    decreases s.len(),
{
    if s.len() == 0 {
        0
    } else {
        digits_value(s.drop_last()) * 10 + digit_value(s.last())
    }
}

/// Decimal rendering of a natural number, without leading zeros.
pub open spec fn nat_to_decimal(n: nat) -> Seq<char>
    decreases n,
{
    if n < 10 {
        seq![digit_char(n)]
    } else {
        nat_to_decimal(n / 10).push(digit_char(n % 10))
    }
}

/// Decimal rendering of an integer, as `Display` writes it.
pub open spec fn int_to_decimal(i: int) -> Seq<char> {
    if i < 0 {
        seq!['-'] + nat_to_decimal((-i) as nat)
    } else {
        nat_to_decimal(i as nat)
    }
}

/// What `str::parse::<i64>` gives: an optional sign followed by one or more
/// ASCII digits whose value fits in an `i64`.
pub open spec fn parse_i64_spec(s: Seq<char>) -> Option<i64> {
    if s.len() == 0 {
        None
    } else {
        let neg = s[0] == '-';
        let body = if s[0] == '-' || s[0] == '+' {
            s.drop_first()
        } else {
            s
        };
        if body.len() == 0 || !all_digits(body) {
            None
        } else {
            let v = if neg {
                -digits_value(body)
            } else {
                digits_value(body)
            };
            if i64::MIN <= v && v <= i64::MAX {
                Some(v as i64)
            } else {
                None
            }
        }
    }
}

/// Appends one character to a string.
///
/// Calls `String::push`, which std documents as appending the given char to
/// the end of the string; the contract states exactly that.
#[verifier::external_body]
pub fn push_char(s: &mut String, c: char)
    ensures
        final(s)@ == old(s)@.push(c),
{
    s.push(c);
}

/// A fresh `String` holding `s`.
pub fn str_to_string(s: &str) -> (r: String)
    ensures
        r@ == s@,
{
    s.to_owned()
}

/// Concatenates two strings.
pub fn concat_str(a: &str, b: &str) -> (r: String)
    ensures
        r@ == a@ + b@,
{
    let mut r = str_to_string(a);
    r.append(b);
    r
}

/// Whether two strings hold the same characters.
pub fn str_eq(a: &str, b: &str) -> (r: bool)
    ensures
        r == (a@ == b@),
{
    let n: usize = a.unicode_len();
    if n != b.unicode_len() {
        return false;
    }
    let mut i: usize = 0;
    while i < n
        invariant
            n == a@.len() == b@.len(),
            i <= n,
            forall|j: int| 0 <= j < i ==> a@[j] == b@[j],
        decreases n - i,
    {
        if a.get_char(i) != b.get_char(i) {
            return false;
        }
        i = i + 1;
    }
    assert(a@ =~= b@);
    true
}

/// The digit character of `d < 10`.
pub fn digit_to_char(d: u64) -> (c: char)
    requires
        d < 10,
    ensures
        c == digit_char(d as nat),
        is_digit(c),
        digit_value(c) == d,
{
    let b: u8 = (d as u8) + 48;
    b as char
}

/// Decimal rendering of an unsigned integer.
pub fn u64_to_string(n: u64) -> (r: String)
    ensures
        r@ == nat_to_decimal(n as nat),
    decreases n,
{
    if n < 10 {
        let mut r = String::new();
        push_char(&mut r, digit_to_char(n));
        r
    } else {
        let mut r = u64_to_string(n / 10);
        push_char(&mut r, digit_to_char(n % 10));
        r
    }
}

/// Decimal rendering of a signed integer, as `i64::to_string` writes it.
pub fn i64_to_string(x: i64) -> (r: String)
    ensures
        r@ == int_to_decimal(x as int),
{
    if x < 0 {
        let wide: i128 = x as i128;
        let mag: u64 = (-wide) as u64;
        let digits = u64_to_string(mag);
        let mut r = String::new();
        push_char(&mut r, '-');
        r.append(digits.as_str());
        assert(r@ =~= seq!['-'] + nat_to_decimal((-(x as int)) as nat));
        r
    } else {
        u64_to_string(x as u64)
    }
}

proof fn lemma_digits_value_nonneg(s: Seq<char>)
    requires
        all_digits(s),
    ensures
        digits_value(s) >= 0,
    decreases s.len(),
{
    if s.len() > 0 {
        assert(all_digits(s.drop_last()));
        lemma_digits_value_nonneg(s.drop_last());
        assert(is_digit(s[s.len() - 1]));
    }
}

/// A digit string's value is at least the value of any of its prefixes.
proof fn lemma_digits_value_prefix_le(s: Seq<char>, k: int)
    requires
        all_digits(s),
        0 <= k <= s.len(),
    ensures
        digits_value(s.take(k)) <= digits_value(s),
    decreases s.len() - k,
{
    if k < s.len() {
        lemma_digits_value_prefix_le(s, k + 1);
        let p = s.take(k + 1);
        assert(p.drop_last() =~= s.take(k));
        assert(all_digits(s.take(k)));
        lemma_digits_value_nonneg(s.take(k));
        assert(is_digit(s[k]));
        assert(p.last() == s[k]);
    } else {
        assert(s.take(k) =~= s);
    }
}

/// The decimal rendering of `n` is a non-empty digit string whose value is
/// `n`.
proof fn lemma_nat_to_decimal_value(n: nat)
    ensures
        nat_to_decimal(n).len() > 0,
        all_digits(nat_to_decimal(n)),
        digits_value(nat_to_decimal(n)) == n,
    decreases n,
{
    let d: nat = n % 10;
    assert(digit_value(digit_char(d)) == d);
    assert(is_digit(digit_char(d)));
    if n >= 10 {
        lemma_nat_to_decimal_value(n / 10);
        let h = nat_to_decimal(n / 10);
        let s = h.push(digit_char(d));
        assert(s.drop_last() =~= h);
        assert(s.last() == digit_char(d));
        assert(forall|i: int| 0 <= i < h.len() ==> s[i] == h[i]);
        assert(digits_value(s) == digits_value(h) * 10 + d);
        assert((n / 10) * 10 + n % 10 == n) by (nonlinear_arith);
    } else {
        let e = seq![digit_char(n)];
        assert(d == n);
        assert(e.drop_last() =~= Seq::<char>::empty());
        assert(digits_value(Seq::<char>::empty()) == 0);
        assert(e.last() == digit_char(n));
        assert(nat_to_decimal(n) == e);
    }
}

/// Distinct integers have distinct decimal renderings.
pub proof fn lemma_int_to_decimal_injective(a: int, b: int)
    ensures
        int_to_decimal(a) == int_to_decimal(b) ==> a == b,
{
    if int_to_decimal(a) == int_to_decimal(b) {
        let na: nat = if a < 0 { (-a) as nat } else { a as nat };
        let nb: nat = if b < 0 { (-b) as nat } else { b as nat };
        lemma_nat_to_decimal_value(na);
        lemma_nat_to_decimal_value(nb);
        if a < 0 && b >= 0 {
            assert(int_to_decimal(a)[0] == '-');
            assert(is_digit(nat_to_decimal(nb)[0]));
        } else if a >= 0 && b < 0 {
            assert(int_to_decimal(b)[0] == '-');
            assert(is_digit(nat_to_decimal(na)[0]));
        } else if a < 0 && b < 0 {
            assert(int_to_decimal(a).drop_first() =~= nat_to_decimal(na));
            assert(int_to_decimal(b).drop_first() =~= nat_to_decimal(nb));
        }
    }
}

/// Parses a decimal `i64` as `str::parse::<i64>` does.
pub fn parse_i64(s: &str) -> (r: Option<i64>)
    ensures
        r == parse_i64_spec(s@),
{
    let n: usize = s.unicode_len();
    if n == 0 {
        return None;
    }
    let first = s.get_char(0);
    let neg = first == '-';
    let start: usize = if first == '-' || first == '+' {
        1
    } else {
        0
    };
    let ghost body = if first == '-' || first == '+' {
        s@.drop_first()
    } else {
        s@
    };
    if start == n {
        assert(body.len() == 0);
        return None;
    }
    let limit: i128 = 0x8000_0000_0000_0000i128;
    let mut acc: i128 = 0;
    let mut i: usize = start;
    while i < n
        invariant
            n == s@.len(),
            start <= i <= n,
            start == 0 || start == 1,
            body =~= s@.skip(start as int),
            body == (if s@[0] == '-' || s@[0] == '+' {
                s@.drop_first()
            } else {
                s@
            }),
            limit == 0x8000_0000_0000_0000i128,
            0 <= acc <= limit,
            all_digits(body.take(i - start)),
            acc == digits_value(body.take(i - start)),
        decreases n - i,
    {
        let c = s.get_char(i);
        if !(c >= '0' && c <= '9') {
            assert(body[i - start] == c);
            assert(!is_digit(body[(i - start) as int]));
            assert(!all_digits(body));
            return None;
        }
        let d: i128 = (c as u32 - 48) as i128;
        let ghost k: int = i - start;
        assert(body.take(k + 1).drop_last() =~= body.take(k));
        assert(body.take(k + 1).last() == c);
        assert(acc * 10 <= limit * 10) by (nonlinear_arith)
            requires
                0 <= acc <= limit,
        ;
        acc = acc * 10 + d;
        i = i + 1;
        assert(all_digits(body.take(i - start))) by {
            assert forall|j: int| 0 <= j < body.take(i - start).len() implies is_digit(
                #[trigger] body.take(i - start)[j],
            ) by {
                if j < k {
                    assert(body.take(i - start)[j] == body.take(k)[j]);
                }
            }
        }
        if acc > limit {
            proof {
                let bi: int = i - start;
                assert(body.len() == n - start);
                // every character of the body read so far is a digit; any
                // longer digit string only grows
                if all_digits(body) {
                    lemma_digits_value_prefix_le(body, bi);
                }
            }
            return None;
        }
    }
    assert(body.take(n - start) =~= body);
    if neg {
        Some((-acc) as i64)
    } else {
        if acc == limit {
            return None;
        }
        Some(acc as i64)
    }
}

} // verus!
