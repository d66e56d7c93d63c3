//! Decimal reading and writing of unit counts.
//!
//! A count is read the way an unsigned integer is read from text, after every
//! `_` has been taken out: an optional leading `+`, then one or more ASCII
//! digits, with a value that fits the target type.
use vstd::prelude::*;
use vstd::string::*;

verus! {

/// `s` with every underscore removed.
pub open spec fn strip_underscores(s: Seq<char>) -> Seq<char>
    decreases s.len(),
{
    if s.len() == 0 {
        s
    } else {
        let rest = strip_underscores(s.drop_last());
        if s.last() == '_' {
            rest
        } else {
            rest.push(s.last())
        }
    }
}

pub open spec fn is_digit(c: char) -> bool {
    48 <= c as u32 <= 57
}

pub open spec fn digit_value(c: char) -> nat {
    (c as u32 - 48) as nat
}

/// The value of a sequence of decimal digits, most significant first.
pub open spec fn digits_value(d: Seq<char>) -> nat
    decreases d.len(),
{
    if d.len() == 0 {
        0
    } else {
        digits_value(d.drop_last()) * 10 + digit_value(d.last())
    }
}

pub open spec fn all_digits(d: Seq<char>) -> bool {
    forall|i: int| 0 <= i < d.len() ==> is_digit(#[trigger] d[i])
}

/// `t` without one leading `+`.
pub open spec fn unsigned_body(t: Seq<char>) -> Seq<char> {
    if t.len() > 0 && t[0] == '+' {
        t.subrange(1, t.len() as int)
    } else {
        t
    }
}

/// The number that `s` writes, underscores aside, if it writes one.
pub open spec fn decimal_text_value(s: Seq<char>) -> Option<nat> {
    let d = unsigned_body(strip_underscores(s));
    if d.len() > 0 && all_digits(d) {
        Some(digits_value(d))
    } else {
        None
    }
}

/// The number that `s` writes, if it writes one no larger than `max`.
pub open spec fn decimal_text_within(s: Seq<char>, max: nat) -> Option<nat> {
    match decimal_text_value(s) {
        Some(n) => if n <= max {
            Some(n)
        } else {
            None
        },
        None => None,
    }
}

proof fn lemma_digits_prefix_le(s: Seq<char>, j: int)
    requires
        all_digits(s),
        0 <= j <= s.len(),
    ensures
        digits_value(s.subrange(0, j)) <= digits_value(s),
    decreases s.len(),
{
    if j == s.len() {
        assert(s.subrange(0, j) =~= s);
    } else {
        let t = s.drop_last();
        assert(t.subrange(0, j) =~= s.subrange(0, j));
        lemma_digits_prefix_le(t, j);
    }
}

fn strip_text(value: &str) -> (r: Vec<char>)
    ensures
        r@ == strip_underscores(value@),
{
    let n = value.unicode_len();
    let mut cleaned: Vec<char> = Vec::new();
    let mut i: usize = 0;
    while i < n
        invariant
            n == value@.len(),
            i <= n,
            cleaned@ == strip_underscores(value@.subrange(0, i as int)),
        decreases n - i,
    {
        let c = value.get_char(i);
        assert(value@.subrange(0, i + 1).drop_last() =~= value@.subrange(0, i as int));
        if c != '_' {
            cleaned.push(c);
        }
        i = i + 1;
    }
    assert(value@.subrange(0, n as int) =~= value@);
    cleaned
}

/// Reads the unsigned number that `value` writes, underscores aside.
pub fn parse_decimal(value: &str) -> (r: Option<u64>)
    ensures
        r matches Some(n) ==> decimal_text_within(value@, u64::MAX as nat) == Some(n as nat),
        r is None ==> decimal_text_within(value@, u64::MAX as nat) is None,
{
    let cleaned = strip_text(value);
    let len = cleaned.len();
    let start: usize = if len > 0 && cleaned[0] == '+' {
        1
    } else {
        0
    };
    let ghost body = unsigned_body(cleaned@);
    assert(body =~= cleaned@.subrange(start as int, len as int));
    assert(unsigned_body(strip_underscores(value@)) == body);
    if start == len {
        return None;
    }
    let mut acc: u64 = 0;
    let mut j: usize = start;
    while j < len
        invariant
            len == cleaned@.len(),
            start <= j <= len,
            body == cleaned@.subrange(start as int, len as int),
            body == unsigned_body(strip_underscores(value@)),
            all_digits(body.subrange(0, j - start)),
            acc as nat == digits_value(body.subrange(0, j - start)),
        decreases len - j,
    {
        let c = cleaned[j];
        let code = c as u32;
        if !(48 <= code && code <= 57) {
            assert(!all_digits(body)) by {
                assert(body[j - start] == c);
            }
            assert(decimal_text_value(value@) is None);
            return None;
        }
        let d = (code - 48) as u64;
        let ghost prefix = body.subrange(0, j - start + 1);
        assert(prefix.drop_last() =~= body.subrange(0, j - start));
        assert(prefix.last() == c);
        if acc > (u64::MAX - d) / 10 {
            proof {
                assert(digits_value(prefix) == acc * 10 + d);
                assert(acc * 10 + d > u64::MAX);
                if all_digits(body) {
                    lemma_digits_prefix_le(body, j - start + 1);
                    assert(decimal_text_value(value@) == Some(digits_value(body)));
                }
            }
            return None;
        }
        acc = acc * 10 + d;
        j = j + 1;
        assert(all_digits(body.subrange(0, j - start))) by {
            assert forall|k: int| 0 <= k < j - start implies is_digit(
                #[trigger] body.subrange(0, j - start)[k],
            ) by {
                if k < j - start - 1 {
                    assert(body.subrange(0, j - start)[k] == body.subrange(0, j - start - 1)[k]);
                }
            }
        }
    }
    assert(body.subrange(0, len - start) =~= body);
    Some(acc)
}

/// The decimal digit characters, by value.
pub const DIGITS: &'static str = "0123456789";

/// The decimal numeral of `n`, most significant digit first, without leading zeros.
pub open spec fn decimal_digits(n: nat) -> Seq<char>
    decreases n,
{
    if n < 10 {
        seq![DIGITS@[n as int]]
    } else {
        decimal_digits(n / 10).push(DIGITS@[(n % 10) as int])
    }
}

/// `d` with a comma between each group of three characters, counted from the right.
pub open spec fn grouped_by_thousands(d: Seq<char>) -> Seq<char>
    decreases d.len(),
{
    if d.len() <= 3 {
        d
    } else {
        grouped_by_thousands(d.subrange(0, d.len() - 3)) + ","@ + d.subrange(
            d.len() - 3,
            d.len() as int,
        )
    }
}

fn append_decimal(out: &mut String, n: u64)
    requires
        DIGITS@.len() == 10,
    ensures
        final(out)@ == old(out)@ + decimal_digits(n as nat),
    decreases n,
{
    if n >= 10 {
        append_decimal(out, n / 10);
    }
    let d = (n % 10) as usize;
    let digit = DIGITS.substring_char(d, d + 1);
    proof {
        assert(digit@ =~= seq![DIGITS@[d as int]]);
    }
    out.append(digit);
    proof {
        if n >= 10 {
            assert(decimal_digits(n as nat) =~= decimal_digits((n / 10) as nat) + seq![
                DIGITS@[d as int],
            ]);
        }
    }
}

fn append_grouped(out: &mut String, d: &str, len: usize)
    requires
        len <= d@.len(),
    ensures
        final(out)@ == old(out)@ + grouped_by_thousands(d@.subrange(0, len as int)),
    decreases len,
{
    if len <= 3 {
        out.append(d.substring_char(0, len));
    } else {
        append_grouped(out, d, len - 3);
        out.append(",");
        out.append(d.substring_char(len - 3, len));
        proof {
            let whole = d@.subrange(0, len as int);
            assert(whole.subrange(0, len - 3) =~= d@.subrange(0, len - 3));
            assert(whole.subrange(len - 3, len as int) =~= d@.subrange(len - 3, len as int));
        }
    }
}

/// Writes `value` in decimal with commas between groups of three digits.
pub fn format_number(value: u64) -> (r: String)
    ensures
        r@ == grouped_by_thousands(decimal_digits(value as nat)),
{
    proof {
        reveal_strlit("0123456789");
    }
    let mut digits = String::new();
    append_decimal(&mut digits, value);
    let digits_text = digits.as_str();
    let mut out = String::new();
    append_grouped(&mut out, digits_text, digits_text.unicode_len());
    proof {
        assert(digits_text@.subrange(0, digits_text@.len() as int) =~= digits_text@);
        assert(out@ =~= Seq::<char>::empty() + grouped_by_thousands(digits_text@));
    }
    out
}

} // verus!
