//! Settings read from the environment: the fallback of the price refresh
//! interval and the decimal reading of its value.

use vstd::prelude::*;
use crate::text::{trim, trimmed};

verus! {

/// The refresh interval, in seconds, used when the setting is blank.
pub open spec fn default_interval_text() -> Seq<char> {
    "120"@
}

/// The value of the refresh-interval setting after its fallback: a setting
/// that is empty or only white space stands for 120 seconds; any other
/// setting is kept as it was written.
pub open spec fn interval_setting(raw: Seq<char>) -> Seq<char> {
    if trim(raw).len() == 0 {
        default_interval_text()
    } else {
        raw
    }
}

/// Applies the fallback of the refresh-interval setting.
pub fn interval_or_default(raw: &str) -> (r: String)
    ensures
        r@ == interval_setting(raw@),
        trim(raw@).len() > 0 ==> r@ == raw@,
        trim(raw@).len() == 0 ==> r@ == "120"@,
{
    let t = trimmed(raw);
    if t.unicode_len() == 0 {
        String::from_str("120")
    } else {
        String::from_str(raw)
    }
}

/// A decimal digit.
pub open spec fn is_digit(c: char) -> bool {
    '0' <= c && c <= '9'
}

/// The number that a sequence of decimal digits writes.
pub open spec fn digits_value(d: Seq<char>) -> nat
    decreases d.len(),
{
    if d.len() == 0 {
        0
    } else {
        digits_value(d.drop_last()) * 10 + ((d.last() as nat) - ('0' as nat)) as nat
    }
}

/// The digits of a decimal text, without the `+` sign that may lead them.
pub open spec fn unsigned_digits(s: Seq<char>) -> Seq<char> {
    if s.len() > 0 && s[0] == '+' {
        s.drop_first()
    } else {
        s
    }
}

/// What reading `s` as a `u64` gives, as `str::parse::<u64>` reads it: an
/// optional `+`, then at least one decimal digit and nothing else, of a
/// value that fits in 64 bits.
pub open spec fn parsed_u64(s: Seq<char>) -> Option<u64> {
    let d = unsigned_digits(s);
    if d.len() > 0 && (forall|i: int| 0 <= i < d.len() ==> is_digit(#[trigger] d[i])) && digits_value(
        d,
    ) <= u64::MAX {
        Some(digits_value(d) as u64)
    } else {
        None
    }
}

proof fn lemma_digits_value_grows(d: Seq<char>, k: int)
    requires
        0 <= k <= d.len(),
        forall|i: int| 0 <= i < d.len() ==> is_digit(#[trigger] d[i]),
    ensures
        digits_value(d.take(k)) <= digits_value(d),
    decreases d.len() - k,
{
    if k < d.len() {
        lemma_digits_value_grows(d, k + 1);
        assert(d.take(k + 1).drop_last() =~= d.take(k));
        assert(is_digit(d[k]));
        assert(d.take(k + 1).last() == d[k]);
    } else {
        assert(d.take(k) =~= d);
    }
}

/// Reads a decimal text as a `u64`; `None` where `str::parse::<u64>` fails.
pub fn parse_u64(s: &str) -> (r: Option<u64>)
    ensures
        r == parsed_u64(s@),
{
    let n = s.unicode_len();
    let mut start: usize = 0;
    if n > 0 && s.get_char(0) == '+' {
        start = 1;
    }
    let ghost d = unsigned_digits(s@);
    assert(d =~= s@.skip(start as int));
    if start == n {
        return None;
    }
    let mut value: u64 = 0;
    let mut i: usize = start;
    while i < n
        invariant
            n == s@.len(),
            start <= i <= n,
            start < n,
            d == s@.skip(start as int),
            d == unsigned_digits(s@),
            forall|j: int| 0 <= j < i - start ==> is_digit(#[trigger] d[j]),
            value as nat == digits_value(d.take(i - start)),
        decreases n - i,
    {
        let c = s.get_char(i);
        assert(d[i - start] == c);
        if c < '0' || c > '9' {
            assert(!is_digit(d[i - start]));
            return None;
        }
        assert(is_digit(d[i - start]));
        let digit = (c as u32 - '0' as u32) as u64;
        assert(d.take(i - start + 1).drop_last() =~= d.take(i - start));
        assert(d.take(i - start + 1).last() == c);
        assert(digits_value(d.take(i - start + 1)) == value * 10 + digit);
        match value.checked_mul(10) {
            Some(v10) => match v10.checked_add(digit) {
                Some(next) => {
                    value = next;
                },
                None => {
                    proof {
                        lemma_overflow_is_final(d, i - start + 1);
                    }
                    return None;
                },
            },
            None => {
                proof {
                    lemma_overflow_is_final(d, i - start + 1);
                }
                return None;
            },
        }
        i = i + 1;
    }
    assert(d.take(n - start) =~= d);
    Some(value)
}

proof fn lemma_overflow_is_final(d: Seq<char>, k: int)
    requires
        0 < k <= d.len(),
        forall|j: int| 0 <= j < k ==> is_digit(#[trigger] d[j]),
        digits_value(d.take(k)) > u64::MAX,
    ensures
        !(d.len() > 0 && (forall|i: int| 0 <= i < d.len() ==> is_digit(#[trigger] d[i])) && digits_value(d)
            <= u64::MAX),
{
    if d.len() > 0 && (forall|i: int| 0 <= i < d.len() ==> is_digit(#[trigger] d[i])) {
        lemma_digits_value_grows(d, k);
    }
}


/// A blank refresh-interval setting reads as 120 seconds.
pub proof fn lemma_blank_interval_is_120(raw: Seq<char>)
    requires
        trim(raw).len() == 0,
    ensures
        parsed_u64(interval_setting(raw)) == Some(120u64),
{
    reveal_strlit("120");
    let d = unsigned_digits(interval_setting(raw));
    assert(d =~= seq!['1', '2', '0']);
    assert(d.drop_last() =~= seq!['1', '2']);
    assert(d.drop_last().drop_last() =~= seq!['1']);
    assert(d.drop_last().drop_last().drop_last() =~= Seq::<char>::empty());
    let d1 = d.drop_last().drop_last();
    let d2 = d.drop_last();
    assert(digits_value(d1.drop_last()) == 0);
    assert(d1.last() == '1');
    assert(('1' as nat) - ('0' as nat) == 1);
    assert(digits_value(d1) == 1);
    assert(d2.last() == '2');
    assert(digits_value(d2) == 12);
    assert(d.last() == '0');
    assert(digits_value(d) == 120);
}


/// A setting that is not blank is kept as written, so it reads as the
/// number it writes; only a blank setting is replaced, by "120".
pub proof fn lemma_set_interval_is_kept(raw: Seq<char>)
    ensures
        trim(raw).len() > 0 ==> interval_setting(raw) == raw && parsed_u64(interval_setting(raw))
            == parsed_u64(raw),
        trim(raw).len() == 0 ==> interval_setting(raw) == "120"@,
{
}


/// The value of one decimal digit.
pub open spec fn digit_value(d: char) -> int {
    (d as u32 as int) - ('0' as u32 as int)
}

/// Reading a `u64`: nothing, a lone `+`, a lone non-digit and a doubled `+`
/// read as nothing; a lone digit reads as its value; a leading `+` changes
/// nothing; and a digit appended to a number read as `v` gives `10 v + d`
/// when that fits in 64 bits and nothing otherwise, while anything appended
/// to a text that does not read, and a non-digit appended to any text, read
/// as nothing. These facts fix what every text reads as.
pub proof fn lemma_parse_u64_reads_decimal(s: Seq<char>, d: char)
    ensures
        parsed_u64(Seq::<char>::empty()) is None,
        parsed_u64(seq!['+']) is None,
        is_digit(d) ==> parsed_u64(seq![d]) == Some(digit_value(d) as u64),
        (!is_digit(d) && d != '+') ==> parsed_u64(seq![d]) is None,
        parsed_u64(seq!['+', '+'] + s) is None,
        (s.len() > 0 && s[0] != '+') ==> parsed_u64(seq!['+'] + s) == parsed_u64(s),
        (s.len() > 0 && s[0] != '+' && is_digit(d)) ==> (match parsed_u64(s) {
            Some(v) => if v * 10 + digit_value(d) <= u64::MAX {
                parsed_u64(s.push(d)) == Some((v * 10 + digit_value(d)) as u64)
            } else {
                parsed_u64(s.push(d)) is None
            },
            None => parsed_u64(s.push(d)) is None,
        }),
        (s.len() > 0 && !is_digit(d)) ==> parsed_u64(s.push(d)) is None,
{
    assert(unsigned_digits(Seq::<char>::empty()) =~= Seq::<char>::empty());
    assert(unsigned_digits(seq!['+']) =~= Seq::<char>::empty());
    assert(seq![d].drop_last() =~= Seq::<char>::empty());
    assert(seq![d].last() == d);
    assert(unsigned_digits(seq!['+', '+'] + s)[0] == '+');
    if s.len() > 0 && s[0] != '+' {
        assert(unsigned_digits(seq!['+'] + s) =~= s);
        assert(unsigned_digits(s) == s);
        let p = s.push(d);
        assert(unsigned_digits(p) == p);
        assert(p.drop_last() =~= s);
        assert(p.last() == d);
        if is_digit(d) {
            if (forall|i: int| 0 <= i < s.len() ==> is_digit(#[trigger] s[i])) {
                assert forall|i: int| 0 <= i < p.len() implies is_digit(#[trigger] p[i]) by {
                    if i < s.len() {
                        assert(p[i] == s[i]);
                    }
                }
            } else {
                let k = choose|k: int| 0 <= k < s.len() && !is_digit(#[trigger] s[k]);
                assert(p[k] == s[k]);
            }
        }
    }
    if s.len() > 0 && !is_digit(d) {
        let p = s.push(d);
        let u = unsigned_digits(p);
        if s[0] == '+' {
            assert(u[u.len() - 1] == d);
        } else {
            assert(u[p.len() - 1] == d);
        }
    }
}

} // verus!
