use vstd::prelude::*;

verus! {

/// The largest whole part that a decimal text may have; beyond it the value
/// is refused rather than wrapped.
pub const MAX_WHOLE: u64 = 1_000_000_000_000_000;

pub open spec fn is_digit(c: char) -> bool {
    '0' <= c && c <= '9'
}

pub open spec fn digit(c: char) -> int {
    c as int - '0' as int
}

pub open spec fn all_digits(s: Seq<char>) -> bool {
    forall|i: int| 0 <= i < s.len() ==> is_digit(#[trigger] s[i])
}

/// The number that a run of decimal digits spells.
pub open spec fn value_of(s: Seq<char>) -> int
    decreases s.len(),
{
    if s.len() == 0 {
        0
    } else {
        value_of(s.drop_last()) * 10 + digit(s.last())
    }
}

/// How many digits `s` starts with.
pub open spec fn leading_digits(s: Seq<char>) -> nat
    decreases s.len(),
{
    if s.len() > 0 && is_digit(s[0]) {
        1 + leading_digits(s.drop_first())
    } else {
        0
    }
}

/// Hundredths from the digits after the point: the first two count, the
/// rest are cut off.
pub open spec fn hundredths_of_fraction(f: Seq<char>) -> int {
    digit(f[0]) * 10 + if f.len() >= 2 { digit(f[1]) } else { 0 }
}

/// The value in hundredths of an unsigned decimal text: digits, then
/// optionally a point and at least one more digit.
pub open spec fn unsigned_hundredths(s: Seq<char>) -> Option<int> {
    let n = leading_digits(s) as int;
    let rest = s.skip(n);
    if n == 0 || value_of(s.take(n)) > MAX_WHOLE {
        None
    } else if rest.len() == 0 {
        Some(value_of(s.take(n)) * 100)
    } else if rest[0] == '.' && rest.len() >= 2 && all_digits(rest.skip(1)) {
        Some(value_of(s.take(n)) * 100 + hundredths_of_fraction(rest.skip(1)))
    } else {
        None
    }
}

/// The value in hundredths of a decimal text with an optional leading minus.
pub open spec fn hundredths(s: Seq<char>) -> Option<int> {
    if s.len() > 0 && s[0] == '-' {
        match unsigned_hundredths(s.drop_first()) {
            Some(m) => Some(-m),
            None => None,
        }
    } else {
        unsigned_hundredths(s)
    }
}

proof fn lemma_value_monotone(s: Seq<char>, j: int, k: int)
    requires
        0 <= j <= k <= s.len(),
        all_digits(s.take(k)),
    ensures
        value_of(s.take(j)) <= value_of(s.take(k)),
    decreases k - j,
{
    if j < k {
        assert(s.take(k).drop_last() =~= s.take(k - 1));
        assert(is_digit(s.take(k)[k - 1]));
        assert forall|i: int| 0 <= i < k - 1 implies is_digit(#[trigger] s.take(k - 1)[i]) by {
            assert(s.take(k - 1)[i] == s.take(k)[i]);
        }
        lemma_value_monotone(s, j, k - 1);
        assert(value_of(s.take(k - 1)) >= 0) by {
            lemma_value_nonneg(s.take(k - 1));
        }
    }
}

proof fn lemma_value_nonneg(s: Seq<char>)
    requires
        all_digits(s),
    ensures
        value_of(s) >= 0,
    decreases s.len(),
{
    if s.len() > 0 {
        assert forall|i: int| 0 <= i < s.len() - 1 implies is_digit(#[trigger] s.drop_last()[i]) by {
            assert(s.drop_last()[i] == s[i]);
        }
        lemma_value_nonneg(s.drop_last());
        assert(is_digit(s[s.len() - 1]));
    }
}

proof fn lemma_leading_digits(s: Seq<char>, m: int)
    requires
        0 <= m <= s.len(),
        all_digits(s.take(m)),
        m == s.len() || !is_digit(s[m]),
    ensures
        leading_digits(s) == m,
    decreases m,
{
    if m > 0 {
        let t = s.drop_first();
        assert(is_digit(s.take(m)[0]));
        assert forall|i: int| 0 <= i < m - 1 implies is_digit(#[trigger] t.take(m - 1)[i]) by {
            assert(t.take(m - 1)[i] == s.take(m)[i + 1]);
        }
        if m < s.len() {
            assert(t[m - 1] == s[m]);
        }
        lemma_leading_digits(t, m - 1);
    }
}

/// A text whose first `m` characters are digits starts with at least `m`
/// digits, and all of its leading digits are digits.
proof fn lemma_leading_digits_reach(s: Seq<char>, m: int)
    requires
        0 <= m <= s.len(),
        all_digits(s.take(m)),
    ensures
        m <= leading_digits(s) <= s.len(),
        all_digits(s.take(leading_digits(s) as int)),
    decreases s.len() - m,
{
    if m == s.len() || !is_digit(s[m]) {
        lemma_leading_digits(s, m);
    } else {
        assert forall|j: int| 0 <= j < m + 1 implies is_digit(#[trigger] s.take(m + 1)[j]) by {
            if j < m {
                assert(s.take(m + 1)[j] == s.take(m)[j]);
            }
        }
        lemma_leading_digits_reach(s, m + 1);
    }
}

fn char_is_digit(c: char) -> (r: bool)
    ensures
        r == is_digit(c),
{
    '0' <= c && c <= '9'
}

fn digit_value(c: char) -> (r: u64)
    requires
        is_digit(c),
    ensures
        r == digit(c),
        r <= 9,
{
    (c as u32 - '0' as u32) as u64
}

/// A run of digits whose value is already above `MAX_WHOLE` makes the
/// text invalid, whatever follows.
proof fn lemma_whole_too_large(t: Seq<char>, m: int)
    requires
        0 <= m <= t.len(),
        all_digits(t.take(m)),
        value_of(t.take(m)) > MAX_WHOLE,
    ensures
        unsigned_hundredths(t) is None,
{
    lemma_leading_digits_reach(t, m);
    lemma_value_monotone(t, m, leading_digits(t) as int);
}

/// Reads the unsigned decimal text that starts at character `start` of `s`.
fn parse_unsigned(s: &str, start: usize) -> (r: Option<u64>)
    requires
        start <= s@.len(),
    ensures
        r matches Some(v) ==> unsigned_hundredths(s@.skip(start as int)) == Some(v as int)
            && v <= MAX_WHOLE * 100 + 99,
        r is None ==> unsigned_hundredths(s@.skip(start as int)) is None,
{
    let n = s.unicode_len();
    let ghost t = s@.skip(start as int);
    let mut i: usize = start;
    let mut whole: u64 = 0;
    while i < n && char_is_digit(s.get_char(i))
        invariant
            n == s@.len(),
            start <= i <= n,
            t == s@.skip(start as int),
            all_digits(t.take(i - start)),
            whole == value_of(t.take(i - start)),
            whole <= MAX_WHOLE,
        decreases n - i,
    {
        let d = digit_value(s.get_char(i));
        let ghost k = i - start;
        proof {
            assert(t.take(k + 1).drop_last() =~= t.take(k));
            assert(t.take(k + 1).last() == s@[i as int]);
            assert forall|j: int| 0 <= j < k + 1 implies is_digit(#[trigger] t.take(k + 1)[j]) by {
                if j < k {
                    assert(t.take(k + 1)[j] == t.take(k)[j]);
                }
            }
        }
        whole = whole * 10 + d;
        i = i + 1;
        if whole > MAX_WHOLE {
            proof {
                lemma_whole_too_large(t, (i - start) as int);
            }
            return None;
        }
    }
    let ghost m = (i - start) as int;
    proof {
        if i < n {
            assert(t[m] == s@[i as int]);
        }
        lemma_leading_digits(t, m);
        assert(t.skip(m).len() == n - i);
    }
    if i == start {
        return None;
    }
    if i == n {
        return Some(whole * 100);
    }
    if s.get_char(i) != '.' || i + 1 >= n {
        proof {
            assert(t.skip(m)[0] == s@[i as int]);
        }
        return None;
    }
    let ghost f = t.skip(m).skip(1);
    proof {
        assert(t.skip(m)[0] == s@[i as int]);
        assert(f.len() == n - i - 1);
        assert forall|q: int| 0 <= q < f.len() implies #[trigger] f[q] == s@[q + i + 1] by {}
    }
    let mut j: usize = i + 1;
    while j < n
        invariant
            n == s@.len(),
            i + 1 <= j <= n,
            f == t.skip(m).skip(1),
            leading_digits(t) == m,
            t == s@.skip(start as int),
            t.len() == n - start,
            start <= i,
            m == i - start,
            0 < m,
            value_of(t.take(m)) <= MAX_WHOLE,
            t.skip(m)[0] == '.',
            f.len() == n - i - 1,
            forall|q: int| 0 <= q < f.len() ==> #[trigger] f[q] == s@[q + i + 1],
            forall|q: int| 0 <= q < j - i - 1 ==> is_digit(#[trigger] f[q]),
        decreases n - j,
    {
        if !char_is_digit(s.get_char(j)) {
            proof {
                assert(f[j - i - 1] == s@[j as int]);
                assert(!all_digits(f));
                assert(t.skip(m).len() >= 2);
                assert(unsigned_hundredths(t) is None);
            }
            return None;
        }
        proof {
            assert(f[j - i - 1] == s@[j as int]);
        }
        j = j + 1;
    }
    let f1 = digit_value(s.get_char(i + 1));
    let f2 = if i + 2 < n { digit_value(s.get_char(i + 2)) } else { 0 };
    proof {
        assert(f[0] == s@[i + 1]);
        if i + 2 < n {
            assert(f[1] == s@[i + 2]);
        }
    }
    Some(whole * 100 + f1 * 10 + f2)
}

/// Reads a decimal text such as `"12.5"`, `"-0.75"` or `"300"` into
/// hundredths (`1250`, `-75`, `30000`). Digits beyond the second after the
/// point are cut off. Anything else, and a whole part above `MAX_WHOLE`, is
/// refused.
pub fn parse_hundredths(s: &str) -> (r: Option<i64>)
    ensures
        r matches Some(v) ==> hundredths(s@) == Some(v as int),
        r is None ==> hundredths(s@) is None,
{
    let n = s.unicode_len();
    if n > 0 && s.get_char(0) == '-' {
        proof {
            assert(s@.skip(1) =~= s@.drop_first());
        }
        match parse_unsigned(s, 1) {
            Some(m) => Some(-(m as i64)),
            None => None,
        }
    } else {
        proof {
            assert(s@.skip(0) =~= s@);
        }
        match parse_unsigned(s, 0) {
            Some(m) => Some(m as i64),
            None => None,
        }
    }
}

pub open spec fn digit_char(d: int) -> char {
    ((d + 48) as u8) as char
}

/// The decimal digits of `n`, without leading zeros.
pub open spec fn decimal_digits(n: nat) -> Seq<char>
    decreases n,
{
    if n < 10 {
        seq![digit_char(n as int)]
    } else {
        decimal_digits(n / 10).push(digit_char((n % 10) as int))
    }
}

pub open spec fn magnitude(v: i64) -> nat {
    if v < 0 { (-(v as int)) as nat } else { v as nat }
}

/// An amount in hundredths written out: a minus for a negative amount, the
/// whole part, a point and always two digits (`-1205` is `"-12.05"`).
pub open spec fn amount_spelling(v: i64) -> Seq<char> {
    if v < 0 {
        seq!['-'] + unsigned_spelling(magnitude(v))
    } else {
        unsigned_spelling(magnitude(v))
    }
}

/// `m` hundredths written out without sign: the whole part, a point and two
/// digits.
pub open spec fn unsigned_spelling(m: nat) -> Seq<char> {
    decimal_digits(m / 100) + seq!['.'] + seq![digit_char(((m % 100) / 10) as int), digit_char((m % 10) as int)]
}

fn digit_text(d: u64) -> (r: &'static str)
    requires
        d < 10,
    ensures
        r@ == seq![digit_char(d as int)],
{
    let digits = "0123456789";
    proof {
        reveal_strlit("0123456789");
    }
    let r = digits.substring_ascii(d as usize, d as usize + 1);
    proof {
        assert(r@ =~= seq![digit_char(d as int)]);
    }
    r
}

fn decimal_text(n: u64) -> (r: String)
    ensures
        r@ == decimal_digits(n as nat),
    decreases n,
{
    if n < 10 {
        String::from_str(digit_text(n))
    } else {
        decimal_text(n / 10).concat(digit_text(n % 10))
    }
}

/// Writes an amount in hundredths as decimal text with two digits after the
/// point, the form that `parse_hundredths` reads back.
pub fn amount_text(v: i64) -> (r: String)
    ensures
        r@ == amount_spelling(v),
{
    let m: u64 = if v < 0 { ((-(v + 1)) as u64) + 1 } else { v as u64 };
    let c = m % 100;
    proof {
        reveal_strlit(".");
        reveal_strlit("-");
        assert(m == magnitude(v));
    }
    let whole = decimal_text(m / 100);
    let with_point = whole.concat(".");
    let tens = digit_text(c / 10);
    let units = digit_text(c % 10);
    let text = with_point.concat(tens).concat(units);
    proof {
        assert(text@ =~= unsigned_spelling(m as nat));
    }
    if v < 0 {
        let r = String::from_str("-").concat(text.as_str());
        r
    } else {
        text
    }
}

proof fn lemma_decimal_digits(n: nat)
    ensures
        all_digits(decimal_digits(n)),
        value_of(decimal_digits(n)) == n,
        decimal_digits(n).len() >= 1,
    decreases n,
{
    let d = decimal_digits(n);
    assert(digit(digit_char((n % 10) as int)) == n % 10);
    assert(d.last() == digit_char((n % 10) as int));
    assert(value_of(d) == value_of(d.drop_last()) * 10 + digit(d.last()));
    assert(value_of(Seq::<char>::empty()) == 0);
    if n < 10 {
        assert(d.drop_last() =~= Seq::<char>::empty());
    } else {
        lemma_decimal_digits(n / 10);
        assert(d.drop_last() =~= decimal_digits(n / 10));
        assert(n == (n / 10) * 10 + n % 10);
        assert forall|i: int| 0 <= i < d.len() implies is_digit(#[trigger] d[i]) by {
            if i < d.len() - 1 {
                assert(d[i] == decimal_digits(n / 10)[i]);
            }
        }
    }
}

/// Amount text reads back as the amount it was written from.
pub proof fn lemma_amount_round_trip(v: i64)
    requires
        magnitude(v) / 100 <= MAX_WHOLE,
    ensures
        hundredths(amount_spelling(v)) == Some(v as int),
{
    let m = magnitude(v);
    let d = decimal_digits(m / 100);
    lemma_decimal_digits(m / 100);
    let f = seq![digit_char(((m % 100) / 10) as int), digit_char((m % 10) as int)];
    let u = d + seq!['.'] + f;
    assert(u == unsigned_spelling(m));
    assert(u.take(d.len() as int) =~= d);
    assert(u[d.len() as int] == '.');
    lemma_leading_digits(u, d.len() as int);
    assert(u.skip(d.len() as int) =~= seq!['.'] + f);
    assert((seq!['.'] + f).skip(1) =~= f);
    assert(all_digits(f));
    assert(unsigned_hundredths(u) == Some(m as int)) by {
        assert(hundredths_of_fraction(f) == m % 100);
    }
    if v < 0 {
        assert(amount_spelling(v) =~= seq!['-'] + u);
        assert((seq!['-'] + u).drop_first() =~= u);
    } else {
        assert(amount_spelling(v) =~= u);
        assert(is_digit(u[0]));
    }
}

} // verus!
