//! Amounts of working time, exact to the second, and how they are written and read.
use crate::text::{padded, pow10, push_padded};
use vstd::arithmetic::div_mod::{lemma_div_multiples_vanish_fancy, lemma_hoist_over_denominator};
use vstd::prelude::*;

verus! {

/// The largest whole number of hours that a written amount may hold.
pub const WHOLE_HOURS_LIMIT: i64 = 1_000_000_000_000;

/// An amount of working time in whole seconds; it may be negative.
#[derive(Clone, Copy, Debug, PartialEq, Eq, Structural, Hash, Default, PartialOrd, Ord)]
pub struct Hours {
    pub seconds: i128,
}

impl View for Hours {
    type V = int;

    open spec fn view(&self) -> int {
        self.seconds as int
    }
}

/// "HH:MM" for an amount of `s` seconds: the whole hours rounded down, then the whole minutes
/// that remain.
pub open spec fn hours_text(s: int) -> Seq<char> {
    padded(s / 3600, 2) + ":"@ + padded((s - (s / 3600) * 3600) / 60, 2)
}

/// The total of a sequence of amounts, in seconds.
pub open spec fn total_seconds(items: Seq<Hours>) -> int
    decreases items.len(),
{
    if items.len() == 0 {
        0
    } else {
        total_seconds(items.drop_last()) + items.last()@
    }
}

pub open spec fn is_digit(c: char) -> bool {
    '0' <= c && c <= '9'
}

pub open spec fn digit_value(c: char) -> int {
    (c as u32) as int - 48
}

pub open spec fn all_digits(s: Seq<char>) -> bool {
    forall|i: int| 0 <= i < s.len() ==> is_digit(#[trigger] s[i])
}

/// The number that a sequence of decimal digits spells.
pub open spec fn digits_value(s: Seq<char>) -> int
    decreases s.len(),
{
    if s.len() == 0 {
        0
    } else {
        digit_value(s[0]) * pow10((s.len() - 1) as nat) + digits_value(s.drop_first())
    }
}

/// How many decimal digits `s` starts with.
pub open spec fn leading_digits(s: Seq<char>) -> nat
    decreases s.len(),
{
    if s.len() > 0 && is_digit(s[0]) {
        1 + leading_digits(s.drop_first())
    } else {
        0
    }
}

/// The length of a leading '+' or '-'.
pub open spec fn sign_len(s: Seq<char>) -> int {
    if s.len() > 0 && (s[0] == '-' || s[0] == '+') {
        1
    } else {
        0
    }
}

pub open spec fn unsigned_part(s: Seq<char>) -> Seq<char> {
    s.skip(sign_len(s))
}

/// The digits before the decimal point.
pub open spec fn whole_part(s: Seq<char>) -> Seq<char> {
    unsigned_part(s).take(leading_digits(unsigned_part(s)) as int)
}

pub open spec fn after_whole(s: Seq<char>) -> Seq<char> {
    unsigned_part(s).skip(leading_digits(unsigned_part(s)) as int)
}

/// The digits after the decimal point.
pub open spec fn fraction_part(s: Seq<char>) -> Seq<char> {
    if after_whole(s).len() > 0 {
        after_whole(s).skip(1)
    } else {
        after_whole(s)
    }
}

/// A number in plain decimal notation: an optional sign, digits, and optionally a point followed
/// by digits, with at least one digit in all.
pub open spec fn is_decimal(s: Seq<char>) -> bool {
    &&& after_whole(s).len() == 0 || (after_whole(s)[0] == '.' && all_digits(
        after_whole(s).skip(1),
    ))
    &&& whole_part(s).len() + fraction_part(s).len() > 0
}

/// The seconds in an amount of hours written in decimal, rounded down: `None` where the text is
/// no decimal number or its whole hours exceed `WHOLE_HOURS_LIMIT`.
pub open spec fn decimal_seconds(s: Seq<char>) -> Option<int> {
    if is_decimal(s) && digits_value(whole_part(s)) <= WHOLE_HOURS_LIMIT {
        let k = fraction_part(s).len();
        let sign = if s.len() > 0 && s[0] == '-' { -1int } else { 1int };
        Some(
            (sign * 3600 * (digits_value(whole_part(s)) * pow10(k) + digits_value(
                fraction_part(s),
            ))) / pow10(k),
        )
    } else {
        None
    }
}

/// The bound on the seconds of one record's hours.
pub open spec fn record_seconds_limit() -> int {
    0x40_0000_0000_0000
}

proof fn lemma_pow10_positive(k: nat)
    ensures
        pow10(k) >= 1,
    decreases k,
{
    if k > 0 {
        lemma_pow10_positive((k - 1) as nat);
    }
}

proof fn lemma_digits_push(s: Seq<char>, c: char)
    ensures
        digits_value(s.push(c)) == digits_value(s) * 10 + digit_value(c),
    decreases s.len(),
{
    if s.len() == 0 {
        assert(s.push(c).drop_first() =~= s);
        assert(pow10(0) == 1);
        assert(s.push(c)[0] == c);
        assert(digits_value(s.push(c).drop_first()) == 0);
        assert(digit_value(c) * pow10(0) == digit_value(c));
        assert(digits_value(s.push(c)) == digit_value(c));
        assert(digits_value(s) == 0);
    } else {
        assert(s.push(c).drop_first() =~= s.drop_first().push(c));
        assert(s.push(c)[0] == s[0]);
        lemma_digits_push(s.drop_first(), c);
        let p = pow10((s.len() - 1) as nat);
        assert(pow10(s.len() as nat) == 10 * p);
        let d = digit_value(s[0]);
        let v = digits_value(s.drop_first());
        assert(d * (10 * p) + (v * 10 + digit_value(c)) == (d * p + v) * 10 + digit_value(c))
            by (nonlinear_arith);
        assert(digits_value(s.push(c)) == d * pow10(s.len() as nat) + digits_value(
            s.push(c).drop_first(),
        ));
        assert(digits_value(s) == d * p + v);
        assert(digits_value(s.push(c)) == d * (10 * p) + (v * 10 + digit_value(c)));
    }
}

proof fn lemma_digits_nonneg(s: Seq<char>)
    requires
        all_digits(s),
    ensures
        digits_value(s) >= 0,
    decreases s.len(),
{
    if s.len() > 0 {
        assert(all_digits(s.drop_first())) by {
            assert forall|i: int| 0 <= i < s.drop_first().len() implies is_digit(
                #[trigger] s.drop_first()[i],
            ) by {
                assert(s.drop_first()[i] == s[i + 1]);
            }
        }
        lemma_digits_nonneg(s.drop_first());
        lemma_pow10_positive((s.len() - 1) as nat);
        assert(is_digit(s[0]));
        let d = digit_value(s[0]);
        let p = pow10((s.len() - 1) as nat);
        assert(d * p >= 0) by (nonlinear_arith)
            requires
                d >= 0,
                p >= 1,
        ;
    }
}

proof fn lemma_leading_digits(u: Seq<char>, j: int)
    requires
        0 <= j <= u.len(),
        forall|i: int| 0 <= i < j ==> is_digit(#[trigger] u[i]),
        j == u.len() || !is_digit(u[j]),
    ensures
        leading_digits(u) == j,
    decreases j,
{
    if j > 0 {
        let v = u.drop_first();
        assert forall|i: int| 0 <= i < j - 1 implies is_digit(#[trigger] v[i]) by {
            assert(v[i] == u[i + 1]);
        }
        if j - 1 < v.len() {
            assert(v[j - 1] == u[j]);
        }
        lemma_leading_digits(v, j - 1);
    }
}

/// Rounding down `(a * q + p) / (10 * q)` is rounding down `p / q` first.
proof fn lemma_floor_in_steps(a: int, p: int, q: int)
    requires
        q > 0,
    ensures
        (a * q + p) / (10 * q) == (a + p / q) / 10,
{
    let f = p / q;
    let r = p % q;
    vstd::arithmetic::div_mod::lemma_fundamental_div_mod(p, q);
    assert(0 <= r < q);
    let g = (a + f) / 10;
    let t = (a + f) % 10;
    vstd::arithmetic::div_mod::lemma_fundamental_div_mod(a + f, 10);
    assert(0 <= t < 10);
    assert(a * q + p == (10 * q) * g + (q * t + r)) by (nonlinear_arith)
        requires
            p == q * f + r,
            a + f == 10 * g + t,
    ;
    assert(0 <= q * t + r < 10 * q) by (nonlinear_arith)
        requires
            0 <= t < 10,
            0 <= r < q,
    ;
    lemma_div_multiples_vanish_fancy(g, q * t + r, 10 * q);
}

/// Floor division by ten of a number that is not positive.
proof fn lemma_floor_of_negative(t: int)
    requires
        t >= 0,
    ensures
        (-t) / 10 == -((t + 9) / 10),
{
    let m = (t + 9) / 10;
    let u = (t + 9) % 10;
    vstd::arithmetic::div_mod::lemma_fundamental_div_mod(t + 9, 10);
    assert(-t == 10 * (-m) + (9 - u));
    lemma_div_multiples_vanish_fancy(-m, 9 - u, 10);
}

fn is_digit_char(c: char) -> (r: bool)
    ensures
        r == is_digit(c),
{
    '0' <= c && c <= '9'
}

fn digit_of(c: char) -> (r: i64)
    requires
        is_digit(c),
    ensures
        r == digit_value(c),
        0 <= r <= 9,
{
    (c as u32 - 48) as i64
}

impl Hours {
    pub fn zero() -> (r: Hours)
        ensures
            r@ == 0,
    {
        Hours { seconds: 0 }
    }

    pub fn from_seconds(seconds: i128) -> (r: Hours)
        ensures
            r@ == seconds,
    {
        Hours { seconds }
    }

    pub fn add(self, rhs: Hours) -> (r: Hours)
        requires
            i128::MIN <= self@ + rhs@ <= i128::MAX,
        ensures
            r@ == self@ + rhs@,
    {
        Hours { seconds: self.seconds + rhs.seconds }
    }

    pub fn sub(self, rhs: Hours) -> (r: Hours)
        requires
            i128::MIN <= self@ - rhs@ <= i128::MAX,
        ensures
            r@ == self@ - rhs@,
    {
        Hours { seconds: self.seconds - rhs.seconds }
    }

    /// The total of `items`, adding from the first; every running total must fit in an `i128`.
    pub fn sum(items: &Vec<Hours>) -> (r: Hours)
        requires
            forall|k: int|
                0 <= k <= items@.len() ==> i128::MIN <= #[trigger] total_seconds(items@.take(k))
                    <= i128::MAX,
        ensures
            r@ == total_seconds(items@),
    {
        let mut acc = Hours::zero();
        let mut i: usize = 0;
        while i < items.len()
            invariant
                i <= items@.len(),
                acc@ == total_seconds(items@.take(i as int)),
                forall|k: int|
                    0 <= k <= items@.len() ==> i128::MIN <= #[trigger] total_seconds(
                        items@.take(k),
                    ) <= i128::MAX,
            decreases items@.len() - i,
        {
            assert(items@.take(i + 1).drop_last() =~= items@.take(i as int));
            assert(total_seconds(items@.take(i + 1)) == acc@ + items@[i as int]@);
            acc = acc.add(items[i]);
            i = i + 1;
        }
        assert(items@.take(i as int) =~= items@);
        acc
    }

    /// Reads an amount of hours written in decimal ("1.5", "-0.25", "8"), rounded down to the
    /// second. Exponents and words such as "inf" are not read.
    pub fn parse(text: &str) -> (r: Option<Hours>)
        ensures
            r matches Some(h) ==> decimal_seconds(text@) == Some(h@),
            r is None ==> decimal_seconds(text@) is None,
            r matches Some(h) ==> -record_seconds_limit() <= h@ <= record_seconds_limit(),
    {
        let ghost s = text@;
        let n = text.unicode_len();
        let mut i: usize = 0;
        let mut negative = false;
        if n > 0 {
            let c = text.get_char(0);
            if c == '-' || c == '+' {
                negative = c == '-';
                i = 1;
            }
        }
        let sign_end = i;
        let ghost u = s.skip(sign_end as int);
        assert(sign_end == sign_len(s));
        assert(u == unsigned_part(s));
        let mut whole: i64 = 0;
        let mut too_big = false;
        while i < n && is_digit_char(text.get_char(i))
            invariant
                sign_end <= i <= n,
                n == s.len(),
                s == text@,
                forall|k: int| sign_end <= k < i ==> is_digit(#[trigger] s[k]),
                !too_big ==> whole == digits_value(s.subrange(sign_end as int, i as int)),
                !too_big ==> 0 <= whole <= WHOLE_HOURS_LIMIT,
                too_big ==> digits_value(s.subrange(sign_end as int, i as int))
                    > WHOLE_HOURS_LIMIT,
            decreases n - i,
        {
            let c = text.get_char(i);
            let d = digit_of(c);
            let ghost before = s.subrange(sign_end as int, i as int);
            assert(s.subrange(sign_end as int, i + 1) =~= before.push(c));
            proof {
                lemma_digits_push(before, c);
                assert(all_digits(before)) by {
                    assert forall|k: int| 0 <= k < before.len() implies is_digit(
                        #[trigger] before[k],
                    ) by {
                        assert(before[k] == s[sign_end + k]);
                    }
                }
                lemma_digits_nonneg(before);
            }
            if !too_big {
                let next = whole * 10 + d;
                if next > WHOLE_HOURS_LIMIT {
                    too_big = true;
                } else {
                    whole = next;
                }
            }
            i = i + 1;
        }
        let whole_end = i;
        proof {
            assert forall|k: int| 0 <= k < whole_end - sign_end implies is_digit(
                #[trigger] u[k],
            ) by {
                assert(u[k] == s[sign_end + k]);
            }
            if whole_end < n {
                assert(u[whole_end - sign_end] == s[whole_end as int]);
            }
            lemma_leading_digits(u, whole_end - sign_end);
            assert(whole_part(s) =~= s.subrange(sign_end as int, whole_end as int));
            assert(after_whole(s) =~= s.subrange(whole_end as int, n as int));
        }
        let mut frac_start = i;
        if i < n {
            if text.get_char(i) != '.' {
                return None;
            }
            i = i + 1;
            frac_start = i;
            while i < n
                invariant
                    frac_start <= i <= n,
                    frac_start == whole_end + 1,
                    n == s.len(),
                    s == text@,
                    after_whole(s) == s.subrange(whole_end as int, n as int),
                    whole_end < n,
                    forall|k: int| frac_start <= k < i ==> is_digit(#[trigger] s[k]),
                decreases n - i,
            {
                if !is_digit_char(text.get_char(i)) {
                    assert(after_whole(s).skip(1)[i - frac_start] == s[i as int]);
                    assert(!is_digit(after_whole(s).skip(1)[i - frac_start]));
                    return None;
                }
                i = i + 1;
            }
        }
        let ghost frac = s.subrange(frac_start as int, n as int);
        assert(fraction_part(s) =~= frac);
        assert(all_digits(frac)) by {
            assert forall|k: int| 0 <= k < frac.len() implies is_digit(#[trigger] frac[k]) by {
                assert(frac[k] == s[frac_start + k]);
            }
        }
        if frac_start < n {
            assert(after_whole(s).skip(1) =~= frac);
        }
        if whole_end == sign_end && frac_start == n {
            return None;
        }
        if too_big {
            return None;
        }
        // The fraction's seconds, rounded down, built from the last digit toward the point.
        let ghost sign: int = if negative { -1int } else { 1int };
        let mut carry: i64 = 0;
        let mut j: usize = n;
        while j > frac_start
            invariant
                frac_start <= j <= n,
                n == s.len(),
                s == text@,
                all_digits(frac),
                frac == s.subrange(frac_start as int, n as int),
                sign == (if negative { -1int } else { 1int }),
                -3600 <= carry <= 3600,
                0 <= whole <= WHOLE_HOURS_LIMIT,
                whole == digits_value(whole_part(s)),
                negative ==> carry <= 0,
                !negative ==> carry >= 0,
                carry == (sign * 3600 * digits_value(s.subrange(j as int, n as int))) / pow10(
                    (n - j) as nat,
                ),
            decreases j,
        {
            let ghost rest = s.subrange(j as int, n as int);
            let ghost old_carry = carry as int;
            j = j - 1;
            let c = text.get_char(j);
            assert(is_digit(c)) by {
                assert(frac[j - frac_start] == c);
            }
            let d = digit_of(c);
            let ghost ds = s.subrange(j as int, n as int);
            proof {
                assert(ds.drop_first() =~= rest);
                assert(ds[0] == c);
                let q = pow10(rest.len());
                lemma_pow10_positive(rest.len());
                assert(pow10(ds.len()) == 10 * q);
                assert(digits_value(ds) == d * q + digits_value(rest));
                assert(sign * 3600 * digits_value(ds) == (sign * 3600 * d) * q + sign * 3600
                    * digits_value(rest)) by (nonlinear_arith)
                    requires
                        digits_value(ds) == d * q + digits_value(rest),
                ;
                lemma_floor_in_steps(sign * 3600 * d, sign * 3600 * digits_value(rest), q);
                assert((sign * 3600 * digits_value(ds)) / pow10(ds.len()) == (sign * 3600 * d
                    + old_carry) / 10);
            }
            if negative {
                let t = 3600 * d - carry;
                proof {
                    lemma_floor_of_negative(t as int);
                    assert(sign * 3600 * d + old_carry == -t) by (nonlinear_arith)
                        requires
                            sign == -1,
                            t == 3600 * d - old_carry,
                    ;
                }
                carry = -((t + 9) / 10);
            } else {
                carry = (3600 * d + carry) / 10;
            }
            assert(carry == (sign * 3600 * digits_value(ds)) / pow10(ds.len()));
        }
        let ghost k = frac.len();
        let ghost w = digits_value(whole_part(s));
        proof {
            assert(s.subrange(frac_start as int, n as int) == frac);
            lemma_pow10_positive(k);
            assert(sign * 3600 * (w * pow10(k) + digits_value(frac)) == sign * 3600 * digits_value(
                frac,
            ) + (sign * 3600 * w) * pow10(k)) by (nonlinear_arith);
            lemma_hoist_over_denominator(
                sign * 3600 * digits_value(frac),
                sign * 3600 * w,
                pow10(k) as nat,
            );
        }
        let seconds: i64 = if negative {
            -3600 * whole + carry
        } else {
            3600 * whole + carry
        };
        Some(Hours { seconds: seconds as i128 })
    }

    /// Renders the amount as "HH:MM": whole hours rounded down, then whole minutes.
    pub fn to_string(&self) -> (r: String)
        ensures
            r@ == hours_text(self@),
    {
        let s = self.seconds;
        let h: i128;
        let rem: i128;
        if s >= 0 {
            h = s / 3600;
            rem = s % 3600;
        } else {
            let m: u128 = ((-(s + 1)) as u128) + 1;
            let q: u128 = m / 3600;
            let r0: u128 = m % 3600;
            proof {
                vstd::arithmetic::div_mod::lemma_fundamental_div_mod(m as int, 3600);
            }
            if r0 == 0 {
                h = -(q as i128);
                rem = 0;
                proof {
                    lemma_div_multiples_vanish_fancy(-(q as int), 0, 3600);
                }
            } else {
                h = -(q as i128) - 1;
                rem = 3600 - r0 as i128;
                assert(s == 3600 * h + rem);
                proof {
                    lemma_div_multiples_vanish_fancy(h as int, rem as int, 3600);
                }
            }
        }
        assert(h == s / 3600);
        assert(rem == s - h * 3600);
        let mut out = String::new();
        push_padded(&mut out, h, 2);
        out.append(":");
        push_padded(&mut out, rem / 60, 2);
        assert(out@ =~= hours_text(self@));
        out
    }
}

/// Adding up no amounts gives zero.
pub proof fn lemma_total_of_nothing()
    ensures
        total_seconds(Seq::<Hours>::empty()) == 0,
{
}

} // verus!
