//! The transfer amount: a decimal number of major units, turned once into a
//! whole number of minor units by scaling and dropping what lies below the
//! minor unit's resolution.

use vstd::arithmetic::div_mod::{
    lemma_fundamental_div_mod, lemma_fundamental_div_mod_converse, lemma_mod_pos_bound,
};
use vstd::prelude::*;

verus! {

/// Decimal places that one minor unit resolves.
pub const UNIT_DECIMALS: usize = 9;

/// Minor units in one major unit: ten to the power `UNIT_DECIMALS`.
pub const UNIT_SCALE: u64 = 1_000_000_000;

/// Why a configured amount was not accepted.
#[derive(Clone, Copy, Debug, PartialEq, Eq, Structural)]
pub enum AmountError {
    /// The text is not of the form `digits`, `digits.digits`, `digits.` or `.digits`.
    Malformed,
    /// The amount in minor units does not fit in 64 bits.
    TooLarge,
}

/// Ten to the power `n`.
pub open spec fn pow10(n: nat) -> nat
    decreases n,
{
    if n == 0 {
        1
    } else {
        10 * pow10((n - 1) as nat)
    }
}

/// `c` is one of the characters `0` to `9`.
pub open spec fn is_digit(c: char) -> bool {
    48 <= c as u32 <= 57
}

/// The number that a digit character stands for.
pub open spec fn digit_of(c: char) -> nat {
    (c as u32 - 48) as nat
}

/// Every character of `s` is a digit.
pub open spec fn all_digits(s: Seq<char>) -> bool {
    forall|i: int| 0 <= i < s.len() ==> is_digit(#[trigger] s[i])
}

/// The number that a run of digits denotes in base ten; the empty run denotes zero.
pub open spec fn digits_value(s: Seq<char>) -> nat
    decreases s.len(),
{
    if s.len() == 0 {
        0
    } else {
        10 * digits_value(s.drop_last()) + digit_of(s.last())
    }
}

/// Where the first decimal point of `s` stands, or the length of `s` if it has none.
pub open spec fn point_index(s: Seq<char>) -> nat
    decreases s.len(),
{
    if s.len() == 0 || s[0] == '.' {
        0
    } else {
        1 + point_index(s.drop_first())
    }
}

/// What stands before the first decimal point.
pub open spec fn whole_digits(s: Seq<char>) -> Seq<char> {
    s.subrange(0, point_index(s) as int)
}

/// What stands after the first decimal point.
pub open spec fn fraction_digits(s: Seq<char>) -> Seq<char> {
    if point_index(s) < s.len() {
        s.subrange(point_index(s) as int + 1, s.len() as int)
    } else {
        Seq::empty()
    }
}

/// `s` is a decimal amount: digits, at most one point among them, at least one digit.
pub open spec fn is_decimal(s: Seq<char>) -> bool {
    &&& all_digits(whole_digits(s))
    &&& all_digits(fraction_digits(s))
    &&& whole_digits(s).len() + fraction_digits(s).len() > 0
}

/// The amount in minor units: the decimal number times `UNIT_SCALE`, rounded
/// down to a whole number. With `n` the number that all digits of `s` spell
/// and `f` the count of digits behind the point, the decimal number is
/// `n / 10^f`.
pub open spec fn minor_units(s: Seq<char>) -> nat {
    let all = whole_digits(s) + fraction_digits(s);
    let f = fraction_digits(s).len();
    ((digits_value(all) * pow10(9)) as int / pow10(f) as int) as nat
}

/// What a configured amount comes to: its minor units, or why it is refused.
pub open spec fn amount_of(s: Seq<char>) -> Result<u64, AmountError> {
    if !is_decimal(s) {
        Err(AmountError::Malformed)
    } else if minor_units(s) > u64::MAX {
        Err(AmountError::TooLarge)
    } else {
        Ok(minor_units(s) as u64)
    }
}

/// What the digits behind the point add to the minor units: the first nine of
/// them, read as a nine-digit number.
pub open spec fn scaled_fraction(frac: Seq<char>) -> nat {
    if frac.len() <= 9 {
        digits_value(frac) * pow10((9 - frac.len()) as nat)
    } else {
        digits_value(frac.subrange(0, 9))
    }
}

proof fn lemma_pow10_positive(n: nat)
    ensures
        pow10(n) > 0,
    decreases n,
{
    if n > 0 {
        lemma_pow10_positive((n - 1) as nat);
    }
}

proof fn lemma_pow10_sum(a: nat, b: nat)
    ensures
        pow10(a + b) == pow10(a) * pow10(b),
    decreases a,
{
    if a > 0 {
        let a1 = (a - 1) as nat;
        lemma_pow10_sum(a1, b);
        assert((a + b - 1) as nat == a1 + b);
        assert(pow10(a + b) == 10 * pow10(a1 + b));
        assert(pow10(a) == 10 * pow10(a1));
        let x = pow10(a1) as int;
        let y = pow10(b) as int;
        assert(pow10(a + b) == pow10(a) * pow10(b)) by (nonlinear_arith)
            requires
                pow10(a + b) == 10 * pow10(a1 + b),
                pow10(a1 + b) == x * y,
                pow10(a) == 10 * x,
                pow10(b) == y,
        ;
    } else {
        assert(pow10(a) == 1);
        assert(a + b == b);
        assert(pow10(a) * pow10(b) == pow10(b)) by (nonlinear_arith)
            requires
                pow10(a) == 1,
        ;
    }
}

/// One more decimal place, while there is room for one, stays within nine.
proof fn lemma_pow10_next(k: nat)
    requires
        k < 9,
    ensures
        pow10(k + 1) == 10 * pow10(k),
        pow10(k + 1) <= pow10(9),
{
    let room = (9 - (k + 1)) as nat;
    lemma_pow10_sum(k + 1, room);
    lemma_pow10_positive(room);
    assert(pow10(k + 1) <= pow10(9)) by (nonlinear_arith)
        requires
            pow10(9) == pow10(k + 1) * pow10(room),
            pow10(room) > 0,
    ;
}

proof fn lemma_pow10_nine()
    ensures
        pow10(9) == 1_000_000_000,
{
    reveal_with_fuel(pow10, 10);
}

proof fn lemma_digits_bound(s: Seq<char>)
    requires
        all_digits(s),
    ensures
        digits_value(s) < pow10(s.len()),
    decreases s.len(),
{
    if s.len() > 0 {
        let init = s.drop_last();
        assert forall|i: int| 0 <= i < init.len() implies is_digit(#[trigger] init[i]) by {
            assert(init[i] == s[i]);
        }
        lemma_digits_bound(init);
        assert(is_digit(s[s.len() - 1]));
    }
}

proof fn lemma_digits_concat(a: Seq<char>, b: Seq<char>)
    ensures
        digits_value(a + b) == digits_value(a) * pow10(b.len()) + digits_value(b),
    decreases b.len(),
{
    if b.len() == 0 {
        assert(a + b =~= a);
        assert(pow10(b.len()) == 1);
        assert(digits_value(b) == 0);
        assert(digits_value(a) * pow10(b.len()) == digits_value(a)) by (nonlinear_arith)
            requires
                pow10(b.len()) == 1,
        ;
    } else {
        let init = b.drop_last();
        assert((a + b).drop_last() =~= a + init);
        assert((a + b).last() == b.last());
        lemma_digits_concat(a, init);
        let x = digits_value(a) as int;
        let p = pow10(init.len()) as int;
        let y = digits_value(init) as int;
        assert(pow10(b.len()) == 10 * p);
        assert(digits_value(b) == 10 * y + digit_of(b.last()));
        assert(digits_value(a + b) == 10 * (x * p + y) + digit_of(b.last()));
        assert(digits_value(a + b) == x * pow10(b.len()) + digits_value(b)) by (nonlinear_arith)
            requires
                pow10(b.len()) == 10 * p,
                digits_value(b) == 10 * y + digit_of(b.last()),
                digits_value(a + b) == 10 * (x * p + y) + digit_of(b.last()),
        ;
    }
}

/// Extending a run of digits by one digit on the right.
proof fn lemma_digits_push(s: Seq<char>, k: int)
    requires
        0 <= k < s.len(),
    ensures
        digits_value(s.subrange(0, k + 1)) == 10 * digits_value(s.subrange(0, k)) + digit_of(s[k]),
{
    let t = s.subrange(0, k + 1);
    assert(t.drop_last() =~= s.subrange(0, k));
    assert(t.last() == s[k]);
}

proof fn lemma_point_bounded(s: Seq<char>)
    ensures
        point_index(s) <= s.len(),
    decreases s.len(),
{
    if s.len() > 0 && s[0] != '.' {
        lemma_point_bounded(s.drop_first());
    }
}

proof fn lemma_point_at(s: Seq<char>, p: int)
    requires
        0 <= p <= s.len(),
        forall|j: int| 0 <= j < p ==> s[j] != '.',
        p == s.len() || s[p] == '.',
    ensures
        point_index(s) == p,
    decreases p,
{
    if p > 0 {
        let rest = s.drop_first();
        assert(s[0] != '.');
        assert forall|j: int| 0 <= j < p - 1 implies rest[j] != '.' by {
            assert(rest[j] == s[j + 1]);
        }
        if p < s.len() {
            assert(rest[p - 1] == s[p]);
        }
        lemma_point_at(rest, p - 1);
    }
}

proof fn lemma_point_beyond(s: Seq<char>, k: int)
    requires
        0 <= k < s.len(),
        forall|j: int| 0 <= j <= k ==> s[j] != '.',
    ensures
        k < point_index(s) <= s.len(),
    decreases k,
{
    lemma_point_bounded(s);
    if k > 0 {
        let rest = s.drop_first();
        assert forall|j: int| 0 <= j <= k - 1 implies rest[j] != '.' by {
            assert(rest[j] == s[j + 1]);
        }
        lemma_point_beyond(rest, k - 1);
    } else {
        assert(s[0] != '.');
    }
}

/// Scaling and rounding down keeps the whole part, scaled, and the first nine
/// digits of the fraction: whatever follows them is dropped.
pub proof fn lemma_minor_units_split(whole: Seq<char>, frac: Seq<char>)
    requires
        all_digits(frac),
    ensures
        (digits_value(whole + frac) * pow10(9)) as int / pow10(frac.len()) as int
            == digits_value(whole) * pow10(9) + scaled_fraction(frac),
        scaled_fraction(frac) < pow10(9),
{
    let f = frac.len();
    let w = digits_value(whole) as int;
    let n = digits_value(whole + frac) as int;
    let scale = pow10(9) as int;
    let unit = pow10(f) as int;
    lemma_pow10_positive(f);
    lemma_pow10_positive(9);
    lemma_digits_concat(whole, frac);
    lemma_digits_bound(frac);
    if f <= 9 {
        let g = (9 - f) as nat;
        let v = digits_value(frac) as int;
        let rest = pow10(g) as int;
        lemma_pow10_sum(f, g);
        lemma_pow10_positive(g);
        assert(scale == unit * rest);
        let q = w * scale + v * rest;
        assert(n * scale == q * unit + 0) by (nonlinear_arith)
            requires
                n == w * unit + v,
                scale == unit * rest,
                q == w * scale + v * rest,
        ;
        lemma_fundamental_div_mod_converse(n * scale, unit, q, 0);
        assert(v * rest < unit * rest) by (nonlinear_arith)
            requires
                v < unit,
                rest > 0,
        ;
    } else {
        let g = (f - 9) as nat;
        let head = frac.subrange(0, 9);
        let tail = frac.subrange(9, f as int);
        assert(frac =~= head + tail);
        assert forall|i: int| 0 <= i < head.len() implies is_digit(#[trigger] head[i]) by {
            assert(head[i] == frac[i]);
        }
        assert forall|i: int| 0 <= i < tail.len() implies is_digit(#[trigger] tail[i]) by {
            assert(tail[i] == frac[i + 9]);
        }
        lemma_digits_concat(head, tail);
        lemma_digits_bound(head);
        lemma_digits_bound(tail);
        let h = digits_value(head) as int;
        let t = digits_value(tail) as int;
        let rest = pow10(g) as int;
        lemma_pow10_sum(9, g);
        lemma_pow10_positive(g);
        assert(unit == scale * rest);
        let q = w * scale + h;
        let r = t * scale;
        assert(n * scale == q * unit + r) by (nonlinear_arith)
            requires
                n == w * unit + (h * rest + t),
                unit == scale * rest,
                q == w * scale + h,
                r == t * scale,
        ;
        assert(r < unit) by (nonlinear_arith)
            requires
                r == t * scale,
                unit == scale * rest,
                0 <= t < rest,
                scale > 0,
        ;
        assert(0 <= r) by (nonlinear_arith)
            requires
                r == t * scale,
                0 <= t,
                scale > 0,
        ;
        lemma_fundamental_div_mod_converse(n * scale, unit, q, r);
    }
}

/// The conversion drops and never rounds up: scaled back to the digits that
/// were written, the minor units are at most the amount, and one minor unit
/// more would be above it.
pub proof fn lemma_amount_is_rounded_down(s: Seq<char>)
    ensures
        ({
            let exact = digits_value(whole_digits(s) + fraction_digits(s)) * pow10(9);
            let unit = pow10(fraction_digits(s).len());
            minor_units(s) * unit <= exact < (minor_units(s) + 1) * unit
        }),
{
    let exact = (digits_value(whole_digits(s) + fraction_digits(s)) * pow10(9)) as int;
    let unit = pow10(fraction_digits(s).len()) as int;
    lemma_pow10_positive(fraction_digits(s).len());
    lemma_fundamental_div_mod(exact, unit);
    lemma_mod_pos_bound(exact, unit);
    let q = exact / unit;
    let r = exact % unit;
    assert(0 <= q) by (nonlinear_arith)
        requires
            exact == unit * q + r,
            0 <= r < unit,
            0 <= exact,
    ;
    assert(q * unit <= exact < (q + 1) * unit) by (nonlinear_arith)
        requires
            exact == unit * q + r,
            0 <= r < unit,
    ;
}

/// The digit that `c` stands for, if it is a digit.
fn digit(c: char) -> (d: Option<u8>)
    ensures
        d is Some <==> is_digit(c),
        d matches Some(v) ==> v == digit_of(c) && v <= 9,
{
    let code: u32 = c as u32;
    if 48 <= code && code <= 57 {
        Some((code - 48) as u8)
    } else {
        None
    }
}

/// Reads a decimal amount of major units and gives it in minor units,
/// rounded down: digits behind the ninth decimal place are dropped.
///
/// The text is accepted when it consists of digits with at most one decimal
/// point and holds at least one digit. An accepted amount that needs more
/// than 64 bits in minor units is reported as too large.
pub fn parse_amount(text: &str) -> (result: Result<u64, AmountError>)
    ensures
        result == amount_of(text@),
{
    let n: usize = text.unicode_len();
    let ghost s = text@;
    let mut i: usize = 0;
    let mut at_point: bool = false;
    let mut whole: u128 = 0;
    while i < n && !at_point
        invariant
            s == text@,
            n == s.len(),
            i <= n,
            at_point ==> i < n && s[i as int] == '.',
            forall|j: int| 0 <= j < i ==> is_digit(#[trigger] s[j]),
            whole <= u64::MAX ==> whole == digits_value(s.subrange(0, i as int)),
            whole > u64::MAX ==> digits_value(s.subrange(0, i as int)) > u64::MAX,
            whole <= 10 * u64::MAX + 9,
        decreases n - i + (if at_point { 0int } else { 1int }),
    {
        let c: char = text.get_char(i);
        if c == '.' {
            at_point = true;
        } else {
            match digit(c) {
                None => {
                    proof {
                        assert forall|j: int| 0 <= j < i + 1 implies s[j] != '.' by {
                            if j < i {
                                assert(is_digit(s[j]));
                            }
                        }
                        lemma_point_beyond(s, i as int);
                        assert(whole_digits(s)[i as int] == s[i as int]);
                    }
                    return Err(AmountError::Malformed);
                },
                Some(d) => {
                    proof {
                        lemma_digits_push(s, i as int);
                    }
                    if whole <= u64::MAX as u128 {
                        whole = whole * 10 + d as u128;
                    }
                    i = i + 1;
                },
            }
        }
    }
    let point: usize = i;
    proof {
        assert forall|j: int| 0 <= j < point implies s[j] != '.' by {
            assert(is_digit(s[j]));
        }
        lemma_point_at(s, point as int);
    }
    let start: usize = if at_point { point + 1 } else { n };
    let ghost ws = whole_digits(s);
    let ghost fs = fraction_digits(s);
    assert(ws =~= s.subrange(0, point as int));
    assert(fs =~= s.subrange(start as int, n as int));
    assert(fs.len() == n - start);
    let mut j: usize = start;
    let mut frac: u64 = 0;
    let mut taken: usize = 0;
    proof {
        lemma_pow10_nine();
        lemma_pow10_positive(0);
    }
    while j < n
        invariant
            s == text@,
            n == s.len(),
            start <= j <= n,
            fs == s.subrange(start as int, n as int),
            fs == fraction_digits(s),
            forall|k: int| 0 <= k < j - start ==> is_digit(#[trigger] fs[k]),
            taken <= 9,
            taken <= j - start,
            taken < 9 ==> taken == j - start,
            frac == digits_value(fs.subrange(0, taken as int)),
            frac < pow10(taken as nat),
            pow10(taken as nat) <= pow10(9),
            pow10(9) == 1_000_000_000,
        decreases n - j,
    {
        let c: char = text.get_char(j);
        match digit(c) {
            None => {
                assert(fs[j - start] == s[j as int]);
                return Err(AmountError::Malformed);
            },
            Some(d) => {
                assert(fs[j - start] == s[j as int]);
                if taken < 9 {
                    proof {
                        lemma_digits_push(fs, taken as int);
                        lemma_pow10_next(taken as nat);
                    }
                    frac = frac * 10 + d as u64;
                    taken = taken + 1;
                }
                j = j + 1;
            },
        }
    }
    assert(all_digits(fs));
    assert(all_digits(ws)) by {
        assert forall|k: int| 0 <= k < ws.len() implies is_digit(#[trigger] ws[k]) by {
            assert(ws[k] == s[k]);
        }
    }
    if point == 0 && start == n {
        return Err(AmountError::Malformed);
    }
    assert(is_decimal(s));
    let ghost head = fs.subrange(0, taken as int);
    let mut k: usize = taken;
    assert(pow10(0) == 1);
    assert(frac == digits_value(head) * pow10(0)) by (nonlinear_arith)
        requires
            frac == digits_value(head),
            pow10(0) == 1,
    ;
    while k < 9
        invariant
            taken <= k <= 9,
            frac == digits_value(head) * pow10((k - taken) as nat),
            frac < pow10(k as nat),
            pow10(k as nat) <= pow10(9),
            pow10(9) == 1_000_000_000,
        decreases 9 - k,
    {
        proof {
            lemma_pow10_next(k as nat);
            assert(pow10((k + 1 - taken) as nat) == 10 * pow10((k - taken) as nat));
            let a = digits_value(head) as int;
            let b = pow10((k - taken) as nat) as int;
            assert((a * b) * 10 == a * (10 * b)) by (nonlinear_arith);
        }
        frac = frac * 10;
        k = k + 1;
    }
    proof {
        lemma_minor_units_split(ws, fs);
        if fs.len() <= 9 {
            assert(taken == fs.len());
            assert(head =~= fs);
        } else {
            assert(taken == 9);
            assert(frac == digits_value(head)) by (nonlinear_arith)
                requires
                    frac == digits_value(head) * pow10(0),
                    pow10(0) == 1,
            ;
        }
        assert(frac == scaled_fraction(fs));
        assert(minor_units(s) == digits_value(ws) * pow10(9) + frac);
    }
    if whole > u64::MAX as u128 {
        assert(digits_value(ws) * pow10(9) >= digits_value(ws)) by (nonlinear_arith)
            requires
                pow10(9) >= 1,
        ;
        return Err(AmountError::TooLarge);
    }
    let total: u128 = whole * (UNIT_SCALE as u128) + frac as u128;
    if total > u64::MAX as u128 {
        Err(AmountError::TooLarge)
    } else {
        Ok(total as u64)
    }
}

} // verus!
