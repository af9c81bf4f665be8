use crate::error::JsonErr;
use vstd::prelude::*;
use vstd::string::StringExecFns;

verus! {

/// Bound on the magnitude of a decimal's integer part: 2^96.
pub const MANTISSA_BOUND: i128 = 79228162514264337593543950336;

/// The largest number of digits after the decimal point.
pub const MAX_SCALE: u32 = 28;

/// An exact fixed-point decimal: `mantissa / 10^scale`.
#[derive(Clone, Copy, Debug, PartialEq, Eq, Structural)]
pub struct Amount {
    pub mantissa: i128,
    pub scale: u32,
}

pub open spec fn pow10(n: nat) -> int
    decreases n,
{
    if n == 0 {
        1
    } else {
        10 * pow10((n - 1) as nat)
    }
}

pub open spec fn below_bound(v: int) -> bool {
    -MANTISSA_BOUND < v < MANTISSA_BOUND
}

impl Amount {
    /// Representable: a 96-bit mantissa and at most 28 digits after the point.
    pub open spec fn wf(self) -> bool {
        below_bound(self.mantissa as int) && self.scale <= MAX_SCALE
    }
}

/// The value of `a` counted in units of `10^-s` (for `a.scale <= s`).
pub open spec fn value_at(a: Amount, s: nat) -> int {
    a.mantissa * pow10((s - a.scale) as nat)
}

pub open spec fn max_nat(a: nat, b: nat) -> nat {
    if a >= b {
        a
    } else {
        b
    }
}

/// Both operands and their sum, written at the finer of the two scales,
/// stay within 96 bits.
pub open spec fn sum_fits(a: Amount, b: Amount) -> bool {
    let s = max_nat(a.scale as nat, b.scale as nat);
    below_bound(value_at(a, s)) && below_bound(value_at(b, s)) && below_bound(
        value_at(a, s) + value_at(b, s),
    )
}

/// `c` is exactly `a + b`, written at a scale no finer than theirs.
pub open spec fn exact_sum(a: Amount, b: Amount, c: Amount) -> bool {
    let s = max_nat(a.scale as nat, b.scale as nat);
    c.scale <= s && value_at(c, s) == value_at(a, s) + value_at(b, s)
}

/// The decimal sum of `a` and `b` as rust_decimal writes it when nothing
/// overflows: a zero operand yields the other one unchanged; otherwise the
/// sum is written at the finer of the two scales.
pub open spec fn exact_add(a: Amount, b: Amount) -> Amount {
    let s = max_nat(a.scale as nat, b.scale as nat);
    if a.mantissa == 0 {
        b
    } else if b.mantissa == 0 {
        a
    } else {
        Amount { mantissa: (value_at(a, s) + value_at(b, s)) as i128, scale: s as u32 }
    }
}

/// Within bounds, `exact_add` is the exact sum.
pub proof fn lemma_exact_add_value(a: Amount, b: Amount)
    requires
        a.wf(),
        b.wf(),
        sum_fits(a, b),
    ensures
        exact_sum(a, b, exact_add(a, b)),
{
    let s = max_nat(a.scale as nat, b.scale as nat);
    if a.mantissa == 0 {
        assert(value_at(a, s) == 0);
    } else if b.mantissa == 0 {
        assert(value_at(b, s) == 0);
    } else {
        let c = exact_add(a, b);
        assert(c.scale == s);
        assert(pow10(0) == 1);
        assert(value_at(c, s) == c.mantissa * pow10(0));
    }
}

/// What rust_decimal's `Decimal::from_str` reads from the text, as mantissa and scale.
pub uninterp spec fn decimal_of(s: Seq<char>) -> Option<(i128, u32)>;

/// Relies on rust_decimal's `Decimal::from_str`: a decimal holds a 96-bit
/// mantissa and a scale of at most 28.
#[verifier::external_body]
fn decimal_from_str(s: &str) -> (r: Option<Amount>)
    ensures
        r matches Some(a) ==> a.wf() && decimal_of(s@) == Some((a.mantissa, a.scale)),
        r is None ==> decimal_of(s@) is None,
{
    match <rust_decimal::Decimal as std::str::FromStr>::from_str(s) {
        Ok(d) => Some(Amount { mantissa: d.mantissa(), scale: d.scale() }),
        Err(_) => None,
    }
}

/// Relies on rust_decimal's `Decimal::checked_add`: when the operands and
/// their sum fit in 96 bits at the finer scale, no rounding path is taken;
/// a zero operand returns the other one, and otherwise the exact sum is
/// written at the finer scale.
#[verifier::external_body]
fn decimal_checked_add(a: Amount, b: Amount) -> (r: Option<Amount>)
    requires
        a.wf(),
        b.wf(),
    ensures
        r matches Some(c) ==> c.wf(),
        sum_fits(a, b) ==> r == Some(exact_add(a, b)),
{
    let x = rust_decimal::Decimal::from_i128_with_scale(a.mantissa, a.scale);
    let y = rust_decimal::Decimal::from_i128_with_scale(b.mantissa, b.scale);
    match x.checked_add(y) {
        Some(d) => Some(Amount { mantissa: d.mantissa(), scale: d.scale() }),
        None => None,
    }
}

/// The decimal written in `s`, if it is one.
pub open spec fn parsed_amount(s: Seq<char>) -> Option<Amount> {
    match decimal_of(s) {
        Some((m, k)) => Some(Amount { mantissa: m, scale: k }),
        None => None,
    }
}

/// Reads a decimal amount such as `12.50`.
pub fn parse_amount(s: &str) -> (r: Option<Amount>)
    ensures
        r == parsed_amount(s@),
        r matches Some(a) ==> a.wf(),
{
    decimal_from_str(s)
}

/// The finest scale among the amounts, and never coarser than cents.
pub open spec fn scale_of_all(amts: Seq<Amount>) -> nat
    decreases amts.len(),
{
    if amts.len() == 0 {
        2
    } else {
        max_nat(scale_of_all(amts.drop_last()), amts.last().scale as nat)
    }
}

/// The exact sum of the amounts, counted in units of `10^-s`.
pub open spec fn exact_total(amts: Seq<Amount>, s: nat) -> int
    decreases amts.len(),
{
    if amts.len() == 0 {
        0
    } else {
        exact_total(amts.drop_last(), s) + value_at(amts.last(), s)
    }
}

/// Adding the amount at `k` to the sum of those before it stays within 96
/// bits at the scale reached so far.
pub open spec fn step_fits(amts: Seq<Amount>, k: int) -> bool {
    let s = scale_of_all(amts.take(k + 1));
    below_bound(exact_total(amts.take(k), s)) && below_bound(value_at(amts[k], s)) && below_bound(
        exact_total(amts.take(k + 1), s),
    )
}

pub open spec fn total_fits(amts: Seq<Amount>) -> bool {
    forall|k: int| 0 <= k < amts.len() ==> #[trigger] step_fits(amts, k)
}

pub proof fn lemma_pow10_pos(n: nat)
    ensures
        pow10(n) >= 1,
    decreases n,
{
    if n > 0 {
        lemma_pow10_pos((n - 1) as nat);
    }
}

pub proof fn lemma_pow10_add(a: nat, b: nat)
    ensures
        pow10(a + b) == pow10(a) * pow10(b),
    decreases b,
{
    if b > 0 {
        lemma_pow10_add(a, (b - 1) as nat);
        assert(pow10(a + b) == 10 * pow10((a + b - 1) as nat));
        assert(pow10(a) * pow10(b) == pow10(a) * (10 * pow10((b - 1) as nat)));
        assert(pow10(a) * (10 * pow10((b - 1) as nat)) == 10 * (pow10(a) * pow10((b - 1) as nat)))
            by (nonlinear_arith);
    }
}

/// Writing an amount at a finer scale multiplies its count by the power of ten between.
pub proof fn lemma_value_lift(x: Amount, s1: nat, s2: nat)
    requires
        x.scale <= s1 <= s2,
    ensures
        value_at(x, s2) == value_at(x, s1) * pow10((s2 - s1) as nat),
{
    lemma_pow10_add((s1 - x.scale) as nat, (s2 - s1) as nat);
    assert(((s1 - x.scale) as nat + (s2 - s1) as nat) as nat == (s2 - x.scale) as nat);
    let m = x.mantissa as int;
    let p = pow10((s1 - x.scale) as nat);
    let q = pow10((s2 - s1) as nat);
    assert(m * (p * q) == (m * p) * q) by (nonlinear_arith);
}

pub proof fn lemma_scale_of_all_bounds(amts: Seq<Amount>, i: int)
    requires
        0 <= i < amts.len(),
    ensures
        amts[i].scale <= scale_of_all(amts),
        2 <= scale_of_all(amts),
    decreases amts.len(),
{
    if i < amts.len() - 1 {
        lemma_scale_of_all_bounds(amts.drop_last(), i);
    }
    if amts.len() > 1 {
        lemma_scale_of_all_bounds(amts.drop_last(), 0);
    } else {
        assert(amts.drop_last().len() == 0);
    }
}

pub proof fn lemma_total_lift(amts: Seq<Amount>, s1: nat, s2: nat)
    requires
        forall|i: int| 0 <= i < amts.len() ==> amts[i].scale <= s1,
        s1 <= s2,
    ensures
        exact_total(amts, s2) == exact_total(amts, s1) * pow10((s2 - s1) as nat),
    decreases amts.len(),
{
    if amts.len() > 0 {
        lemma_total_lift(amts.drop_last(), s1, s2);
        lemma_value_lift(amts.last(), s1, s2);
        let a = exact_total(amts.drop_last(), s1);
        let b = value_at(amts.last(), s1);
        let q = pow10((s2 - s1) as nat);
        assert((a + b) * q == a * q + b * q) by (nonlinear_arith);
    }
}

/// A value below the bound at a finer scale is below it at a coarser one.
proof fn lemma_bound_descends(v: int, q: int)
    requires
        q >= 1,
        below_bound(v * q),
    ensures
        below_bound(v),
{
    if v >= MANTISSA_BOUND {
        assert(v * q >= v) by (nonlinear_arith)
            requires
                v >= MANTISSA_BOUND,
                q >= 1,
        ;
    }
    if v <= -MANTISSA_BOUND {
        assert(v * q <= v) by (nonlinear_arith)
            requires
                v <= -MANTISSA_BOUND,
                q >= 1,
        ;
    }
}

/// `m * 10^k`, if its magnitude stays below 2^96.
fn scale_up(m: i128, k: u32) -> (r: Option<i128>)
    requires
        below_bound(m as int),
    ensures
        r matches Some(v) ==> v == m * pow10(k as nat) && below_bound(v as int),
        r is None ==> !below_bound(m * pow10(k as nat)),
{
    let mut cur: i128 = m;
    let mut i: u32 = 0;
    while i < k
        invariant
            i <= k,
            cur == m * pow10(i as nat),
            below_bound(cur as int),
        decreases k - i,
    {
        if cur >= MANTISSA_BOUND / 10 + 1 || cur <= -(MANTISSA_BOUND / 10 + 1) {
            proof {
                lemma_pow10_pos((k - i - 1) as nat);
                lemma_pow10_add((i + 1) as nat, (k - i - 1) as nat);
                assert((i + 1) as nat + (k - i - 1) as nat == k as nat);
                assert(pow10((i + 1) as nat) == 10 * pow10(i as nat));
                let q = pow10((k - i - 1) as nat);
                assert(m * pow10(k as nat) == (cur * 10) * q) by (nonlinear_arith)
                    requires
                        pow10(k as nat) == pow10((i + 1) as nat) * q,
                        pow10((i + 1) as nat) == 10 * pow10(i as nat),
                        cur == m * pow10(i as nat),
                ;
                if !below_bound(m * pow10(k as nat)) {
                } else {
                    lemma_bound_descends(cur * 10, q);
                }
            }
            return None;
        }
        proof {
            assert(pow10((i + 1) as nat) == 10 * pow10(i as nat));
            assert(cur * 10 == m * pow10((i + 1) as nat)) by (nonlinear_arith)
                requires
                    pow10((i + 1) as nat) == 10 * pow10(i as nat),
                    cur == m * pow10(i as nat),
            ;
        }
        cur = cur * 10;
        i = i + 1;
    }
    Some(cur)
}

fn overflow_error() -> (e: JsonErr)
    ensures
        e.code == 500,
{
    JsonErr::from_error(500, String::from_str("amount total overflowed"))
}

/// The sum of the amounts as rust_decimal writes it, adding them one by one
/// to zero cents.
pub open spec fn total_repr(amts: Seq<Amount>) -> Amount
    decreases amts.len(),
{
    if amts.len() == 0 {
        Amount { mantissa: 0, scale: 2 }
    } else {
        exact_add(total_repr(amts.drop_last()), amts.last())
    }
}

/// The exact sum of the amounts, written as rust_decimal writes it
/// (`total_repr`): never finer than the finest scale among them. Fails with a server error only when some partial sum
/// cannot be held in 96 bits.
pub fn total_of(amts: &Vec<Amount>) -> (r: Result<Amount, JsonErr>)
    requires
        forall|i: int| 0 <= i < amts.len() ==> (#[trigger] amts@[i]).wf(),
    ensures
        r matches Ok(t) ==> t.wf() && t.scale <= scale_of_all(amts@) && t == total_repr(amts@),
        r matches Ok(t) ==> value_at(t, scale_of_all(amts@)) == exact_total(
            amts@,
            scale_of_all(amts@),
        ),
        total_fits(amts@) ==> r is Ok,
        r matches Err(e) ==> e.code == 500,
{
    let mut acc = Amount { mantissa: 0, scale: 2 };
    let mut run: u32 = 2;
    let mut i: usize = 0;
    proof {
        assert(amts@.take(0).len() == 0);
    }
    while i < amts.len()
        invariant
            i <= amts.len(),
            forall|j: int| 0 <= j < amts.len() ==> (#[trigger] amts@[j]).wf(),
            acc.wf(),
            run <= MAX_SCALE,
            run as nat == scale_of_all(amts@.take(i as int)),
            acc.scale <= run,
            acc == total_repr(amts@.take(i as int)),
            value_at(acc, run as nat) == exact_total(amts@.take(i as int), run as nat),
        decreases amts.len() - i,
    {
        let p = amts[i];
        let next: u32 = if run >= p.scale {
            run
        } else {
            p.scale
        };
        let ghost prev = amts@.take(i as int);
        let ghost cur = amts@.take(i as int + 1);
        proof {
            assert(cur.drop_last() =~= prev);
            assert(cur.last() == p);
            assert(next as nat == scale_of_all(cur));
            assert forall|j: int| 0 <= j < prev.len() implies prev[j].scale <= run by {
                lemma_scale_of_all_bounds(prev, j);
            }
            lemma_total_lift(prev, run as nat, next as nat);
            lemma_value_lift(acc, run as nat, next as nat);
            assert(value_at(acc, next as nat) == exact_total(prev, next as nat));
            assert(exact_total(cur, next as nat) == exact_total(prev, next as nat) + value_at(
                p,
                next as nat,
            ));
        }
        let va = scale_up(acc.mantissa, next - acc.scale);
        let vb = scale_up(p.mantissa, next - p.scale);
        let (x, y) = match (va, vb) {
            (Some(x), Some(y)) => (x, y),
            _ => {
                proof {
                    assert(!step_fits(amts@, i as int));
                }
                return Err(overflow_error());
            },
        };
        let z = x + y;
        if z >= MANTISSA_BOUND || z <= -MANTISSA_BOUND {
            proof {
                assert(!step_fits(amts@, i as int));
            }
            return Err(overflow_error());
        }
        proof {
            let s1 = max_nat(acc.scale as nat, p.scale as nat);
            lemma_pow10_pos((next - s1) as nat);
            lemma_value_lift(acc, s1, next as nat);
            lemma_value_lift(p, s1, next as nat);
            let q = pow10((next - s1) as nat);
            let a1 = value_at(acc, s1);
            let b1 = value_at(p, s1);
            lemma_bound_descends(a1, q);
            lemma_bound_descends(b1, q);
            assert((a1 + b1) * q == a1 * q + b1 * q) by (nonlinear_arith);
            lemma_bound_descends(a1 + b1, q);
            assert(sum_fits(acc, p));
        }
        let c = decimal_checked_add(acc, p);
        match c {
            Some(c) => {
                proof {
                    lemma_exact_add_value(acc, p);
                    let s1 = max_nat(acc.scale as nat, p.scale as nat);
                    lemma_value_lift(c, s1, next as nat);
                    lemma_value_lift(acc, s1, next as nat);
                    lemma_value_lift(p, s1, next as nat);
                    let q = pow10((next - s1) as nat);
                    let a1 = value_at(acc, s1);
                    let b1 = value_at(p, s1);
                    assert((a1 + b1) * q == a1 * q + b1 * q) by (nonlinear_arith);
                }
                acc = c;
            },
            None => {
                return Err(overflow_error());
            },
        }
        run = next;
        i = i + 1;
    }
    proof {
        assert(amts@.take(i as int) =~= amts@);
    }
    Ok(acc)
}

} // verus!
