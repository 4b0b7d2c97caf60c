//! Decimal numerals such as `8`, `0.5` or `1.25`, read exactly.

use vstd::prelude::*;

verus! {

pub open spec fn is_digit(c: char) -> bool {
    '0' <= c && c <= '9'
}

pub open spec fn digit_value(c: char) -> nat {
    (c as int - '0' as int) as nat
}

pub open spec fn pow10(n: nat) -> nat
    decreases n,
{
    if n == 0 {
        1
    } else {
        10 * pow10((n - 1) as nat)
    }
}

/// The integer written by a sequence of decimal digits.
pub open spec fn digits_num(d: Seq<char>) -> nat
    decreases d.len(),
{
    if d.len() == 0 {
        0
    } else {
        digits_num(d.drop_last()) * 10 + digit_value(d.last())
    }
}

pub open spec fn all_digits(d: Seq<char>) -> bool {
    forall|i: int| 0 <= i < d.len() ==> is_digit(#[trigger] d[i])
}

/// The digits of a numeral, its decimal points left out.
pub open spec fn digits_of(t: Seq<char>) -> Seq<char>
    decreases t.len(),
{
    if t.len() == 0 {
        Seq::<char>::empty()
    } else if t.last() == '.' {
        digits_of(t.drop_last())
    } else {
        digits_of(t.drop_last()).push(t.last())
    }
}

/// The number of decimal points in a numeral.
pub open spec fn dot_count(t: Seq<char>) -> nat
    decreases t.len(),
{
    if t.len() == 0 {
        0
    } else if t.last() == '.' {
        dot_count(t.drop_last()) + 1
    } else {
        dot_count(t.drop_last())
    }
}

/// The number of digits after the (first) decimal point.
pub open spec fn frac_len(t: Seq<char>) -> nat
    decreases t.len(),
{
    if t.len() == 0 || t.last() == '.' {
        0
    } else if dot_count(t.drop_last()) > 0 {
        frac_len(t.drop_last()) + 1
    } else {
        0
    }
}

/// `a / b` rounded up.
pub open spec fn ceil_div(a: nat, b: nat) -> nat
    recommends
        b > 0,
{
    ((a + b - 1) / (b as int)) as nat
}

/// `x`, capped at `u64::MAX`.
pub open spec fn saturate(x: nat) -> u64 {
    if x > u64::MAX {
        u64::MAX
    } else {
        x as u64
    }
}

/// The numeral's value times `10^e`, rounded up to a whole number and
/// capped at `u64::MAX`.
pub open spec fn scaled_value(t: Seq<char>, e: nat) -> u64 {
    saturate(ceil_div(digits_num(digits_of(t)) * pow10(e), pow10(frac_len(t))))
}

// ---------------------------------------------------------------------------
// Lemmas
// ---------------------------------------------------------------------------

pub proof fn lemma_pow10_pos(n: nat)
    ensures
        pow10(n) >= 1,
    decreases n,
{
    if n > 0 {
        lemma_pow10_pos((n - 1) as nat);
    }
}

pub proof fn lemma_pow10_add(a: nat, b: nat)
    ensures
        pow10(a + b) == pow10(a) * pow10(b),
    decreases b,
{
    if b == 0 {
        assert(a + b == a);
        assert(pow10(b) == 1);
    } else {
        let b1 = (b - 1) as nat;
        lemma_pow10_add(a, b1);
        let x = pow10(a);
        let y = pow10(b1);
        assert(pow10(b) == 10 * y);
        assert(((a + b) - 1) as nat == a + b1);
        assert(pow10(a + b) == 10 * pow10(a + b1));
        assert(pow10(a + b1) == x * y);
        assert(x * (10 * y) == 10 * (x * y)) by (nonlinear_arith);
    }
}

pub proof fn lemma_digits_num_append(s: Seq<char>, t: Seq<char>)
    ensures
        digits_num(s + t) == digits_num(s) * pow10(t.len()) + digits_num(t),
    decreases t.len(),
{
    if t.len() == 0 {
        assert(s + t =~= s);
        assert(pow10(0) == 1);
    } else {
        let t0 = t.drop_last();
        lemma_digits_num_append(s, t0);
        assert((s + t).drop_last() =~= s + t0);
        assert((s + t).last() == t.last());
        let a = digits_num(s);
        let p = pow10(t0.len());
        let b = digits_num(t0);
        let dv = digit_value(t.last());
        assert(t0.len() == (t.len() - 1) as nat);
        assert(pow10(t.len()) == 10 * p);
        assert(digits_num(t) == b * 10 + dv);
        assert(digits_num(s + t) == digits_num(s + t0) * 10 + dv);
        assert(digits_num(s + t0) == a * p + b);
        assert((a * p + b) * 10 + dv == a * (10 * p) + (b * 10 + dv)) by (nonlinear_arith);
    }
}

pub proof fn lemma_digits_num_bound(d: Seq<char>)
    requires
        all_digits(d),
    ensures
        digits_num(d) < pow10(d.len()),
    decreases d.len(),
{
    if d.len() > 0 {
        let d0 = d.drop_last();
        assert(all_digits(d0)) by {
            assert forall|i: int| 0 <= i < d0.len() implies is_digit(#[trigger] d0[i]) by {
                assert(d0[i] == d[i]);
            }
        }
        lemma_digits_num_bound(d0);
        assert(is_digit(d[d.len() - 1]));
        let x = digits_num(d0);
        let p = pow10(d0.len());
        assert(d0.len() == (d.len() - 1) as nat);
        assert(pow10(d.len()) == 10 * p);
        assert(digit_value(d.last()) <= 9);
        assert(x * 10 + digit_value(d.last()) < 10 * p) by (nonlinear_arith)
            requires
                x < p,
                digit_value(d.last()) <= 9,
        ;
    }
}

/// A digit sequence writes zero exactly when all its digits are `0`.
pub proof fn lemma_digits_num_zero(d: Seq<char>)
    requires
        all_digits(d),
    ensures
        digits_num(d) == 0 <==> (forall|i: int| 0 <= i < d.len() ==> #[trigger] d[i] == '0'),
    decreases d.len(),
{
    if d.len() > 0 {
        let d0 = d.drop_last();
        assert(all_digits(d0)) by {
            assert forall|i: int| 0 <= i < d0.len() implies is_digit(#[trigger] d0[i]) by {
                assert(d0[i] == d[i]);
            }
        }
        lemma_digits_num_zero(d0);
        assert(is_digit(d[d.len() - 1]));
        if digits_num(d) == 0 {
            assert forall|i: int| 0 <= i < d.len() implies #[trigger] d[i] == '0' by {
                if i < d.len() - 1 {
                    assert(d0[i] == d[i]);
                }
            }
        }
        if forall|i: int| 0 <= i < d.len() ==> #[trigger] d[i] == '0' {
            assert forall|i: int| 0 <= i < d0.len() implies #[trigger] d0[i] == '0' by {
                assert(d0[i] == d[i]);
            }
            assert(d[d.len() - 1] == '0');
        }
    }
}

/// Rounding up a sum of whole multiples and a remainder below the divisor.
pub proof fn lemma_ceil_div_split(a: nat, b: nat, p: nat)
    requires
        p > 0,
        b < p,
    ensures
        ceil_div(a * p + b, p) == a + (if b > 0 { 1nat } else { 0nat }),
{
    assert(((a * p + b + p - 1) as int) / (p as int) == a + (if b > 0 { 1int } else { 0int }))
        by (nonlinear_arith)
        requires
            p > 0,
            b < p,
    {
        if b > 0 {
            assert(a * p + b + p - 1 == (a + 1) * p + (b - 1));
        } else {
            assert(a * p + b + p - 1 == a * p + (p - 1));
        }
    }
}

/// Cancelling a common power of ten in a rounded-up quotient.
pub proof fn lemma_ceil_div_cancel(a: nat, q: nat, r: nat)
    requires
        q > 0,
        r > 0,
    ensures
        ceil_div(a * q, q * r) == ceil_div(a, r),
{
    assert(((a * q + q * r - 1) as int) / ((q * r) as int) == ((a + r - 1) as int) / (r as int))
        by (nonlinear_arith)
        requires
            q > 0,
            r > 0,
    {
        let k = ((a + r - 1) as int) / (r as int);
        let m = ((a + r - 1) as int) % (r as int);
        assert(a + r - 1 == k * r + m);
        assert(0 <= m < r);
        // a*q + q*r - 1 = k*(q*r) + (m*q + q - 1), with 0 <= m*q + q - 1 < q*r
        assert(a * q + q * r - 1 == k * (q * r) + (m * q + q - 1));
        assert(m * q + q - 1 < q * r);
    }
}

/// One step of reading a digit into a value capped at `u64::MAX`.
pub proof fn lemma_saturate_step(x: nat, d: nat)
    requires
        d <= 9,
    ensures
        saturate(x * 10 + d) as int == (if saturate(x) as int > (u64::MAX - d) / 10 {
            u64::MAX as int
        } else {
            saturate(x) * 10 + d
        }),
{
    if x > u64::MAX {
        assert(x * 10 + d > u64::MAX) by (nonlinear_arith)
            requires
                x > u64::MAX,
        ;
    }
}

// ---------------------------------------------------------------------------
// Executable reading
// ---------------------------------------------------------------------------

/// The digits of `v[from..to]`, its number of decimal points, and the number
/// of digits after its first decimal point.
pub fn numeral_parts(v: &Vec<char>, from: usize, to: usize) -> (r: (Vec<char>, usize, usize))
    requires
        from <= to <= v@.len(),
    ensures
        r.0@ == digits_of(v@.subrange(from as int, to as int)),
        r.1 == dot_count(v@.subrange(from as int, to as int)),
        r.2 == frac_len(v@.subrange(from as int, to as int)),
{
    let mut digits: Vec<char> = Vec::new();
    let mut dots: usize = 0;
    let mut frac: usize = 0;
    let mut i = from;
    assert(v@.subrange(from as int, from as int) =~= Seq::<char>::empty());
    while i < to
        invariant
            from <= i <= to <= v@.len(),
            digits@ == digits_of(v@.subrange(from as int, i as int)),
            dots == dot_count(v@.subrange(from as int, i as int)),
            frac == frac_len(v@.subrange(from as int, i as int)),
            dots <= i - from,
            frac <= i - from,
        decreases to - i,
    {
        let c = v[i];
        let ghost t = v@.subrange(from as int, i + 1);
        assert(t.drop_last() =~= v@.subrange(from as int, i as int));
        assert(t.last() == c);
        if c == '.' {
            dots += 1;
            frac = 0;
        } else {
            if dots > 0 {
                frac += 1;
            } else {
                frac = 0;
            }
            digits.push(c);
        }
        i += 1;
    }
    (digits, dots, frac)
}

/// `ceil(value(d) * 10^e / 10^k)` capped at `u64::MAX`, where `d` are the
/// digits of a numeral and `k` of them are after its decimal point.
pub fn scaled_ceil(d: &Vec<char>, k: usize, e: usize) -> (r: u64)
    requires
        all_digits(d@),
        k <= d@.len(),
        e <= 9,
    ensures
        r == saturate(ceil_div(digits_num(d@) * pow10(e as nat), pow10(k as nat))),
{
    let m = d.len();
    let split_at: usize = if k >= e { m - (k - e) } else { m };
    let mut acc: u64 = 0;
    let mut tail_nonzero = false;
    let mut j: usize = 0;
    assert(d@.take(0) =~= Seq::<char>::empty());
    while j < m
        invariant
            m == d@.len(),
            split_at <= m,
            j <= m,
            all_digits(d@),
            acc == saturate(digits_num(d@.take(if j < split_at { j as int } else { split_at as int }))),
            tail_nonzero == (exists|i: int| split_at <= i < j && #[trigger] d@[i] != '0'),
        decreases m - j,
    {
        let c = d[j];
        assert(is_digit(d@[j as int]));
        if j < split_at {
            let dv: u64 = (c as u64) - ('0' as u64);
            proof {
                let pre = d@.take(j as int);
                assert(d@.take(j + 1).drop_last() =~= pre);
                assert(d@.take(j + 1).last() == c);
                lemma_saturate_step(digits_num(pre), dv as nat);
            }
            if acc > (u64::MAX - dv) / 10 {
                acc = u64::MAX;
            } else {
                acc = acc * 10 + dv;
            }
        } else if c != '0' {
            tail_nonzero = true;
        }
        j += 1;
    }
    let ghost head = d@.take(split_at as int);
    let ghost tail = d@.skip(split_at as int);
    proof {
        assert(head + tail =~= d@);
        lemma_digits_num_append(head, tail);
        lemma_pow10_pos(k as nat);
        lemma_pow10_pos(e as nat);
    }
    if k >= e {
        // More fractional digits than the unit absorbs: round the rest up.
        proof {
            assert(all_digits(tail)) by {
                assert forall|i: int| 0 <= i < tail.len() implies is_digit(#[trigger] tail[i]) by {
                    assert(tail[i] == d@[split_at + i]);
                }
            }
            lemma_digits_num_zero(tail);
            lemma_digits_num_bound(tail);
            if tail_nonzero {
                let i = choose|i: int| split_at <= i < m && #[trigger] d@[i] != '0';
                assert(tail[i - split_at] == d@[i]);
            } else {
                assert forall|i: int| 0 <= i < tail.len() implies #[trigger] tail[i] == '0' by {
                    assert(tail[i] == d@[split_at + i]);
                }
            }
            let n = digits_num(d@);
            let q = pow10(e as nat);
            let r = pow10(tail.len());
            assert(tail.len() + e == k);
            lemma_pow10_add(e as nat, tail.len());
            assert(n * q == digits_num(d@) * pow10(e as nat));
            assert(q * r == pow10(k as nat));
            lemma_pow10_pos(tail.len());
            lemma_ceil_div_cancel(n, q, r);
            lemma_ceil_div_split(digits_num(head), digits_num(tail), r);
        }
        if tail_nonzero {
            if acc == u64::MAX {
                acc
            } else {
                acc + 1
            }
        } else {
            acc
        }
    } else {
        // Fewer fractional digits than the unit: scale up by the difference.
        let extra = e - k;
        let mut t: usize = 0;
        proof {
            assert(head =~= d@);
        }
        while t < extra
            invariant
                t <= extra,
                acc == saturate(digits_num(d@) * pow10(t as nat)),
            decreases extra - t,
        {
            proof {
                lemma_saturate_step(digits_num(d@) * pow10(t as nat), 0);
                assert(digits_num(d@) * pow10((t + 1) as nat) == digits_num(d@) * pow10(t as nat)
                    * 10 + 0) by (nonlinear_arith)
                    requires
                        pow10((t + 1) as nat) == 10 * pow10(t as nat),
                ;
            }
            if acc > u64::MAX / 10 {
                acc = u64::MAX;
            } else {
                acc = acc * 10;
            }
            t += 1;
        }
        proof {
            let n = digits_num(d@);
            lemma_pow10_add(k as nat, extra as nat);
            assert(e == k + extra);
            let pk = pow10(k as nat);
            let px = pow10(extra as nat);
            assert(n * pow10(e as nat) == (n * px) * pk) by (nonlinear_arith)
                requires
                    pow10(e as nat) == pk * px,
            ;
            lemma_ceil_div_split(n * px, 0, pk);
        }
        acc
    }
}

} // verus!
