//! Numbers written as JSON text: `-12`, `85.5`, `6.5e-3`, read as decimals
//! to six places.

use vstd::prelude::*;
use crate::json::Decimal;
use crate::text::{all_digits, digits_value, is_digit, str_chars};

verus! {

/// Ten to the power `n`.
pub open spec fn pow10(n: nat) -> nat
    decreases n,
{
    if n == 0 { 1 } else { 10 * pow10((n - 1) as nat) }
}

/// The number of digits `s` starts with.
pub open spec fn digit_run(s: Seq<char>) -> nat
    decreases s.len(),
{
    if s.len() > 0 && is_digit(s[0]) { 1 + digit_run(s.drop_first()) } else { 0 }
}

/// Whether a number text is negative, and the text after its sign.
pub open spec fn split_sign(t: Seq<char>) -> (bool, Seq<char>) {
    let neg = t.len() > 0 && t[0] == '-';
    (neg, if neg { t.drop_first() } else { t })
}

/// The fraction digits that `after` (what follows the integer digits)
/// starts with, and the text after them: none when there is no `.`, and
/// `None` when a `.` is followed by no digit.
pub open spec fn split_fraction(after: Seq<char>) -> Option<(Seq<char>, Seq<char>)> {
    if after.len() > 0 && after[0] == '.' {
        let f = digit_run(after.drop_first());
        if f == 0 {
            None
        } else {
            Some((after.drop_first().take(f as int), after.drop_first().skip(f as int)))
        }
    } else {
        Some((Seq::empty(), after))
    }
}

/// The exponent that `rest` (what follows the digits) writes: 0 when it is
/// empty, `None` unless it is `e` or `E`, an optional sign and digits.
pub open spec fn exponent_of(rest: Seq<char>) -> Option<int> {
    if rest.len() == 0 {
        Some(0)
    } else if rest[0] == 'e' || rest[0] == 'E' {
        let es = rest.drop_first();
        let eneg = es.len() > 0 && es[0] == '-';
        let ed = if es.len() > 0 && (es[0] == '-' || es[0] == '+') { es.drop_first() } else { es };
        if ed.len() > 0 && all_digits(ed) {
            Some(if eneg { -(digits_value(ed) as int) } else { digits_value(ed) as int })
        } else {
            None
        }
    } else {
        None
    }
}

/// The parts of a number text: whether it is negative, the digits of its
/// integer and fraction parts together, how many of them are the fraction,
/// and its exponent.  `None` when the text is not a number:
/// `-?[0-9]+(\.[0-9]+)?([eE][+-]?[0-9]+)?`.
pub open spec fn number_parts(t: Seq<char>) -> Option<(bool, Seq<char>, nat, int)> {
    let (neg, r) = split_sign(t);
    let i = digit_run(r);
    if i == 0 {
        None
    } else {
        match split_fraction(r.skip(i as int)) {
            None => None,
            Some((frac, rest)) => match exponent_of(rest) {
                None => None,
                Some(e) => Some((neg, r.take(i as int) + frac, frac.len(), e)),
            },
        }
    }
}

/// `d` times ten to the power `shift`, rounded half away from zero to a
/// whole number.
pub open spec fn scaled(d: nat, shift: int) -> nat {
    if shift >= 0 {
        d * pow10(shift as nat)
    } else {
        let q = pow10((-shift) as nat);
        d / q + if 2 * (d % q) >= q { 1nat } else { 0nat }
    }
}

/// `x`, or the nearest end of the `i128` range.
pub open spec fn clamp_i128(x: int) -> i128 {
    if x > i128::MAX { i128::MAX } else if x < i128::MIN { i128::MIN } else { x as i128 }
}

/// The decimal a number text stands for, rounded half away from zero to
/// millionths (and held at the ends of the `i128` range); `None` when the
/// text is not a number.
pub open spec fn spec_number_decimal(t: Seq<char>) -> Option<Decimal> {
    match number_parts(t) {
        None => None,
        Some((neg, digits, f, e)) => {
            let m = scaled(digits_value(digits), e - f + 6);
            Some(Decimal { micros: clamp_i128(if neg { -(m as int) } else { m as int }) })
        },
    }
}


// ------------------------------------------------------------------------------------------------
// Facts about digits
// ------------------------------------------------------------------------------------------------

proof fn lemma_pow10_positive(n: nat)
    ensures
        pow10(n) >= 1,
    decreases n,
{
    if n > 0 {
        lemma_pow10_positive((n - 1) as nat);
    }
}

proof fn lemma_pow10_monotone(a: nat, b: nat)
    requires
        a <= b,
    ensures
        pow10(a) <= pow10(b),
    decreases b - a,
{
    if a < b {
        lemma_pow10_monotone(a, (b - 1) as nat);
        lemma_pow10_positive((b - 1) as nat);
    }
}

/// The digits of `a` then `b` stand for `a` shifted past `b`, plus `b`.
proof fn lemma_digits_concat(a: Seq<char>, b: Seq<char>)
    ensures
        digits_value(a + b) == digits_value(a) * pow10(b.len()) + digits_value(b),
    decreases b.len(),
{
    if b.len() == 0 {
        assert(a + b =~= a);
        assert(pow10(0) == 1);
        assert(digits_value(b) == 0);
        assert(digits_value(a) * 1 == digits_value(a));
    } else {
        lemma_digits_concat(a, b.drop_last());
        assert((a + b).drop_last() =~= a + b.drop_last());
        assert((a + b).last() == b.last());
        let x = digits_value(a);
        let p = pow10((b.len() - 1) as nat);
        let y = digits_value(b.drop_last());
        let v = ((b.last() as u32) - ('0' as u32)) as nat;
        assert(pow10(b.len()) == 10 * p);
        assert(digits_value(a + b) == digits_value(a + b.drop_last()) * 10 + v);
        assert(digits_value(b) == y * 10 + v);
        assert((x * p + y) * 10 + v == x * (10 * p) + (y * 10 + v)) by (nonlinear_arith);
        assert(digits_value(a + b.drop_last()) == x * p + y);
        assert(digits_value(a + b) == x * pow10(b.len()) + digits_value(b));
    }
}

/// A run of `n` digits stands for less than ten to the `n`.
proof fn lemma_digits_bound(s: Seq<char>)
    requires
        all_digits(s),
    ensures
        digits_value(s) < pow10(s.len()),
    decreases s.len(),
{
    if s.len() > 0 {
        assert(all_digits(s.drop_last())) by {
            assert forall|i: int| 0 <= i < s.drop_last().len() implies is_digit(#[trigger] s.drop_last()[i]) by {
                assert(s.drop_last()[i] == s[i]);
            }
        }
        lemma_digits_bound(s.drop_last());
        assert(is_digit(s[s.len() - 1]));
    }
}

/// Rounding half away from zero at the first digit of `s`: the digits of
/// `s` make at least half of ten to their number exactly when the first is
/// 5 or more.
proof fn lemma_round_digit(s: Seq<char>)
    requires
        all_digits(s),
        s.len() >= 1,
    ensures
        (2 * digits_value(s) >= pow10(s.len())) <==> (s[0] >= '5'),
{
    let head = s.take(1);
    let tail = s.skip(1);
    assert(head + tail =~= s);
    lemma_digits_concat(head, tail);
    assert(head.drop_last() =~= Seq::<char>::empty());
    assert(all_digits(tail)) by {
        assert forall|i: int| 0 <= i < tail.len() implies is_digit(#[trigger] tail[i]) by {
            assert(tail[i] == s[i + 1]);
        }
    }
    lemma_digits_bound(tail);
    let d0 = digits_value(head);
    assert(head.last() == s[0]);
    assert(digits_value(head.drop_last()) == 0);
    assert(d0 == ((s[0] as u32) - ('0' as u32)) as nat);
    let p = pow10(tail.len());
    assert(pow10(s.len()) == 10 * p);
    let t = digits_value(tail);
    if s[0] >= '5' {
        assert(d0 >= 5);
        assert(2 * (d0 * p + t) >= 10 * p) by (nonlinear_arith)
            requires d0 >= 5, t >= 0, p >= 0;
    } else {
        assert(d0 <= 4);
        assert(2 * (d0 * p + t) < 10 * p) by (nonlinear_arith)
            requires d0 <= 4, t < p;
    }
}

/// The digits `s` start with run for `k` characters.
proof fn lemma_digit_run(s: Seq<char>, k: nat)
    requires
        k <= s.len(),
        forall|i: int| 0 <= i < k ==> is_digit(#[trigger] s[i]),
        k == s.len() || !is_digit(s[k as int]),
    ensures
        digit_run(s) == k,
    decreases k,
{
    if k > 0 {
        assert forall|i: int| 0 <= i < k - 1 implies is_digit(#[trigger] s.drop_first()[i]) by {
            assert(s.drop_first()[i] == s[i + 1]);
        }
        if k < s.len() {
            assert(s.drop_first()[k - 1] == s[k as int]);
        }
        lemma_digit_run(s.drop_first(), (k - 1) as nat);
    }
}

// ------------------------------------------------------------------------------------------------
// Reading a number text
// ------------------------------------------------------------------------------------------------

/// Exponents beyond this size are only known to be beyond it: any number
/// with such an exponent is either zero or beyond the `i128` range.
pub const EXPONENT_CAP: u128 = 1_000_000_000_000_000_000_000_000_000_000u128;

proof fn lemma_digits_step(s: Seq<char>, j: int)
    requires
        0 <= j < s.len(),
        is_digit(s[j]),
    ensures
        digits_value(s.take(j + 1)) == digits_value(s.take(j)) * 10 + ((s[j] as u32) - ('0' as u32)) as nat,
        digits_value(s.take(j + 1)) >= digits_value(s.take(j)),
{
    assert(s.take(j + 1).drop_last() =~= s.take(j));
    assert(s.take(j + 1).last() == s[j]);
}

/// The number the first `n` characters of `s`, all digits, stand for;
/// `None` when it exceeds `u128::MAX`.
fn digits_value_checked(s: &Vec<char>, n: usize) -> (r: Option<u128>)
    requires
        n <= s.len(),
        forall|i: int| 0 <= i < n ==> is_digit(#[trigger] s@[i]),
    ensures
        match r {
            Some(v) => v == digits_value(s@.take(n as int)),
            None => digits_value(s@.take(n as int)) > u128::MAX,
        },
{
    let mut acc: Option<u128> = Some(0);
    let mut j: usize = 0;
    proof {
        assert(s@.take(0) =~= Seq::<char>::empty());
    }
    while j < n
        invariant
            j <= n <= s.len(),
            forall|i: int| 0 <= i < n ==> is_digit(#[trigger] s@[i]),
            match acc {
                Some(v) => v == digits_value(s@.take(j as int)),
                None => digits_value(s@.take(j as int)) > u128::MAX,
            },
        decreases n - j,
    {
        assert(is_digit(s@[j as int]));
        proof {
            lemma_digits_step(s@, j as int);
        }
        let d: u128 = ((s[j] as u32) - ('0' as u32)) as u128;
        acc = match acc {
            Some(v) => match v.checked_mul(10) {
                Some(w) => w.checked_add(d),
                None => None,
            },
            None => None,
        };
        j = j + 1;
    }
    acc
}

/// Ten to the power `n`, for `n` up to 38.
fn pow10_exec(n: u32) -> (r: u128)
    requires
        n <= 38,
    ensures
        r == pow10(n as nat),
{
    proof {
        reveal_with_fuel(pow10, 39);
        assert(pow10(38) == 100000000000000000000000000000000000000nat);
    }
    let mut r: u128 = 1;
    let mut i: u32 = 0;
    while i < n
        invariant
            i <= n <= 38,
            r == pow10(i as nat),
            pow10(38) == 100000000000000000000000000000000000000nat,
        decreases n - i,
    {
        proof {
            lemma_pow10_monotone((i + 1) as nat, 38);
        }
        r = r * 10;
        i = i + 1;
    }
    r
}

/// Scaling digits that stand for less than a tenth of `pow10(k)` down by
/// `k` places rounds to zero.
proof fn lemma_scaled_small(d: nat, len: nat, k: nat)
    requires
        d < pow10(len),
        len < k,
    ensures
        scaled(d, -(k as int)) == 0,
{
    lemma_pow10_monotone(len, (k - 1) as nat);
    let q = pow10(k);
    assert(q == 10 * pow10((k - 1) as nat));
    assert(d < q);
    vstd::arithmetic::div_mod::lemma_fundamental_div_mod_converse(d as int, q as int, 0, d as int);
}

/// Scaling a non-zero number up by 39 places or more leaves the `u128`
/// range.
proof fn lemma_scaled_large(d: nat, shift: nat)
    requires
        d >= 1,
        shift >= 39,
    ensures
        scaled(d, shift as int) > u128::MAX,
{
    reveal_with_fuel(pow10, 40);
    assert(pow10(39) == 1000000000000000000000000000000000000000nat);
    lemma_pow10_monotone(39, shift);
    let p = pow10(shift);
    assert(d * p >= p) by (nonlinear_arith)
        requires d >= 1;
}

/// The digits `ds` scaled by ten to the power `shift`, rounded half away
/// from zero; `None` when that exceeds `u128::MAX`.
fn scale_digits(ds: &Vec<char>, shift: i128) -> (r: Option<u128>)
    requires
        all_digits(ds@),
        shift > i128::MIN,
    ensures
        match r {
            Some(m) => m == scaled(digits_value(ds@), shift as int),
            None => scaled(digits_value(ds@), shift as int) > u128::MAX,
        },
{
    let len = ds.len();
    proof {
        assert(ds@.take(len as int) =~= ds@);
        lemma_digits_bound(ds@);
    }
    if shift >= 0 {
        match digits_value_checked(ds, len) {
            None => {
                proof {
                    lemma_pow10_positive(shift as nat);
                    let d = digits_value(ds@);
                    let p = pow10(shift as nat);
                    assert(d * p >= d) by (nonlinear_arith)
                        requires p >= 1;
                }
                None
            },
            Some(d) => {
                if d == 0 {
                    proof {
                        assert(0 * pow10(shift as nat) == 0);
                    }
                    Some(0)
                } else if shift > 38 {
                    proof {
                        lemma_scaled_large(d as nat, shift as nat);
                    }
                    None
                } else {
                    let p = pow10_exec(shift as u32);
                    d.checked_mul(p)
                }
            },
        }
    } else {
        let k: i128 = -shift;
        if k > len as i128 {
            proof {
                lemma_scaled_small(digits_value(ds@), len as nat, k as nat);
            }
            Some(0)
        } else {
            let pl: usize = len - (k as usize);
            let ghost head = ds@.take(pl as int);
            let ghost tail = ds@.skip(pl as int);
            proof {
                assert(head + tail =~= ds@);
                lemma_digits_concat(head, tail);
                assert(all_digits(tail)) by {
                    assert forall|i: int| 0 <= i < tail.len() implies is_digit(#[trigger] tail[i]) by {
                        assert(tail[i] == ds@[pl + i]);
                    }
                }
                lemma_digits_bound(tail);
                lemma_round_digit(tail);
                assert(tail.len() == k);
                assert(tail[0] == ds@[pl as int]);
                vstd::arithmetic::div_mod::lemma_fundamental_div_mod_converse(
                    digits_value(ds@) as int,
                    pow10(k as nat) as int,
                    digits_value(head) as int,
                    digits_value(tail) as int,
                );
            }
            let round_up = ds[pl] >= '5';
            match digits_value_checked(ds, pl) {
                None => None,
                Some(p) => {
                    if round_up {
                        p.checked_add(1)
                    } else {
                        Some(p)
                    }
                },
            }
        }
    }
}

/// Where the run of digits starting at `from` ends.
fn digit_end(c: &Vec<char>, from: usize) -> (p: usize)
    requires
        from <= c.len(),
    ensures
        from <= p <= c.len(),
        forall|j: int| from <= j < p ==> is_digit(#[trigger] c@[j]),
        p == c.len() || !is_digit(c@[p as int]),
        digit_run(c@.skip(from as int)) == p - from,
{
    let mut p = from;
    while p < c.len() && '0' <= c[p] && c[p] <= '9'
        invariant
            from <= p <= c.len(),
            forall|j: int| from <= j < p ==> is_digit(#[trigger] c@[j]),
        decreases c.len() - p,
    {
        p = p + 1;
    }
    proof {
        let sk = c@.skip(from as int);
        assert forall|j: int| 0 <= j < p - from implies is_digit(#[trigger] sk[j]) by {
            assert(sk[j] == c@[from + j]);
        }
        if p < c.len() {
            assert(sk[p - from] == c@[p as int]);
        }
        lemma_digit_run(sk, (p - from) as nat);
    }
    p
}

/// `v`, negated when `neg`, held within the `i128` range; `m` is `v` when
/// it fits a `u128`.
fn clamp_signed(m: Option<u128>, neg: bool, Ghost(v): Ghost<nat>) -> (r: i128)
    requires
        match m {
            Some(x) => x == v,
            None => v > u128::MAX,
        },
    ensures
        r == clamp_i128(if neg { -(v as int) } else { v as int }),
{
    match m {
        None => if neg { i128::MIN } else { i128::MAX },
        Some(x) => {
            if neg {
                if x >= 0x8000_0000_0000_0000_0000_0000_0000_0000u128 {
                    i128::MIN
                } else {
                    -(x as i128)
                }
            } else {
                if x > 0x7fff_ffff_ffff_ffff_ffff_ffff_ffff_ffffu128 {
                    i128::MAX
                } else {
                    x as i128
                }
            }
        },
    }
}

/// The exponent written from `from` to the end of `c`: `None` unless that
/// is a non-empty run of digits; its value, or `EXPONENT_CAP + 1` when it
/// is larger than `EXPONENT_CAP`.
fn exponent_digits(c: &Vec<char>, from: usize) -> (r: Option<u128>)
    requires
        from <= c.len(),
    ensures
        r is Some <==> (c@.skip(from as int).len() > 0 && all_digits(c@.skip(from as int))),
        r matches Some(v) ==> {
            &&& v <= EXPONENT_CAP ==> v == digits_value(c@.skip(from as int))
            &&& v > EXPONENT_CAP ==> v == EXPONENT_CAP + 1 && digits_value(c@.skip(from as int)) > EXPONENT_CAP
        },
{
    let ghost sk = c@.skip(from as int);
    if from == c.len() {
        return None;
    }
    let mut acc: u128 = 0;
    let mut j: usize = from;
    proof {
        assert(sk.take(0) =~= Seq::<char>::empty());
    }
    while j < c.len()
        invariant
            from <= j <= c.len(),
            sk == c@.skip(from as int),
            forall|i: int| 0 <= i < j - from ==> is_digit(#[trigger] sk[i]),
            acc <= EXPONENT_CAP ==> acc == digits_value(sk.take(j - from)),
            acc > EXPONENT_CAP ==> acc == EXPONENT_CAP + 1 && digits_value(sk.take(j - from)) > EXPONENT_CAP,
        decreases c.len() - j,
    {
        if !('0' <= c[j] && c[j] <= '9') {
            proof {
                assert(sk[j - from] == c@[j as int]);
                assert(!all_digits(sk));
            }
            return None;
        }
        proof {
            assert(sk[j - from] == c@[j as int]);
            lemma_digits_step(sk, j - from);
        }
        if acc <= EXPONENT_CAP {
            let next = acc * 10 + ((c[j] as u32) - ('0' as u32)) as u128;
            acc = if next > EXPONENT_CAP { EXPONENT_CAP + 1 } else { next };
        }
        j = j + 1;
    }
    proof {
        assert(sk.take(sk.len() as int) =~= sk);
        assert(all_digits(sk));
    }
    Some(acc)
}

/// `(eneg, emag)` describes the exponent `e`: exactly up to the cap, and
/// beyond the cap only by its sign.
pub open spec fn exponent_is(eneg: bool, emag: u128, e: int) -> bool {
    &&& emag <= EXPONENT_CAP ==> e == if eneg { -(emag as int) } else { emag as int }
    &&& emag > EXPONENT_CAP ==> if eneg { e < -(EXPONENT_CAP as int) } else { e > EXPONENT_CAP as int }
}

/// Reads the exponent from `from` on (`exponent_of`).
fn exponent_at(c: &Vec<char>, from: usize) -> (r: Option<(bool, u128)>)
    requires
        from <= c.len(),
    ensures
        r is None <==> exponent_of(c@.skip(from as int)) is None,
        r matches Some((eneg, emag)) ==> exponent_is(eneg, emag, exponent_of(c@.skip(from as int))->Some_0),
{
    let ghost rest = c@.skip(from as int);
    let len = c.len();
    if from == len {
        return Some((false, 0));
    }
    proof {
        assert(rest[0] == c@[from as int]);
    }
    if !(c[from] == 'e' || c[from] == 'E') {
        return None;
    }
    let es = from + 1;
    let eneg = es < len && c[es] == '-';
    let signed = es < len && (c[es] == '-' || c[es] == '+');
    let ds_start = if signed { es + 1 } else { es };
    proof {
        assert(rest.drop_first() =~= c@.skip(es as int));
        if es < len {
            assert(c@.skip(es as int)[0] == c@[es as int]);
        }
        if signed {
            assert(c@.skip(es as int).drop_first() =~= c@.skip(ds_start as int));
        }
    }
    match exponent_digits(c, ds_start) {
        None => None,
        Some(v) => Some((eneg, v)),
    }
}

/// Reads the fraction that starts at `p` (`split_fraction`): whether there
/// is one, and where it ends.
fn fraction_at(c: &Vec<char>, p: usize) -> (r: Option<(bool, usize)>)
    requires
        p <= c.len(),
    ensures
        r is None <==> split_fraction(c@.skip(p as int)) is None,
        r matches Some((with_frac, q)) ==> {
            &&& p <= q <= c.len()
            &&& with_frac ==> q > p + 1 && split_fraction(c@.skip(p as int)) == Some((c@.subrange(p + 1, q as int), c@.skip(q as int)))
            &&& !with_frac ==> q == p && split_fraction(c@.skip(p as int)) == Some((Seq::<char>::empty(), c@.skip(p as int)))
            &&& forall|j: int| p + 1 <= j < q ==> is_digit(#[trigger] c@[j])
        },
{
    let ghost after = c@.skip(p as int);
    if !(p < c.len() && c[p] == '.') {
        proof {
            if p < c.len() {
                assert(after[0] == c@[p as int]);
            }
        }
        return Some((false, p));
    }
    proof {
        assert(after[0] == c@[p as int]);
        assert(after.drop_first() =~= c@.skip(p + 1));
    }
    let q = digit_end(c, p + 1);
    if q == p + 1 {
        return None;
    }
    proof {
        assert(c@.skip(p + 1).take(q - (p + 1)) =~= c@.subrange(p + 1, q as int));
        assert(c@.skip(p + 1).skip(q - (p + 1)) =~= c@.skip(q as int));
    }
    Some((true, q))
}

/// Splits a number text into its parts (see `number_parts`), the exponent
/// given by its sign and saturated size.
fn split_number(c: &Vec<char>) -> (r: Option<(bool, Vec<char>, usize, bool, u128)>)
    ensures
        r is None <==> number_parts(c@) is None,
        r matches Some((neg, ds, f, eneg, emag)) ==> {
            &&& number_parts(c@) matches Some((n2, d2, f2, e))
            &&& n2 == neg && d2 == ds@ && f2 == f && exponent_is(eneg, emag, e)
            &&& all_digits(ds@)
        },
{
    let len = c.len();
    let neg = len > 0 && c[0] == '-';
    let start: usize = if neg { 1 } else { 0 };
    let ghost rr = split_sign(c@).1;
    proof {
        assert(rr =~= c@.skip(start as int));
    }
    let p = digit_end(c, start);
    let i = p - start;
    if i == 0 {
        return None;
    }
    proof {
        assert(rr.skip(i as int) =~= c@.skip(p as int));
        assert(rr.take(i as int) =~= c@.subrange(start as int, p as int));
    }
    let (has_frac, q) = match fraction_at(c, p) {
        None => return None,
        Some(x) => x,
    };
    let rest_start: usize = q;
    let (eneg, emag) = match exponent_at(c, rest_start) {
        None => return None,
        Some(x) => x,
    };
    let f: usize = if has_frac { q - (p + 1) } else { 0 };
    let mut ds: Vec<char> = Vec::new();
    let mut j: usize = start;
    while j < p
        invariant
            start <= j <= p <= len == c.len(),
            ds@ =~= c@.subrange(start as int, j as int),
        decreases p - j,
    {
        ds.push(c[j]);
        j = j + 1;
    }
    if has_frac {
        let mut k: usize = p + 1;
        while k < q
            invariant
                p + 1 <= k <= q <= len == c.len(),
                ds@ =~= c@.subrange(start as int, p as int) + c@.subrange(p + 1, k as int),
            decreases q - k,
        {
            ds.push(c[k]);
            k = k + 1;
        }
    }
    proof {
        assert(all_digits(ds@)) by {
            assert forall|x: int| 0 <= x < ds@.len() implies is_digit(#[trigger] ds@[x]) by {
                if x < p - start {
                    assert(ds@[x] == c@[start + x]);
                } else {
                    assert(ds@[x] == c@[p + 1 + (x - (p - start))]);
                }
            }
        }
    }
    Some((neg, ds, f, eneg, emag))
}

/// Reads a number text as a decimal to six places (`spec_number_decimal`).
pub fn parse_number_decimal(t: &str) -> (r: Option<Decimal>)
    ensures
        r == spec_number_decimal(t@),
{
    let c = str_chars(t);
    let (neg, ds, f, eneg, emag) = match split_number(&c) {
        None => return None,
        Some(parts) => parts,
    };
    let ghost e_true: int = number_parts(t@)->Some_0.3;
    proof {
        lemma_digits_bound(ds@);
        assert(ds@.take(ds@.len() as int) =~= ds@);
    }
    let ghost dv = digits_value(ds@);
    let ghost shift_true: int = e_true - f + 6;
    let m: Option<u128> = if emag <= EXPONENT_CAP {
        let e: i128 = if eneg { -(emag as i128) } else { emag as i128 };
        let shift: i128 = e - (f as i128) + 6;
        scale_digits(&ds, shift)
    } else if !eneg {
        match digits_value_checked(&ds, ds.len()) {
            Some(0) => {
                proof {
                    assert(0 * pow10(shift_true as nat) == 0);
                }
                Some(0)
            },
            _ => {
                proof {
                    lemma_scaled_large(dv, shift_true as nat);
                }
                None
            },
        }
    } else {
        proof {
            lemma_scaled_small(dv, ds@.len(), (-shift_true) as nat);
        }
        Some(0)
    };
    Some(Decimal { micros: clamp_signed(m, neg, Ghost(scaled(dv, shift_true))) })
}

} // verus!
