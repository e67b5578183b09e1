//! Time and rounding helpers.
use vstd::arithmetic::power2::{
    lemma2_to64, lemma_pow2_adds, lemma_pow2_pos, lemma_pow2_strictly_increases,
    lemma_pow2_unfold, pow2,
};
use vstd::prelude::*;

verus! {

/// A point on the system clock: whole seconds from the Unix epoch on, negative before it,
/// and the nanoseconds within the second.
#[derive(Clone, Copy, Debug, PartialEq, Eq, Structural)]
pub struct UnixTime {
    pub secs: i64,
    pub nanos: u32,
}

impl UnixTime {
    /// The nanoseconds stay within one second.
    pub open spec fn valid(self) -> bool {
        self.nanos < 1_000_000_000
    }

    /// Nanoseconds from the Unix epoch on.
    pub open spec fn total_nanos(self) -> int {
        self.secs * 1_000_000_000 + self.nanos
    }
}

/// The point in time that a Unix timestamp names. Timestamps before the epoch
/// name none.
pub fn unix_to_time(unix_timestamp: i64) -> (r: UnixTime)
    requires
        unix_timestamp >= 0,
    ensures
        r.valid(),
        r.total_nanos() == unix_timestamp * 1_000_000_000,
{
    UnixTime { secs: unix_timestamp, nanos: 0 }
}

/// Milliseconds from `start` to `now`, kept to the low 64 bits.
pub open spec fn millis_between(start: UnixTime, now: UnixTime) -> u64 {
    (((now.total_nanos() - start.total_nanos()) / 1_000_000) % 0x1_0000_0000_0000_0000) as u64
}

/// Milliseconds from `start` to `now`, kept to the low 64 bits.
pub fn elapsed_between(start: UnixTime, now: UnixTime) -> (r: u64)
    requires
        start.total_nanos() <= now.total_nanos(),
    ensures
        r == millis_between(start, now),
{
    let from: i128 = start.secs as i128 * 1_000_000_000 + start.nanos as i128;
    let to: i128 = now.secs as i128 * 1_000_000_000 + now.nanos as i128;
    let millis: u128 = (to - from) as u128 / 1_000_000;
    (millis % 0x1_0000_0000_0000_0000) as u64
}

/// Whether `start` does not lie ahead of `now`.
pub fn has_begun(start: UnixTime, now: UnixTime) -> (r: bool)
    ensures
        r == (start.total_nanos() <= now.total_nanos()),
{
    let from: i128 = start.secs as i128 * 1_000_000_000 + start.nanos as i128;
    let to: i128 = now.secs as i128 * 1_000_000_000 + now.nanos as i128;
    from <= to
}

/// Calls `SystemTime::elapsed` on the Unix epoch. Of the reading only its form is
/// claimed, fewer than a billion nanoseconds beside the seconds; there is none
/// when the clock stands before the epoch, or further on than 64 bits of seconds tell.
#[verifier::external_body]
fn since_epoch() -> (r: Option<UnixTime>)
    ensures
        r matches Some(now) ==> now.valid(),
{
    let passed = std::time::SystemTime::UNIX_EPOCH.elapsed().ok()?;
    Some(UnixTime { secs: passed.as_secs().try_into().ok()?, nanos: passed.subsec_nanos() })
}

/// Milliseconds from `start` to a reading of the clock; none without a reading, or if
/// `start` lies ahead of it.
pub open spec fn millis_at(start: UnixTime, reading: Option<UnixTime>) -> Option<u64> {
    match reading {
        Some(now) => if start.total_nanos() <= now.total_nanos() {
            Some(millis_between(start, now))
        } else {
            None
        },
        None => None,
    }
}

/// Milliseconds from `start` to a reading of the clock; none without a reading, or if
/// `start` lies ahead of it.
pub fn elapsed_at(start: UnixTime, reading: Option<UnixTime>) -> (r: Option<u64>)
    ensures
        r == millis_at(start, reading),
{
    match reading {
        Some(now) => if has_begun(start, now) {
            Some(elapsed_between(start, now))
        } else {
            None
        },
        None => None,
    }
}

/// Milliseconds from `start` to the present: what [`elapsed_at`] makes of the clock's
/// reading, whatever that is. There are none if `start` lies ahead of the clock, which no
/// caller can know beforehand.
pub fn elapsed(start: UnixTime) -> (r: Option<u64>)
    ensures
        exists|reading: Option<UnixTime>|
            (reading matches Some(now) ==> now.valid()) && r == #[trigger] millis_at(
                start,
                reading,
            ),
{
    let reading = since_epoch();
    let r = elapsed_at(start, reading);
    assert(r == millis_at(start, reading));
    r
}

/// The fraction `n / d` rounded to a whole number, a tie to the even neighbour.
pub open spec fn nearest_even(n: nat, d: nat) -> nat {
    let floor = n / d;
    let rest = n % d;
    if 2 * rest < d || (2 * rest == d && floor % 2 == 0) {
        floor
    } else {
        floor + 1
    }
}

/// For `n >= d > 0`, the largest power of two that `n / d` reaches.
pub open spec fn binade(n: nat, d: nat) -> nat
    decreases n - d,
{
    if d == 0 || n < 2 * d {
        1
    } else {
        2 * binade(n, 2 * d)
    }
}

/// For `n >= d > 0`, the single-precision number nearest to `n / d`, a tie to the
/// even significand, in units of 2^-23: 24 binary digits from the leading one on
/// are kept.
pub open spec fn single(n: nat, d: nat) -> nat {
    nearest_even(n * 0x80_0000, d * binade(n, d)) * binade(n, d)
}

/// `num / 10000` in single precision, `num` itself taken in single precision
/// first, rounded to a whole number, a tie upwards. Below one no digits matter but
/// whether the quotient reaches one half.
pub open spec fn ten_thousands(num: u32) -> nat {
    let exact = single(num as nat, 1);
    if num == 0 || exact < 5_000 * 0x80_0000 {
        0
    } else if exact < 10_000 * 0x80_0000 {
        1
    } else {
        (single(exact, 10_000 * 0x80_0000) + 0x40_0000) as nat / 0x80_0000
    }
}

/// The multiple of 10000 nearest to `num`, computed in single precision
/// throughout and capped at the largest `u32`.
pub open spec fn nearest_10000(num: u32) -> u32 {
    let n = ten_thousands(num);
    if n == 0 {
        0
    } else {
        let product = single(n * 10_000, 1) / 0x80_0000;
        if product <= u32::MAX {
            product as u32
        } else {
            u32::MAX
        }
    }
}

proof fn lemma_binade_bound(n: nat, d: nat)
    requires
        0 < d <= n,
    ensures
        binade(n, d) >= 1,
        d * binade(n, d) <= n < 2 * d * binade(n, d),
    decreases n - d,
{
    if n >= 2 * d {
        lemma_binade_bound(n, 2 * d);
        assert((2 * d) * binade(n, 2 * d) == d * (2 * binade(n, 2 * d))) by (nonlinear_arith);
        assert(2 * (2 * d) * binade(n, 2 * d) == 2 * d * (2 * binade(n, 2 * d)))
            by (nonlinear_arith);
    }
}

/// A single-precision number lies below twice what it rounds.
proof fn lemma_single_bound(n: nat, d: nat)
    requires
        0 < d <= n,
    ensures
        single(n, d) * d <= 2 * n * 0x80_0000,
{
    lemma_binade_bound(n, d);
    let unit = binade(n, d);
    let whole = n * 0x80_0000;
    let scaled = d * unit;
    let rounded = nearest_even(whole, scaled);
    assert(scaled >= 1) by (nonlinear_arith)
        requires
            scaled == d * unit,
            d >= 1,
            unit >= 1,
    ;
    assert(rounded <= whole / scaled + 1);
    assert(scaled * (whole / scaled) <= whole) by (nonlinear_arith)
        requires
            scaled > 0,
    ;
    assert(rounded * scaled <= whole + scaled) by (nonlinear_arith)
        requires
            rounded <= whole / scaled + 1,
            scaled * (whole / scaled) <= whole,
            scaled > 0,
    ;
    assert(rounded * unit * d == rounded * scaled) by (nonlinear_arith)
        requires
            scaled == d * unit,
    ;
}

/// Computes [`single`].
fn to_single(n: u128, d: u128) -> (r: u128)
    requires
        0 < d <= n,
        n <= 0x1_0000_0000_0000_0000,
    ensures
        r == single(n as nat, d as nat),
{
    let mut unit: u128 = 1;
    let mut scaled: u128 = d;
    while n >= 2 * scaled
        invariant
            0 < d <= scaled <= n <= 0x1_0000_0000_0000_0000,
            1 <= unit <= scaled,
            scaled == d * unit,
            binade(n as nat, d as nat) == unit * binade(n as nat, scaled as nat),
        decreases n - scaled,
    {
        assert(binade(n as nat, scaled as nat) == 2 * binade(n as nat, 2 * scaled as nat));
        assert(d * (2 * unit) == 2 * (d * unit)) by (nonlinear_arith);
        assert(unit * (2 * binade(n as nat, 2 * scaled as nat)) == (2 * unit) * binade(
            n as nat,
            2 * scaled as nat,
        )) by (nonlinear_arith);
        unit = 2 * unit;
        scaled = 2 * scaled;
    }
    proof {
        lemma_single_bound(n as nat, d as nat);
        assert(binade(n as nat, scaled as nat) == 1);
        assert(unit * 1 == unit);
    }
    let whole: u128 = n * 0x80_0000;
    let floor: u128 = whole / scaled;
    let rest: u128 = whole % scaled;
    let rounded: u128 = if 2 * rest < scaled || (2 * rest == scaled && floor % 2 == 0) {
        floor
    } else {
        floor + 1
    };
    assert(rounded == nearest_even(whole as nat, scaled as nat));
    assert(rounded * unit <= single(n as nat, d as nat) * d) by (nonlinear_arith)
        requires
            rounded * unit == single(n as nat, d as nat),
            d >= 1,
    ;
    rounded * unit
}

/// The multiple of 10000 nearest to `num`, as single-precision arithmetic finds
/// it.
pub fn round_to_nearest_10000(num: u32) -> (r: u32)
    ensures
        r == nearest_10000(num),
{
    if num == 0 {
        return 0;
    }
    let exact: u128 = to_single(num as u128, 1);
    proof {
        lemma_single_bound(num as nat, 1);
    }
    let n: u128 = if exact < 5_000 * 0x80_0000 {
        0
    } else if exact < 10_000 * 0x80_0000 {
        1
    } else {
        proof {
            lemma_single_bound(exact as nat, 10_000 * 0x80_0000);
        }
        (to_single(exact, 10_000 * 0x80_0000) + 0x40_0000) / 0x80_0000
    };
    if n == 0 {
        return 0;
    }
    let product: u128 = to_single(n * 10_000, 1) / 0x80_0000;
    if product <= u32::MAX as u128 {
        product as u32
    } else {
        u32::MAX
    }
}

/// The multiple of 10000 nearest to `num`, a tie upwards.
pub open spec fn rounded_10000(num: u32) -> int {
    (num + 5_000) / 10_000 * 10_000
}

/// A rounded fraction is off by half at most, and not at all if it is whole.
proof fn lemma_nearest_even(n: nat, d: nat)
    requires
        d > 0,
    ensures
        2 * (nearest_even(n, d) * d) <= 2 * n + d,
        2 * n <= 2 * (nearest_even(n, d) * d) + d,
        n % d == 0 ==> nearest_even(n, d) * d == n,
{
    let floor = n / d;
    let rest = n % d;
    assert(n == d * floor + rest) by {
        vstd::arithmetic::div_mod::lemma_fundamental_div_mod(n as int, d as int);
    }
    assert(floor * d == d * floor && (floor + 1) * d == d * floor + d) by (nonlinear_arith);
    assert(0 <= rest < d) by (nonlinear_arith)
        requires
            d > 0,
            rest == n % d,
    ;
}

/// A binade is a power of two.
proof fn lemma_binade_is_power(n: nat, d: nat, e: nat) -> (k: nat)
    requires
        0 < d <= n < d * pow2(e + 1),
    ensures
        k <= e,
        binade(n, d) == pow2(k),
    decreases e,
{
    lemma2_to64();
    if n < 2 * d {
        0
    } else {
        if e == 0 {
            assert(d * pow2(1) == 2 * d) by (nonlinear_arith)
                requires
                    pow2(1) == 2,
            ;
        }
        lemma_pow2_unfold(e + 1);
        assert(d * (2 * pow2(e)) == (2 * d) * pow2(e)) by (nonlinear_arith);
        let k = lemma_binade_is_power(n, 2 * d, (e - 1) as nat);
        lemma_pow2_unfold(k + 1);
        k + 1
    }
}

/// Whole numbers of 24 binary digits, and even ones of 25, are single-precision
/// numbers.
proof fn lemma_single_exact(n: nat)
    requires
        0 < n <= 0x100_0000 || (n % 2 == 0 && 0 < n < 0x200_0000),
    ensures
        single(n, 1) == n * 0x80_0000,
{
    lemma2_to64();
    let k = lemma_binade_is_power(n, 1, 24);
    let unit = binade(n, 1);
    lemma_binade_bound(n, 1);
    let whole = n * 0x80_0000;
    if k <= 23 {
        lemma_pow2_adds(k, (23 - k) as nat);
        let times = n * pow2((23 - k) as nat);
        assert(whole == unit * times) by (nonlinear_arith)
            requires
                whole == n * 0x80_0000,
                unit * pow2((23 - k) as nat) == 0x80_0000,
                times == n * pow2((23 - k) as nat),
        ;
        vstd::arithmetic::div_mod::lemma_mod_multiples_basic(times as int, unit as int);
        assert(unit * times == times * unit) by (nonlinear_arith);
        assert(whole % unit == 0);
    } else {
        assert(unit == 0x100_0000);
        assert(n % 2 == 0);
        assert(whole % 0x100_0000 == 0);
    }
    assert(1 * unit == unit);
    lemma_nearest_even(whole, unit);
}

/// The quotient in single precision falls to the right side of each half.
proof fn lemma_quotient_rounds(x: nat)
    requires
        10_000 <= x <= 16_784_998,
    ensures
        (single(x * 0x80_0000, 10_000 * 0x80_0000) + 0x40_0000) / 0x80_0000 == (x + 5_000)
            / 10_000,
{
    lemma2_to64();
    let n = x * 0x80_0000;
    let d: nat = 10_000 * 0x80_0000;
    let k = lemma_binade_is_power(n, d, 10);
    let unit = binade(n, d);
    lemma_pow2_adds(k, (22 - k) as nat);
    lemma_pow2_adds(k, (10 - k) as nat);
    let left = pow2((10 - k) as nat);
    lemma_pow2_pos((10 - k) as nat);
    lemma_pow2_pos(k);
    assert(unit <= 1_024) by (nonlinear_arith)
        requires
            unit * left == 1_024,
            left >= 1,
    ;
    let whole = n * 0x80_0000;
    let scaled = d * unit;
    let near = nearest_even(whole, scaled);
    assert(scaled > 0) by (nonlinear_arith)
        requires
            scaled == d * unit,
            d > 0,
            unit > 0,
    ;
    lemma_nearest_even(whole, scaled);
    let result = near * unit;
    assert(near * scaled == result * d) by (nonlinear_arith)
        requires
            scaled == d * unit,
            result == near * unit,
    ;
    let m = x / 10_000;
    let r = x % 10_000;
    if r == 5_000 {
        let times = (2 * m + 1) * pow2((22 - k) as nat);
        assert(whole == scaled * times) by (nonlinear_arith)
            requires
                whole == x * 0x80_0000 * 0x80_0000,
                x == 5_000 * (2 * m + 1),
                scaled == 10_000 * 0x80_0000 * unit,
                unit * pow2((22 - k) as nat) == 0x40_0000,
                times == (2 * m + 1) * pow2((22 - k) as nat),
        ;
        vstd::arithmetic::div_mod::lemma_mod_multiples_basic(times as int, scaled as int);
        assert(scaled * times == times * scaled) by (nonlinear_arith);
    }
}

/// The result is the multiple of 10000 nearest to `num`, a tie upwards, as long as
/// single precision is precise enough; 16784999 is the first number that it carries
/// past a tie.
pub proof fn law_rounds_to_nearest(num: u32)
    requires
        num < 16_784_999,
    ensures
        nearest_10000(num) == rounded_10000(num),
{
    if num > 0 {
        lemma2_to64();
        let exact = single(num as nat, 1);
        let x: nat = if num <= 0x100_0000 {
            lemma_single_exact(num as nat);
            num as nat
        } else {
            let k = lemma_binade_is_power(num as nat, 1, 24);
            lemma_binade_bound(num as nat, 1);
            assert(binade(num as nat, 1) == 0x100_0000) by {
                if k < 24 {
                    lemma_pow2_strictly_increases(k, 24);
                    lemma_pow2_unfold(k + 1);
                    if k + 1 < 24 {
                        lemma_pow2_strictly_increases(k + 1, 24);
                    }
                }
            }
            let whole = num as nat * 0x80_0000;
            let near = nearest_even(whole, 0x100_0000);
            assert(whole / 0x100_0000 == num as nat / 2);
            assert(whole % 0x100_0000 == (num as nat % 2) * 0x80_0000);
            assert(exact == near * 0x100_0000);
            assert(num % 2 == 0 ==> near * 2 == num);
            assert(num % 2 == 1 ==> near * 2 == num - 1 || near * 2 == num + 1);
            2 * near
        };
        assert(exact == x * 0x80_0000);
        if x >= 10_000 {
            lemma_quotient_rounds(x);
        }
        let n = ten_thousands(num);
        assert(n == (x + 5_000) / 10_000);
        assert(n == (num + 5_000) / 10_000);
        if n > 0 {
            lemma_single_exact(n * 10_000);
        }
    }
}

proof fn lemma_nearest_even_grows(m: nat, n: nat, d: nat)
    requires
        m <= n,
        d > 0,
    ensures
        nearest_even(m, d) <= nearest_even(n, d),
{
    vstd::arithmetic::div_mod::lemma_div_is_ordered(m as int, n as int, d as int);
    vstd::arithmetic::div_mod::lemma_fundamental_div_mod(m as int, d as int);
    vstd::arithmetic::div_mod::lemma_fundamental_div_mod(n as int, d as int);
}

/// A multiple rounds to its factor.
proof fn lemma_nearest_even_multiple(k: nat, d: nat)
    requires
        d > 0,
    ensures
        nearest_even(k * d, d) == k,
{
    vstd::arithmetic::div_mod::lemma_div_multiples_vanish(k as int, d as int);
    vstd::arithmetic::div_mod::lemma_mod_multiples_basic(k as int, d as int);
    assert(k * d == d * k) by (nonlinear_arith);
}

proof fn lemma_binade_grows(m: nat, n: nat, d: nat)
    requires
        0 < d <= m <= n,
    ensures
        binade(m, d) == binade(n, d) || 2 * binade(m, d) <= binade(n, d),
    decreases n - d,
{
    if m >= 2 * d {
        lemma_binade_grows(m, n, 2 * d);
    } else if n >= 2 * d {
        lemma_binade_bound(n, 2 * d);
    }
}

proof fn lemma_single_grows(m: nat, n: nat, d: nat)
    requires
        0 < d <= m <= n,
    ensures
        single(m, d) <= single(n, d),
{
    lemma_binade_bound(m, d);
    lemma_binade_bound(n, d);
    lemma_binade_grows(m, n, d);
    let low = binade(m, d);
    let high = binade(n, d);
    let low_unit = d * low;
    let high_unit = d * high;
    assert(low_unit > 0 && high_unit > 0) by (nonlinear_arith)
        requires
            low_unit == d * low,
            high_unit == d * high,
            d > 0,
            low >= 1,
            high >= 1,
    ;
    let less = nearest_even(m * 0x80_0000, low_unit);
    let more = nearest_even(n * 0x80_0000, high_unit);
    if low == high {
        lemma_nearest_even_grows(m * 0x80_0000, n * 0x80_0000, low_unit);
        assert(less * low <= more * high) by (nonlinear_arith)
            requires
                less <= more,
                low == high,
        ;
    } else {
        assert(m < 2 * low_unit) by (nonlinear_arith)
            requires
                m < 2 * d * low,
                low_unit == d * low,
        ;
        lemma_nearest_even_grows(m * 0x80_0000, 0x100_0000 * low_unit, low_unit);
        lemma_nearest_even_multiple(0x100_0000, low_unit);
        lemma_nearest_even_grows(0x80_0000 * high_unit, n * 0x80_0000, high_unit);
        lemma_nearest_even_multiple(0x80_0000, high_unit);
        assert(less * low <= more * high) by (nonlinear_arith)
            requires
                less <= 0x100_0000,
                more >= 0x80_0000,
                2 * low <= high,
        ;
    }
}

proof fn lemma_ten_thousands_grow(a: u32, b: u32)
    requires
        a <= b,
    ensures
        ten_thousands(a) <= ten_thousands(b),
{
    if a > 0 {
        let small = single(a as nat, 1);
        let large = single(b as nat, 1);
        lemma_single_grows(a as nat, b as nat, 1);
        let d: nat = 10_000 * 0x80_0000;
        if large >= d {
            lemma_single_grows(d, large, d);
            assert(single(d, d) == 0x80_0000) by {
                lemma_nearest_even_multiple(0x80_0000, d);
            }
            if small >= d {
                lemma_single_grows(small, large, d);
            }
        }
    }
}

/// Of two numbers the smaller one is never rounded to more than the larger one.
pub proof fn law_rounding_keeps_order(a: u32, b: u32)
    requires
        a <= b,
    ensures
        nearest_10000(a) <= nearest_10000(b),
{
    lemma_ten_thousands_grow(a, b);
    if ten_thousands(a) > 0 {
        lemma_single_grows(ten_thousands(a) * 10_000, ten_thousands(b) * 10_000, 1);
    }
}

/// The milliseconds from `start` to a reading are whole ones: so many have passed and the
/// next one has not, as long as 64 bits hold them. There are some exactly if `start` does
/// not lie ahead of the reading.
pub proof fn law_whole_milliseconds(start: UnixTime, now: UnixTime)
    ensures
        millis_at(start, None) is None,
        millis_at(start, Some(now)) is Some <==> start.secs * 1_000_000_000 + start.nanos
            <= now.secs * 1_000_000_000 + now.nanos,
        millis_at(start, Some(now)) matches Some(millis) ==> {
            let passed = (now.secs - start.secs) * 1_000_000_000 + now.nanos - start.nanos;
            passed < 0x1_0000_0000_0000_0000 * 1_000_000 ==> millis * 1_000_000 <= passed < (millis
                + 1) * 1_000_000
        },
{
}

/// A single-precision number is off by half a unit of its last digit at most.
proof fn lemma_single_close(n: nat, d: nat)
    requires
        0 < d <= n,
    ensures
        2 * (single(n, d) * d) <= 2 * (n * 0x80_0000) + n,
        2 * (n * 0x80_0000) <= 2 * (single(n, d) * d) + n,
{
    lemma_binade_bound(n, d);
    let unit = binade(n, d);
    let scaled = d * unit;
    let rounded = nearest_even(n * 0x80_0000, scaled);
    assert(scaled >= 1) by (nonlinear_arith)
        requires
            scaled == d * unit,
            d >= 1,
            unit >= 1,
    ;
    lemma_nearest_even(n * 0x80_0000, scaled);
    assert(rounded * unit * d == rounded * scaled) by (nonlinear_arith)
        requires
            scaled == d * unit,
    ;
}

/// Whatever the number, it is rounded to one near it: half of 10000 away, and what single
/// precision loses, which is no more than 800.
pub proof fn law_rounding_stays_close(num: u32)
    ensures
        nearest_10000(num) <= num + 5_800,
        num <= nearest_10000(num) + 5_800,
{
    if num > 0 {
        let exact = single(num as nat, 1);
        lemma_single_close(num as nat, 1);
        let d: nat = 10_000 * 0x80_0000;
        if exact >= d {
            lemma_single_close(exact, d);
        }
        let n = ten_thousands(num);
        if n > 0 {
            lemma_single_close(n * 10_000, 1);
        }
    }
}

} // verus!
