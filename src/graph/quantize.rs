//! Range and ratio of a series, and the level each sample falls on.
//!
//! Samples are fixed-point numbers: a sample `x` stands for the value `x / SAMPLE_SCALE`.
//! Levels are scale-free except for a constant series, whose ratio is one level per unit.
use vstd::prelude::*;

verus! {

/// How many sample steps make one unit of value.
pub const SAMPLE_SCALE: i64 = 1000;

/// Levels per sample step, as the fraction `num / den`.
#[derive(Eq, PartialEq, Structural, Copy, Clone, Debug)]
pub struct Ratio {
    pub num: i128,
    pub den: i128,
}

/// The smaller of two optional bounds, ignoring a missing one.
pub open spec fn lower(a: Option<i64>, b: Option<i64>) -> Option<i64> {
    match (a, b) {
        (None, _) => b,
        (_, None) => a,
        (Some(x), Some(y)) => Some(if x <= y { x } else { y }),
    }
}

/// The larger of two optional bounds, ignoring a missing one.
pub open spec fn upper(a: Option<i64>, b: Option<i64>) -> Option<i64> {
    match (a, b) {
        (None, _) => b,
        (_, None) => a,
        (Some(x), Some(y)) => Some(if x >= y { x } else { y }),
    }
}

/// The least present sample, or `None` when no sample is present.
pub open spec fn series_min(values: Seq<Option<i64>>) -> Option<i64>
    decreases values.len(),
{
    if values.len() == 0 {
        None
    } else {
        lower(series_min(values.drop_last()), values.last())
    }
}

/// The greatest present sample, or `None` when no sample is present.
pub open spec fn series_max(values: Seq<Option<i64>>) -> Option<i64>
    decreases values.len(),
{
    if values.len() == 0 {
        None
    } else {
        upper(series_max(values.drop_last()), values.last())
    }
}

/// `levels / (max - min)`, or one level per unit of value when `max == min`.
pub open spec fn ratio_for(min: i64, max: i64, levels: u32) -> Ratio {
    if min == max {
        Ratio { num: 1, den: SAMPLE_SCALE as i128 }
    } else {
        Ratio { num: levels as i128, den: (max - min) as i128 }
    }
}

/// The ratio is one level per unit of value.
pub open spec fn is_unit_ratio(r: Ratio) -> bool {
    r.num * SAMPLE_SCALE == r.den
}

/// A ratio that `bucket` accepts.
pub open spec fn ratio_ok(r: Ratio) -> bool {
    0 <= r.num <= u32::MAX && 0 < r.den <= u64::MAX
}

/// `floor((x - min) * ratio)`: the level of sample `x`.
pub open spec fn level(x: int, min: int, r: Ratio) -> int {
    ((x - min) * r.num) / (r.den as int)
}

/// Some position of the series holds a sample.
pub open spec fn present(values: Seq<Option<i64>>) -> bool {
    exists|i: int| 0 <= i < values.len() && (#[trigger] values[i]) is Some
}

proof fn lemma_take_last<A>(s: Seq<A>, i: int)
    requires
        0 <= i < s.len(),
    ensures
        s.take(i + 1).drop_last() == s.take(i),
        s.take(i + 1).last() == s[i],
{
    assert(s.take(i + 1).drop_last() =~= s.take(i));
}

/// The bounds of a series hold every present sample, are present samples themselves,
/// and are missing only when no sample is present.
pub proof fn lemma_series_bounds(values: Seq<Option<i64>>)
    ensures
        series_min(values) is Some <==> present(values),
        series_max(values) is Some <==> present(values),
        present(values) ==> series_min(values).unwrap() <= series_max(values).unwrap(),
        forall|i: int|
            0 <= i < values.len() && (#[trigger] values[i]) is Some ==> series_min(values).unwrap()
                <= values[i].unwrap() <= series_max(values).unwrap(),
        present(values) ==> exists|i: int|
            0 <= i < values.len() && #[trigger] values[i] == series_min(values),
        present(values) ==> exists|i: int|
            0 <= i < values.len() && #[trigger] values[i] == series_max(values),
    decreases values.len(),
{
    if values.len() > 0 {
        let rest = values.drop_last();
        lemma_series_bounds(rest);
        let n = values.len() - 1;
        assert forall|i: int| 0 <= i < n implies values[i] == #[trigger] rest[i] by {}
        if present(rest) {
            let j = choose|i: int| 0 <= i < rest.len() && (#[trigger] rest[i]) is Some;
            assert(values[j] is Some);
            let a = choose|i: int| 0 <= i < rest.len() && #[trigger] rest[i] == series_min(rest);
            let b = choose|i: int| 0 <= i < rest.len() && #[trigger] rest[i] == series_max(rest);
            assert(values[a] == rest[a]);
            assert(values[b] == rest[b]);
        }
        if values[n] is Some {
            assert(present(values));
        }
        assert forall|i: int| 0 <= i < values.len() && (#[trigger] values[i]) is Some implies series_min(
            values,
        ).unwrap() <= values[i].unwrap() <= series_max(values).unwrap() by {
            if i < n {
                assert(rest[i] is Some);
            }
        }
        if present(values) && !present(rest) {
            assert(values[n] is Some) by {
                let j = choose|i: int| 0 <= i < values.len() && (#[trigger] values[i]) is Some;
                if j < n {
                    assert(rest[j] is Some);
                }
            }
        }
    }
}

/// Floor division of `n` by a positive `d`.
fn floor_div(n: i128, d: i128) -> (r: i128)
    requires
        0 < d <= 0x1_0000_0000_0000_0000,
        -0x1_0000_0000_0000_0000_0000_0000 <= n <= 0x1_0000_0000_0000_0000_0000_0000,
    ensures
        r as int == n as int / d as int,
{
    if n >= 0 {
        n / d
    } else {
        let m: i128 = -n;
        let q: i128 = (m + d - 1) / d;
        proof {
            let qi = q as int;
            let mi = m as int;
            let di = d as int;
            assert(qi * di <= mi + di - 1 < qi * di + di) by (nonlinear_arith)
                requires
                    qi == (mi + di - 1) / di,
                    di > 0,
            ;
            assert(-qi * di <= n < -qi * di + di) by (nonlinear_arith)
                requires
                    qi * di <= mi + di - 1 < qi * di + di,
                    mi == -(n as int),
                    di > 0,
            ;
            assert((-qi) * di == -(qi * di)) by (nonlinear_arith);
            vstd::arithmetic::div_mod::lemma_fundamental_div_mod_converse_div(
                n as int,
                di,
                -qi,
                n as int + qi * di,
            );
        }
        -q
    }
}

/// The level of sample `x` in a series whose least sample is `min`.
pub fn bucket(x: i64, min: i64, ratio: Ratio) -> (r: i128)
    requires
        ratio_ok(ratio),
    ensures
        r as int == level(x as int, min as int, ratio),
{
    let diff: i128 = x as i128 - min as i128;
    assert(-0x1_0000_0000_0000_0000 < diff < 0x1_0000_0000_0000_0000);
    assert(-0x1_0000_0000_0000_0000_0000_0000 <= diff * ratio.num <= 0x1_0000_0000_0000_0000_0000_0000)
        by (nonlinear_arith)
        requires
            -0x1_0000_0000_0000_0000 < diff < 0x1_0000_0000_0000_0000,
            0 <= ratio.num <= 0xffff_ffff,
    ;
    let product: i128 = diff * ratio.num;
    floor_div(product, ratio.den)
}

/// The least and greatest present samples of `values`, and the ratio that spreads that
/// range over `size` levels; `None` when no sample is present.
pub fn calculate_min_max_and_ratio(values: &[Option<i64>], size: u32) -> (r: Option<(i64, i64, Ratio)>)
    ensures
        r is None <==> !present(values@),
        r is Some ==> {
            &&& series_min(values@) == Some(r.unwrap().0)
            &&& series_max(values@) == Some(r.unwrap().1)
            &&& r.unwrap().2 == ratio_for(r.unwrap().0, r.unwrap().1, size)
            &&& ratio_ok(r.unwrap().2)
        },
{
    let mut min: Option<i64> = None;
    let mut max: Option<i64> = None;
    let mut i: usize = 0;
    while i < values.len()
        invariant
            i <= values@.len(),
            min == series_min(values@.take(i as int)),
            max == series_max(values@.take(i as int)),
        decreases values@.len() - i,
    {
        proof {
            lemma_take_last(values@, i as int);
        }
        if let Some(x) = values[i] {
            min = match min {
                None => Some(x),
                Some(m) => Some(if x <= m { x } else { m }),
            };
            max = match max {
                None => Some(x),
                Some(m) => Some(if x >= m { x } else { m }),
            };
        }
        i = i + 1;
    }
    proof {
        assert(values@.take(values@.len() as int) =~= values@);
        lemma_series_bounds(values@);
    }
    match (min, max) {
        (Some(lo), Some(hi)) => {
            let ratio = if lo == hi {
                Ratio { num: 1, den: SAMPLE_SCALE as i128 }
            } else {
                Ratio { num: size as i128, den: hi as i128 - lo as i128 }
            };
            Some((lo, hi, ratio))
        },
        _ => None,
    }
}

/// A series whose samples are all present and equal has that sample as both bounds, a
/// ratio of one level per unit, and every sample on level zero, whatever the level count.
pub proof fn lemma_constant_series(values: Seq<Option<i64>>, c: i64, size: u32)
    requires
        values.len() > 0,
        forall|i: int| 0 <= i < values.len() ==> #[trigger] values[i] == Some(c),
    ensures
        series_min(values) == Some(c),
        series_max(values) == Some(c),
        is_unit_ratio(ratio_for(c, c, size)),
        forall|i: int|
            0 <= i < values.len() ==> level(
                (#[trigger] values[i]).unwrap() as int,
                c as int,
                ratio_for(c, c, size),
            ) == 0,
{
    lemma_series_bounds(values);
    assert(values[0] is Some);
    let a = choose|i: int| 0 <= i < values.len() && #[trigger] values[i] == series_min(values);
    let b = choose|i: int| 0 <= i < values.len() && #[trigger] values[i] == series_max(values);
    assert(values[a] == Some(c));
    assert(values[b] == Some(c));
}

} // verus!
