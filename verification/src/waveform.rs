//! Waveform visualization: the outline of the filled envelope of a sample.

use crate::rounding::{
    divide_to, lemma_lift, lemma_round_at_most, lemma_round_bounds, lemma_rounded_at_most,
    lemma_rounded_exact, lemma_rounded_representable, lemma_unit, lift, quotient, round_half_even,
    round_to, rounded, unit, DOUBLE,
};
use vstd::prelude::*;

verus! {

/// The number of points that a waveform is displayed with.
pub const WAVEFORM_POINTS: usize = 1000;

/// Where a vertex of the outline lies from left to right.
#[derive(Clone, Copy, Debug, PartialEq, Eq, Structural)]
pub enum Abscissa {
    /// The left edge of the display.
    Left,
    /// The point `index` of `count` points spread evenly from edge to edge.
    Point { index: usize, count: usize },
    /// The right edge of the display.
    Right,
}

/// A vertex of the outline. `value` is the sample value that it stands at:
/// the largest one at the top of the display, the smallest one at the bottom.
#[derive(Clone, Copy, Debug, PartialEq, Eq, Structural)]
pub struct Vertex {
    pub x: Abscissa,
    pub value: i16,
}

/// The closed path that shows a sample.
#[derive(Debug)]
pub enum WaveformPath {
    /// There are no samples: a line through the center.
    Flat,
    /// The vertices in drawing order; the last one is joined to the first.
    Outline(Vec<Vertex>),
}

/// The number of points that an envelope is drawn with.
pub open spec fn point_count(num_points: usize) -> usize {
    if num_points < 2 {
        2
    } else {
        num_points
    }
}

/// The sample at the center of point `i` of `count`: the fraction
/// `i / (count - 1)` of the way to the last of `len` samples, each operation
/// rounded to double precision, the result cut off to an index.
pub open spec fn center_index(i: nat, count: nat, len: nat) -> nat {
    let done = rounded(i, DOUBLE as nat);
    let all = rounded((count - 1) as nat, DOUBLE as nat);
    let last = rounded((len - 1) as nat, DOUBLE as nat);
    let product = rounded(quotient(done, all, DOUBLE as nat) * last, DOUBLE as nat);
    let index = product / lift(done, all, DOUBLE as nat);
    if index > usize::MAX {
        usize::MAX as nat
    } else {
        index
    }
}

/// The number of samples that one of `count` points stands for.
pub open spec fn window_size(count: nat, len: nat) -> nat {
    if len / count < 1 {
        1
    } else {
        len / count
    }
}

/// The first sample of the window of point `i`.
pub open spec fn window_start(i: nat, count: nat, len: nat) -> nat {
    let center = center_index(i, count, len);
    let half = window_size(count, len) / 2;
    if center < half {
        0
    } else {
        (center - half) as nat
    }
}

/// One past the last sample of the window of point `i`.
pub open spec fn window_end(i: nat, count: nat, len: nat) -> nat {
    let end = window_start(i, count, len) + window_size(count, len);
    if end > len {
        len
    } else {
        end
    }
}

/// The samples that point `i` of `count` stands for.
pub open spec fn window(samples: Seq<i16>, i: nat, count: nat) -> Seq<i16> {
    let start = window_start(i, count, samples.len());
    let end = window_end(i, count, samples.len());
    if start <= end {
        samples.subrange(start as int, end as int)
    } else {
        Seq::empty()
    }
}

/// The smallest of some samples; the largest `i16` if there are none.
pub open spec fn lowest(s: Seq<i16>) -> i16
    decreases s.len(),
{
    if s.len() == 0 {
        i16::MAX
    } else if s.last() < lowest(s.drop_last()) {
        s.last()
    } else {
        lowest(s.drop_last())
    }
}

/// The largest of some samples; the smallest `i16` if there are none.
pub open spec fn highest(s: Seq<i16>) -> i16
    decreases s.len(),
{
    if s.len() == 0 {
        i16::MIN
    } else if s.last() > highest(s.drop_last()) {
        s.last()
    } else {
        highest(s.drop_last())
    }
}

/// The vertex at the top of point `i`.
pub open spec fn upper_vertex(samples: Seq<i16>, i: int, count: usize) -> Vertex {
    Vertex {
        x: Abscissa::Point { index: i as usize, count },
        value: highest(window(samples, i as nat, count as nat)),
    }
}

/// The vertex at the bottom of point `i`.
pub open spec fn lower_vertex(samples: Seq<i16>, i: int, count: usize) -> Vertex {
    Vertex {
        x: Abscissa::Point { index: i as usize, count },
        value: lowest(window(samples, i as nat, count as nat)),
    }
}

/// The outline of an envelope: from the left edge along the upper side, down
/// the right edge, and back along the lower side.
pub open spec fn outline(samples: Seq<i16>, count: usize) -> Seq<Vertex> {
    let upper = Seq::new(count as nat, |i: int| upper_vertex(samples, i, count));
    let lower = Seq::new(count as nat, |i: int| lower_vertex(samples, count - 1 - i, count));
    seq![Vertex { x: Abscissa::Left, value: upper.first().value }] + upper + seq![
        Vertex { x: Abscissa::Right, value: upper.last().value },
        Vertex { x: Abscissa::Right, value: lower.first().value },
    ] + lower + seq![Vertex { x: Abscissa::Left, value: lower.last().value }]
}

/// Computes [`center_index`].
fn find_center(i: usize, count: usize, len: usize) -> (r: usize)
    requires
        i < count,
        count >= 2,
        len >= 1,
    ensures
        r == center_index(i as nat, count as nat, len as nat),
{
    let done: u128 = round_to(i as u128, DOUBLE);
    let all: u128 = round_to((count - 1) as u128, DOUBLE);
    let last: u128 = round_to((len - 1) as u128, DOUBLE);
    assert(done < all * DOUBLE) by (nonlinear_arith)
        requires
            2 * done <= 3 * i,
            i <= count - 1,
            count - 1 <= 2 * all,
            count >= 2,
    ;
    let (fraction, scale) = divide_to(done, all, DOUBLE);
    assert(fraction * last <= 0x100_0000_0000_0000_0000_0000_0000_0000 - 1) by (nonlinear_arith)
        requires
            0 <= fraction <= 0x20_0000_0000_0000,
            0 <= last <= 0x2_0000_0000_0000_0000,
    ;
    let product: u128 = round_to(fraction * last, DOUBLE);
    let index: u128 = product / scale;
    if index > usize::MAX as u128 {
        usize::MAX
    } else {
        index as usize
    }
}

/// The smallest and the largest of the samples from `start` up to `end`.
fn find_extremes(samples: &[i16], start: usize, end: usize) -> (r: (i16, i16))
    requires
        end <= samples@.len(),
    ensures
        start <= end ==> r.0 == lowest(samples@.subrange(start as int, end as int)),
        start <= end ==> r.1 == highest(samples@.subrange(start as int, end as int)),
        start > end ==> r.0 == i16::MAX && r.1 == i16::MIN,
{
    let mut min_val: i16 = i16::MAX;
    let mut max_val: i16 = i16::MIN;
    let mut j: usize = start;
    while j < end
        invariant
            end <= samples@.len(),
            start <= j,
            start <= end ==> j <= end,
            j > end ==> j == start,
            start <= end ==> min_val == lowest(samples@.subrange(start as int, j as int)),
            start <= end ==> max_val == highest(samples@.subrange(start as int, j as int)),
            start > end ==> min_val == i16::MAX && max_val == i16::MIN,
        decreases end - j,
    {
        let s: i16 = samples[j];
        proof {
            let next = samples@.subrange(start as int, j + 1);
            assert(next.drop_last() =~= samples@.subrange(start as int, j as int));
            assert(next.last() == s);
        }
        if s < min_val {
            min_val = s;
        }
        if s > max_val {
            max_val = s;
        }
        j = j + 1;
    }
    (min_val, max_val)
}

/// Generate the path of a waveform display (envelope style): at each point the
/// smallest and the largest of the samples around it, as a filled shape.
pub fn generate_waveform_path(samples: &[i16], num_points: usize) -> (r: WaveformPath)
    ensures
        r is Flat <==> samples@.len() == 0,
        r matches WaveformPath::Outline(vertices) ==> vertices@ == outline(
            samples@,
            point_count(num_points),
        ),
{
    if samples.len() == 0 {
        return WaveformPath::Flat;
    }
    let count: usize = if num_points < 2 {
        2
    } else {
        num_points
    };
    let len: usize = samples.len();
    let window_size: usize = if len / count < 1 {
        1
    } else {
        len / count
    };
    let mut upper: Vec<i16> = Vec::new();
    let mut lower: Vec<i16> = Vec::new();
    let mut i: usize = 0;
    while i < count
        invariant
            count == point_count(num_points),
            len == samples@.len(),
            len > 0,
            window_size == self::window_size(count as nat, len as nat),
            i <= count,
            upper@.len() == i,
            lower@.len() == i,
            forall|k: int|
                0 <= k < i ==> upper@[k] == #[trigger] upper_vertex(samples@, k, count).value,
            forall|k: int|
                0 <= k < i ==> lower@[k] == #[trigger] lower_vertex(samples@, k, count).value,
        decreases count - i,
    {
        let center: usize = find_center(i, count, len);
        let start: usize = center.saturating_sub(window_size / 2);
        let end: usize = if len < window_size || start > len - window_size {
            len
        } else {
            start + window_size
        };
        let (min_val, max_val) = find_extremes(samples, start, end);
        upper.push(max_val);
        lower.push(min_val);
        i = i + 1;
    }
    let mut path: Vec<Vertex> = Vec::new();
    path.push(Vertex { x: Abscissa::Left, value: upper[0] });
    let ghost up = Seq::new(count as nat, |k: int| upper_vertex(samples@, k, count));
    let ghost low = Seq::new(count as nat, |k: int| lower_vertex(samples@, count - 1 - k, count));
    let ghost head = path@;
    proof {
        assert forall|k: int| 0 <= k < count implies #[trigger] up[k] == (Vertex {
            x: Abscissa::Point { index: k as usize, count },
            value: upper@[k],
        }) by {
            assert(upper@[k] == upper_vertex(samples@, k, count).value);
        }
        assert forall|k: int| 0 <= k < count implies #[trigger] low[k] == (Vertex {
            x: Abscissa::Point { index: (count - 1 - k) as usize, count },
            value: lower@[count - 1 - k],
        }) by {
            assert(lower@[count - 1 - k] == lower_vertex(samples@, count - 1 - k, count).value);
        }
    }
    i = 0;
    while i < count
        invariant
            i <= count,
            count == upper@.len(),
            up.len() == count,
            forall|k: int| 0 <= k < count ==> #[trigger] up[k] == (Vertex {
                x: Abscissa::Point { index: k as usize, count },
                value: upper@[k],
            }),
            path@ == head + up.take(i as int),
        decreases count - i,
    {
        assert(up.take(i + 1) =~= up.take(i as int).push(up[i as int]));
        path.push(Vertex { x: Abscissa::Point { index: i, count }, value: upper[i] });
        i = i + 1;
    }
    path.push(Vertex { x: Abscissa::Right, value: upper[count - 1] });
    path.push(Vertex { x: Abscissa::Right, value: lower[count - 1] });
    let ghost head = path@;
    i = 0;
    while i < count
        invariant
            i <= count,
            count == lower@.len(),
            low.len() == count,
            forall|k: int| 0 <= k < count ==> #[trigger] low[k] == (Vertex {
                x: Abscissa::Point { index: (count - 1 - k) as usize, count },
                value: lower@[count - 1 - k],
            }),
            path@ == head + low.take(i as int),
        decreases count - i,
    {
        assert(low.take(i + 1) =~= low.take(i as int).push(low[i as int]));
        let index: usize = count - 1 - i;
        path.push(Vertex { x: Abscissa::Point { index, count }, value: lower[index] });
        i = i + 1;
    }
    path.push(Vertex { x: Abscissa::Left, value: lower[0] });
    assert(up.take(count as int) =~= up);
    assert(low.take(count as int) =~= low);
    assert(path@ =~= outline(samples@, count));
    WaveformPath::Outline(path)
}

/// No point is centered past the last sample.
pub proof fn law_center_in_range(i: nat, count: nat, len: nat)
    requires
        i < count,
        2 <= count <= DOUBLE,
        1 <= len <= DOUBLE,
    ensures
        center_index(i, count, len) < len,
{
    let limit = DOUBLE as nat;
    let all = (count - 1) as nat;
    let last = (len - 1) as nat;
    lemma_rounded_exact(i, limit);
    lemma_rounded_exact(all, limit);
    lemma_rounded_exact(last, limit);
    let u = lift(i, all, limit);
    let fraction = quotient(i, all, limit);
    if i == 0 {
        assert(u == 1);
        lemma_round_at_most(0, all, 0);
        assert(fraction * last == 0) by (nonlinear_arith)
            requires
                fraction == 0,
        ;
        lemma_rounded_exact(0, limit);
    } else {
        assert(i < all * limit) by (nonlinear_arith)
            requires
                i <= all,
                limit > 1,
                all >= 1,
        ;
        lemma_lift(i, all, limit);
        assert(i * u <= u * all) by (nonlinear_arith)
            requires
                i <= all,
        ;
        lemma_round_at_most(i * u, all, u);
        assert(fraction * last <= last * u) by (nonlinear_arith)
            requires
                fraction <= u,
        ;
        lemma_rounded_at_most(fraction * last, last, u, limit);
        let product = rounded(fraction * last, limit);
        assert(product / u <= last) by (nonlinear_arith)
            requires
                product <= last * u,
                u > 0,
        ;
    }
}

/// The first point is centered on the first sample and the last point on the
/// last sample.
pub proof fn law_center_at_edges(count: nat, len: nat)
    requires
        2 <= count <= DOUBLE,
        1 <= len <= DOUBLE,
        len <= usize::MAX,
    ensures
        center_index(0, count, len) == 0,
        center_index((count - 1) as nat, count, len) == len - 1,
{
    let limit = DOUBLE as nat;
    let all = (count - 1) as nat;
    let last = (len - 1) as nat;
    lemma_rounded_exact(0, limit);
    lemma_rounded_exact(all, limit);
    lemma_rounded_exact(last, limit);
    lemma_round_at_most(0, all, 0);
    assert(lift(0, all, limit) == 1);
    let none = quotient(0, all, limit);
    assert(none * last == 0) by (nonlinear_arith)
        requires
            none == 0,
    ;
    let u = lift(all, all, limit);
    assert(all < all * limit) by (nonlinear_arith)
        requires
            limit > 1,
            all >= 1,
    ;
    lemma_lift(all, all, limit);
    assert(all * u == u * all) by (nonlinear_arith);
    vstd::arithmetic::div_mod::lemma_fundamental_div_mod_converse(
        (all * u) as int,
        all as int,
        u as int,
        0,
    );
    assert(quotient(all, all, limit) == u);
    assert(u * last == last * u) by (nonlinear_arith);
    lemma_rounded_representable(last, u, limit);
    vstd::arithmetic::div_mod::lemma_fundamental_div_mod_converse(
        (last * u) as int,
        u as int,
        last as int,
        0,
    );
}

/// Every point stands for at least one sample.
pub proof fn law_window_not_empty(i: nat, count: nat, len: nat)
    requires
        i < count,
        2 <= count <= DOUBLE,
        1 <= len <= DOUBLE,
    ensures
        window_start(i, count, len) < window_end(i, count, len) <= len,
{
    law_center_in_range(i, count, len);
}

/// The smallest and the largest of some samples are among them and enclose
/// them all.
pub proof fn law_extremes(s: Seq<i16>)
    requires
        s.len() > 0,
    ensures
        s.contains(lowest(s)),
        s.contains(highest(s)),
        forall|k: int| 0 <= k < s.len() ==> lowest(s) <= #[trigger] s[k] <= highest(s),
    decreases s.len(),
{
    let front = s.drop_last();
    if front.len() == 0 {
        assert(lowest(front) == i16::MAX && highest(front) == i16::MIN);
        assert(s[0] == s.last());
        assert(s.contains(s[0]));
    } else {
        law_extremes(front);
        let lo = choose|k: int| 0 <= k < front.len() && front[k] == lowest(front);
        let hi = choose|k: int| 0 <= k < front.len() && front[k] == highest(front);
        assert(s[lo] == lowest(front));
        assert(s[hi] == highest(front));
        assert(s[s.len() - 1] == s.last());
        assert forall|k: int| 0 <= k < s.len() implies lowest(s) <= #[trigger] s[k] <= highest(
            s,
        ) by {
            if k < front.len() {
                assert(s[k] == front[k]);
            }
        }
    }
}

/// The upper side of an envelope is nowhere below the lower side, and both
/// sides show values that occur in the sample.
pub proof fn law_envelope_is_filled(samples: Seq<i16>, i: nat, count: usize)
    requires
        i < count,
        2 <= count <= DOUBLE,
        1 <= samples.len() <= DOUBLE,
    ensures
        lower_vertex(samples, i as int, count).value <= upper_vertex(samples, i as int, count).value,
        samples.contains(lower_vertex(samples, i as int, count).value),
        samples.contains(upper_vertex(samples, i as int, count).value),
{
    law_window_not_empty(i, count as nat, samples.len());
    let start = window_start(i, count as nat, samples.len());
    let w = window(samples, i, count as nat);
    law_extremes(w);
    let lo = choose|k: int| 0 <= k < w.len() && w[k] == lowest(w);
    let hi = choose|k: int| 0 <= k < w.len() && w[k] == highest(w);
    assert(samples[start + lo] == lowest(w));
    assert(samples[start + hi] == highest(w));
    assert(lowest(w) <= w[0] <= highest(w));
}

/// An outline starts and ends at the left edge, turns at the right edge, and
/// passes each point once above and once below.
pub proof fn law_outline_turns_back(samples: Seq<i16>, count: usize, i: int)
    requires
        count >= 2,
        0 <= i < count,
    ensures
        outline(samples, count).len() == 2 * count + 4,
        outline(samples, count).first().x == Abscissa::Left,
        outline(samples, count).last().x == Abscissa::Left,
        outline(samples, count)[count + 1].x == Abscissa::Right,
        outline(samples, count)[count + 2].x == Abscissa::Right,
        outline(samples, count)[1 + i] == upper_vertex(samples, i, count),
        outline(samples, count)[2 * count + 2 - i] == lower_vertex(samples, i, count),
{
}

/// Every point is centered where it lies: `i / (count - 1)` of the way to the
/// last sample, up to less than one sample before that place and never after it.
pub proof fn law_center_is_in_place(i: nat, count: nat, len: nat)
    requires
        i < count,
        count >= 2,
        1 <= len <= usize::MAX,
        len * count <= 0x4_0000_0000_0000,
    ensures
        center_index(i, count, len) * (count - 1) <= i * (len - 1),
        i * (len - 1) <= (center_index(i, count, len) + 1) * (count - 1),
{
    let limit = DOUBLE as nat;
    let all = (count - 1) as nat;
    let last = (len - 1) as nat;
    assert(len <= 0x4_0000_0000_0000 && count <= 0x4_0000_0000_0000) by (nonlinear_arith)
        requires
            len * count <= 0x4_0000_0000_0000,
            len >= 1,
            count >= 2,
    ;
    lemma_rounded_exact(i, limit);
    lemma_rounded_exact(all, limit);
    lemma_rounded_exact(last, limit);
    if i == 0 {
        law_center_at_edges(count, len);
        assert(0 * last == 0 && 0 * all == 0);
        assert((0 + 1) * all >= 0);
    } else {
        law_center_in_range(i, count, len);
        let u = lift(i, all, limit);
        let f = quotient(i, all, limit);
        assert(i < all * limit) by (nonlinear_arith)
            requires
                i <= all,
                limit > 1,
                all >= 1,
        ;
        lemma_lift(i, all, limit);
        assert(2 * u >= limit) by (nonlinear_arith)
            requires
                2 * (i * u) >= all * limit,
                0 < i <= all,
        ;
        assert(i * u <= u * all) by (nonlinear_arith)
            requires
                i <= all,
        ;
        lemma_round_at_most(i * u, all, u);
        lemma_round_bounds(i * u, all);
        let n = f * last;
        let w = unit(n, limit);
        lemma_unit(n, limit);
        lemma_round_bounds(n, w);
        let p = rounded(n, limit);
        assert(w * round_half_even(n, w) == p) by (nonlinear_arith)
            requires
                p == round_half_even(n, w) * w,
        ;
        let c = p / u;
        vstd::arithmetic::div_mod::lemma_fundamental_div_mod(p as int, u as int);
        assert(c == center_index(i, count, len));
        let al = all * last;
        assert(al <= 0x4_0000_0000_0000) by (nonlinear_arith)
            requires
                al == all * last,
                all <= count,
                last <= len,
                len * count <= 0x4_0000_0000_0000,
        ;
        let aw = all * w;
        // The error of the product is less than an eighth of the scale.
        assert(4 * aw <= u + 4 * all) by {
            if w > 1 {
                assert(n <= u * last) by (nonlinear_arith)
                    requires
                        n == f * last,
                        f <= u,
                ;
                assert(limit * aw <= 2 * (u * al)) by (nonlinear_arith)
                    requires
                        limit * w <= 2 * n,
                        n <= u * last,
                        aw == all * w,
                        al == all * last,
                ;
                assert(4 * aw <= u) by (nonlinear_arith)
                    requires
                        0x20_0000_0000_0000 * aw <= 2 * (u * al),
                        al <= 0x4_0000_0000_0000,
                ;
            } else {
                assert(w == 1);
                assert(aw == all);
            }
        }
        // In units of `all` times the scale: where the point lies, and what
        // was computed.
        let exact = (i * last) * u;
        let computed = p * all;
        assert(2 * computed <= 2 * exact + al + aw) by (nonlinear_arith)
            requires
                computed == p * all,
                exact == (i * last) * u,
                al == all * last,
                aw == all * w,
                n == f * last,
                2 * p <= 2 * n + w,
                2 * (all * f) <= 2 * (i * u) + all,
        ;
        assert(2 * exact <= 2 * computed + al + aw) by (nonlinear_arith)
            requires
                computed == p * all,
                exact == (i * last) * u,
                al == all * last,
                aw == all * w,
                n == f * last,
                2 * n <= 2 * p + w,
                2 * (i * u) <= 2 * (all * f) + all,
        ;
        assert(al + aw < 2 * u);
        let rest = p % u;
        assert(c * all <= i * last) by (nonlinear_arith)
            requires
                p == u * c + rest,
                rest >= 0,
                computed == p * all,
                exact == (i * last) * u,
                2 * computed <= 2 * exact + al + aw,
                al + aw < 2 * u,
        ;
        assert(i * last <= (c + 1) * all) by (nonlinear_arith)
            requires
                p == u * c + rest,
                rest < u,
                computed == p * all,
                exact == (i * last) * u,
                2 * exact <= 2 * computed + al + aw,
                al + aw < 2 * u,
        ;
    }
}

/// The window of a point lies around its center: it contains the center, has as
/// many samples as a point's share of all samples, but at least one, as far as
/// there are so many, and begins half of that before the center unless it would
/// begin before the first sample.
pub proof fn law_window_is_around_the_center(i: nat, count: nat, len: nat)
    requires
        i < count,
        2 <= count <= DOUBLE,
        1 <= len <= DOUBLE,
    ensures
        ({
            let center = center_index(i, count, len);
            let start = window_start(i, count, len);
            let end = window_end(i, count, len);
            let share = if len < count {
                1
            } else {
                len / count
            };
            &&& start <= center < end <= len
            &&& end == len || end - start == share
            &&& end - start <= share
            &&& start == 0 || share - 1 <= 2 * (center - start)
            &&& 2 * (center - start) <= share
        }),
{
    law_center_in_range(i, count, len);
    if len >= count {
        assert(len / count >= 1) by (nonlinear_arith)
            requires
                len >= count,
                count > 0,
        ;
    } else {
        assert(len / count == 0) by (nonlinear_arith)
            requires
                len < count,
        ;
    }
}

/// What a point shows: the values of the samples at and around its center. Its
/// upper and lower vertex enclose every sample of its share around the center,
/// the one at the center among them, and each is the value of one no further
/// away than the share.
pub proof fn law_point_shows_its_samples(samples: Seq<i16>, i: nat, count: usize, k: int)
    requires
        i < count,
        2 <= count <= DOUBLE,
        1 <= samples.len() <= DOUBLE,
    ensures
        ({
            let len = samples.len();
            let center = center_index(i, count as nat, len);
            let share: int = if len < count {
                1
            } else {
                len as int / count as int
            };
            let low = lower_vertex(samples, i as int, count).value;
            let high = upper_vertex(samples, i as int, count).value;
            &&& low <= samples[center as int] <= high
            &&& 0 <= k < len && center - share / 2 <= k < center - share / 2 + share ==> low
                <= samples[k] <= high
            &&& exists|j: int|
                0 <= j < len && center - share <= j <= center + share && #[trigger] samples[j]
                    == low
            &&& exists|j: int|
                0 <= j < len && center - share <= j <= center + share && #[trigger] samples[j]
                    == high
        }),
{
    let len = samples.len();
    let center = center_index(i, count as nat, len);
    law_window_is_around_the_center(i, count as nat, len);
    let start = window_start(i, count as nat, len);
    let end = window_end(i, count as nat, len);
    let w = window(samples, i, count as nat);
    law_extremes(w);
    assert(w[center - start] == samples[center as int]);
    if start <= k < end {
        assert(w[k - start] == samples[k]);
    }
    let lo = choose|j: int| 0 <= j < w.len() && w[j] == lowest(w);
    let hi = choose|j: int| 0 <= j < w.len() && w[j] == highest(w);
    assert(samples[start + lo] == lowest(w));
    assert(samples[start + hi] == highest(w));
}

/// The outline goes along the upper vertices from left to right and back along
/// the lower ones, each at its own place, and reaches the edges at the height of
/// the outermost points.
pub proof fn law_outline_follows_the_points(samples: Seq<i16>, count: usize, i: int)
    requires
        count >= 2,
        0 <= i < count,
    ensures
        ({
            let path = outline(samples, count);
            &&& path.len() == 2 * count + 4
            &&& path[1 + i].x == (Abscissa::Point { index: i as usize, count })
            &&& path[2 * count + 2 - i].x == (Abscissa::Point { index: i as usize, count })
            &&& path[1 + i].value == highest(window(samples, i as nat, count as nat))
            &&& path[2 * count + 2 - i].value == lowest(window(samples, i as nat, count as nat))
            &&& path[0] == (Vertex { x: Abscissa::Left, value: path[1].value })
            &&& path[count + 1] == (Vertex { x: Abscissa::Right, value: path[count as int].value })
            &&& path[count + 2] == (Vertex { x: Abscissa::Right, value: path[count + 3].value })
            &&& path[2 * count + 3] == (Vertex {
                x: Abscissa::Left,
                value: path[2 * count + 2].value,
            })
        }),
{
}

/// As many points are drawn as are asked for, but at least two.
pub proof fn law_at_least_two_points(num_points: usize)
    ensures
        point_count(num_points) >= 2,
        point_count(num_points) >= num_points,
        point_count(num_points) == 2 || point_count(num_points) == num_points,
{
}

} // verus!
