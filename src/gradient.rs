//! Mapping of brightness values onto an ordered gradient of glyphs.
use vstd::prelude::*;

verus! {

/// Default gradient: 69 distinct glyphs, from the densest to the sparsest.
pub const GRADIENT: &'static str = r"$@B%8&WM#*oahkbdpqwmZO0QLCJUYXzcvunxrjft/\|()1{}[]?-_+~<>i!lI;:,^`'. ";

/// The range of brightness values that is spread over the whole gradient.
#[derive(Clone, Copy, Debug, PartialEq, Eq, Structural)]
pub struct Scale {
    pub low: u8,
    pub high: u8,
}

impl Scale {
    pub open spec fn wf(self) -> bool {
        self.low <= self.high
    }

    pub open spec fn contains(self, v: u8) -> bool {
        self.low <= v <= self.high
    }

    /// The whole range of a byte.
    pub fn full() -> (r: Scale)
        ensures
            r == full_scale(),
    {
        Scale { low: 0, high: 255 }
    }
}

pub open spec fn full_scale() -> Scale {
    Scale { low: 0, high: 255 }
}

/// Smallest value of `s`, or 255 where `s` is empty.
pub open spec fn min_of(s: Seq<u8>) -> u8
    decreases s.len(),
{
    if s.len() == 0 {
        255
    } else {
        let m = min_of(s.drop_last());
        if s.last() < m {
            s.last()
        } else {
            m
        }
    }
}

/// Largest value of `s`, or 0 where `s` is empty.
pub open spec fn max_of(s: Seq<u8>) -> u8
    decreases s.len(),
{
    if s.len() == 0 {
        0
    } else {
        let m = max_of(s.drop_last());
        if s.last() > m {
            s.last()
        } else {
            m
        }
    }
}

/// The range that the values of `s` actually cover.
pub open spec fn observed_scale(s: Seq<u8>) -> Scale {
    Scale { low: min_of(s), high: max_of(s) }
}

/// The scale in use: the observed range of `s`, or the whole range of a byte.
pub open spec fn scale_for(s: Seq<u8>, observed: bool) -> Scale {
    if observed {
        observed_scale(s)
    } else {
        full_scale()
    }
}

/// Position in a gradient of `n` glyphs of the value `v` under `scale`: a
/// truncating linear map of `[low, high]` onto `[0, n - 1]`, and 0 where the
/// scale is a single value.
pub open spec fn glyph_index(v: u8, scale: Scale, n: nat) -> int {
    if scale.high <= scale.low {
        0
    } else {
        (v - scale.low) * (n - 1) / (scale.high - scale.low)
    }
}

/// The glyph of each value of `brightness`, in order.
pub open spec fn glyph_seq(brightness: Seq<u8>, gradient: Seq<char>, observed: bool) -> Seq<char> {
    Seq::new(
        brightness.len(),
        |i: int| gradient[glyph_index(brightness[i], scale_for(brightness, observed), gradient.len())],
    )
}

/// Every value of `s` lies between its minimum and its maximum.
pub proof fn lemma_observed_bounds(s: Seq<u8>)
    ensures
        forall|i: int| 0 <= i < s.len() ==> min_of(s) <= #[trigger] s[i] <= max_of(s),
    decreases s.len(),
{
    if s.len() > 0 {
        lemma_observed_bounds(s.drop_last());
        assert forall|i: int| 0 <= i < s.len() implies min_of(s) <= #[trigger] s[i] <= max_of(s) by {
            if i < s.len() - 1 {
                assert(s[i] == s.drop_last()[i]);
            }
        }
    }
}

/// A value inside the scale lands on a position of the gradient.
pub proof fn lemma_index_in_range(v: u8, scale: Scale, n: nat)
    requires
        scale.contains(v),
        n >= 1,
    ensures
        0 <= glyph_index(v, scale, n) < n,
{
    if scale.high > scale.low {
        let x: int = v - scale.low;
        let d: int = scale.high - scale.low;
        let m: int = n - 1;
        assert(0 <= x * m <= d * m) by (nonlinear_arith)
            requires
                0 <= x <= d,
                0 <= m,
        ;
        assert(0 <= x * m / d <= d * m / d) by (nonlinear_arith)
            requires
                0 <= x * m <= d * m,
                d > 0,
        ;
        assert(d * m / d == m) by (nonlinear_arith)
            requires
                d > 0,
        ;
    }
}

/// Under the whole range of a byte, the value `v` lands on position
/// `v * (n - 1) / 255`, rounded down.
pub proof fn lemma_full_range_index(v: u8, n: nat)
    requires
        n >= 1,
    ensures
        glyph_index(v, full_scale(), n) == v * (n - 1) / 255,
{
}

/// Under a scale that holds both values, a larger value never lands on an
/// earlier position of the gradient.
pub proof fn lemma_index_monotone(v1: u8, v2: u8, scale: Scale, n: nat)
    requires
        scale.contains(v1),
        scale.contains(v2),
        v1 <= v2,
        n >= 1,
    ensures
        glyph_index(v1, scale, n) <= glyph_index(v2, scale, n),
{
    if scale.high > scale.low {
        let m: int = n - 1;
        let d: int = scale.high - scale.low;
        let x1: int = v1 - scale.low;
        let x2: int = v2 - scale.low;
        assert(x1 * m <= x2 * m) by (nonlinear_arith)
            requires
                0 <= x1 <= x2,
                0 <= m,
        ;
        vstd::arithmetic::div_mod::lemma_div_is_ordered(x1 * m, x2 * m, d);
    }
}

/// Under the whole range of a byte, the position in the gradient never
/// decreases as the brightness grows.
pub proof fn lemma_full_range_monotone(v1: u8, v2: u8, n: nat)
    requires
        v1 < v2,
        n >= 1,
    ensures
        glyph_index(v1, full_scale(), n) <= glyph_index(v2, full_scale(), n),
{
    lemma_index_monotone(v1, v2, full_scale(), n);
}

/// Smallest and largest value of a sequence whose values are all `v0`.
pub proof fn lemma_flat_bounds(s: Seq<u8>, v0: u8)
    requires
        s.len() > 0,
        forall|i: int| 0 <= i < s.len() ==> s[i] == v0,
    ensures
        min_of(s) == v0,
        max_of(s) == v0,
    decreases s.len(),
{
    let rest = s.drop_last();
    if s.len() > 1 {
        assert forall|i: int| 0 <= i < rest.len() implies rest[i] == v0 by {
            assert(rest[i] == s[i]);
        }
        lemma_flat_bounds(rest, v0);
    } else {
        assert(min_of(rest) == 255 && max_of(rest) == 0);
    }
    assert(s.last() == s[s.len() - 1]);
}

/// Where every value is the same, the observed range is that single value,
/// and every value lands on the first position of the gradient.
pub proof fn lemma_flat_image_single_index(s: Seq<u8>, v0: u8, n: nat)
    requires
        s.len() > 0,
        forall|i: int| 0 <= i < s.len() ==> s[i] == v0,
    ensures
        observed_scale(s) == (Scale { low: v0, high: v0 }),
        forall|i: int| 0 <= i < s.len() ==> glyph_index(#[trigger] s[i], observed_scale(s), n) == 0,
{
    lemma_flat_bounds(s, v0);
}

/// The characters of `gradient`, in order.
pub fn gradient_chars(gradient: &str) -> (r: Vec<char>)
    ensures
        r@ == gradient@,
{
    let mut out: Vec<char> = Vec::new();
    for c in it: gradient.chars()
        invariant
            out@ == it.seq().take(it.index() as int),
    {
        out.push(c);
    }
    out
}

/// The observed range of `brightness`: its minimum and its maximum.
pub fn observed_range(brightness: &Vec<u8>) -> (r: Scale)
    ensures
        r == observed_scale(brightness@),
        brightness@.len() > 0 ==> r.wf(),
        forall|i: int| 0 <= i < brightness@.len() ==> r.contains(#[trigger] brightness@[i]),
{
    let mut low: u8 = 255;
    let mut high: u8 = 0;
    let mut i: usize = 0;
    while i < brightness.len()
        invariant
            i <= brightness@.len(),
            low == min_of(brightness@.take(i as int)),
            high == max_of(brightness@.take(i as int)),
        decreases brightness@.len() - i,
    {
        let v: u8 = brightness[i];
        assert(brightness@.take(i + 1).drop_last() =~= brightness@.take(i as int));
        if v < low {
            low = v;
        }
        if v > high {
            high = v;
        }
        i = i + 1;
    }
    assert(brightness@.take(i as int) =~= brightness@);
    proof {
        lemma_observed_bounds(brightness@);
        if brightness@.len() > 0 {
            assert(low <= brightness@[0] <= high);
        }
    }
    Scale { low, high }
}

/// The glyph for `byte` under `scale`.
pub fn uniform_gradient(byte: u8, scale: Scale, gradient: &Vec<char>) -> (r: char)
    requires
        scale.contains(byte),
        gradient@.len() >= 1,
    ensures
        r == gradient@[glyph_index(byte, scale, gradient@.len())],
{
    proof {
        lemma_index_in_range(byte, scale, gradient@.len());
    }
    if scale.high <= scale.low {
        gradient[0]
    } else {
        let offset: u128 = (byte - scale.low) as u128;
        let last: u128 = (gradient.len() - 1) as u128;
        assert(offset * last <= 255 * u64::MAX) by (nonlinear_arith)
            requires
                offset <= 255,
                last <= u64::MAX,
        ;
        let span: u128 = offset * last;
        let index: u128 = span / (scale.high - scale.low) as u128;
        gradient[index as usize]
    }
}

/// The glyph of each value of `brightness`, under the observed range of the
/// values or under the whole range of a byte.
pub fn map_to_gradient(brightness: &Vec<u8>, gradient: &Vec<char>, observed: bool) -> (r: Vec<char>)
    requires
        gradient@.len() >= 2,
    ensures
        r@ == glyph_seq(brightness@, gradient@, observed),
{
    let scale: Scale = if observed {
        observed_range(brightness)
    } else {
        Scale::full()
    };
    proof {
        lemma_observed_bounds(brightness@);
    }
    let mut out: Vec<char> = Vec::new();
    for i in 0..brightness.len()
        invariant
            scale == scale_for(brightness@, observed),
            gradient@.len() >= 2,
            forall|j: int| 0 <= j < brightness@.len() ==> scale.contains(#[trigger] brightness@[j]),
            out@.len() == i,
            forall|j: int|
                0 <= j < i ==> out@[j] == gradient@[glyph_index(
                    #[trigger] brightness@[j],
                    scale,
                    gradient@.len(),
                )],
    {
        out.push(uniform_gradient(brightness[i], scale, gradient));
    }
    assert(out@ =~= glyph_seq(brightness@, gradient@, observed));
    out
}

} // verus!
