use vstd::prelude::*;

use crate::color::{Color, KeyColor};
use crate::keys::{programmable_catalog, programmable_keys, Key};

verus! {

/// Number of steps of the gradient (one less than its colors).
pub const GRADIENT_STEPS: u64 = 5;

/// The six-color gradient: black, blue, cyan, green, yellow, red.
pub open spec fn gradient(i: int) -> Color {
    if i <= 0 {
        Color { red: 0, green: 0, blue: 0 }
    } else if i == 1 {
        Color { red: 0, green: 0, blue: 255 }
    } else if i == 2 {
        Color { red: 0, green: 255, blue: 255 }
    } else if i == 3 {
        Color { red: 0, green: 255, blue: 0 }
    } else if i == 4 {
        Color { red: 255, green: 255, blue: 0 }
    } else {
        Color { red: 255, green: 0, blue: 0 }
    }
}

fn gradient_color(i: u128) -> (r: Color)
    ensures
        r == gradient(i as int),
{
    if i == 0 {
        Color { red: 0, green: 0, blue: 0 }
    } else if i == 1 {
        Color { red: 0, green: 0, blue: 255 }
    } else if i == 2 {
        Color { red: 0, green: 255, blue: 255 }
    } else if i == 3 {
        Color { red: 0, green: 255, blue: 0 }
    } else if i == 4 {
        Color { red: 255, green: 255, blue: 0 }
    } else {
        Color { red: 255, green: 0, blue: 0 }
    }
}

/// The channel `rem / max` of the way from `a` to `b`, rounded toward `a`.
pub open spec fn lerp(a: u8, b: u8, rem: int, max: int) -> u8 {
    if b >= a {
        (a + (b - a) * rem / max) as u8
    } else {
        (a - (a - b) * rem / max) as u8
    }
}

/// The color of a key pressed `v` times when the most pressed key was
/// pressed `max` times: `v / max` of the way along the gradient, each
/// channel interpolated between the two neighbouring gradient colors.
pub open spec fn heat_color(v: u64, max: u64) -> Color {
    if v == 0 {
        gradient(0)
    } else if v >= max {
        gradient(5)
    } else {
        let t = GRADIENT_STEPS * v;
        let idx = t / max as int;
        let rem = t % max as int;
        let lo = gradient(idx);
        let hi = gradient(idx + 1);
        Color {
            red: lerp(lo.red, hi.red, rem, max as int),
            green: lerp(lo.green, hi.green, rem, max as int),
            blue: lerp(lo.blue, hi.blue, rem, max as int),
        }
    }
}

proof fn lemma_scaled_below(d: int, rem: int, max: int)
    requires
        0 <= d <= 255,
        0 <= rem < max,
    ensures
        0 <= d * rem / max <= d,
        d * rem <= 255 * max,
{
    assert(d * rem <= d * max) by (nonlinear_arith)
        requires
            0 <= d,
            0 <= rem < max,
    ;
    assert(d * max <= 255 * max) by (nonlinear_arith)
        requires
            0 <= d <= 255,
            0 < max,
    ;
    assert(d * rem / max <= d * max / max) by (nonlinear_arith)
        requires
            d * rem <= d * max,
            0 < max,
            0 <= d * rem,
    ;
    assert(d * max / max == d) by (nonlinear_arith)
        requires
            0 < max,
    ;
    assert(0 <= d * rem / max) by (nonlinear_arith)
        requires
            0 <= d,
            0 <= rem,
            0 < max,
    ;
}

fn lerp_channel(a: u8, b: u8, rem: u128, max: u128) -> (r: u8)
    requires
        rem < max,
        max <= u64::MAX,
    ensures
        r == lerp(a, b, rem as int, max as int),
{
    if b >= a {
        let d: u128 = (b - a) as u128;
        proof {
            lemma_scaled_below(d as int, rem as int, max as int);
        }
        let step: u128 = d * rem / max;
        (a as u128 + step) as u8
    } else {
        let d: u128 = (a - b) as u128;
        proof {
            lemma_scaled_below(d as int, rem as int, max as int);
        }
        let step: u128 = d * rem / max;
        (a as u128 - step) as u8
    }
}

/// The color of a key pressed `v` times when the maximum is `max`.
pub fn heat_color_of(v: u64, max: u64) -> (r: Color)
    ensures
        r == heat_color(v, max),
{
    if v == 0 {
        gradient_color(0)
    } else if v >= max {
        gradient_color(5)
    } else {
        let t: u128 = 5u128 * (v as u128);
        let m: u128 = max as u128;
        let idx: u128 = t / m;
        let rem: u128 = t % m;
        assert(idx <= 4) by (nonlinear_arith)
            requires
                t == 5 * v,
                v < max,
                m == max,
                idx == t / m,
                0 < m,
        ;
        let lo = gradient_color(idx);
        let hi = gradient_color(idx + 1);
        Color {
            red: lerp_channel(lo.red, hi.red, rem, m),
            green: lerp_channel(lo.green, hi.green, rem, m),
            blue: lerp_channel(lo.blue, hi.blue, rem, m),
        }
    }
}

/// How often each key of the catalog was pressed.
pub struct Heatmap {
    keys: Vec<Key>,
    counts: Vec<u64>,
}

pub open spec fn seq_max(s: Seq<u64>) -> u64
    decreases s.len(),
{
    if s.len() == 0 {
        0
    } else {
        let m = seq_max(s.drop_last());
        if s.last() > m {
            s.last()
        } else {
            m
        }
    }
}

impl Heatmap {
    /// The keys of the map, in catalog order.
    pub closed spec fn spec_keys(&self) -> Seq<Key> {
        self.keys@
    }

    /// The press count of each key, by position.
    pub closed spec fn spec_counts(&self) -> Seq<u64> {
        self.counts@
    }

    pub open spec fn wf(&self) -> bool {
        &&& self.spec_keys().len() == self.spec_counts().len()
        &&& self.spec_keys().no_duplicates()
    }

    /// A map of every key of the catalog, none pressed yet.
    pub fn new() -> (r: Heatmap)
        ensures
            r.wf(),
            r.spec_keys() == programmable_catalog(),
            forall|i: int| 0 <= i < r.spec_counts().len() ==> #[trigger] r.spec_counts()[i] == 0,
    {
        let keys = programmable_keys();
        proof {
            lemma_catalog_unique();
        }
        let mut counts: Vec<u64> = Vec::new();
        let mut i: usize = 0;
        while i < keys.len()
            invariant
                i <= keys@.len(),
                counts@.len() == i,
                forall|t: int| 0 <= t < i ==> #[trigger] counts@[t] == 0,
            decreases keys@.len() - i,
        {
            counts.push(0);
            i = i + 1;
        }
        Heatmap { keys, counts }
    }

    /// Counts one more press of `key` (saturating); keys outside the catalog
    /// are not counted.
    pub fn increment(&mut self, key: &Key)
        requires
            old(self).wf(),
        ensures
            final(self).wf(),
            final(self).spec_keys() == old(self).spec_keys(),
            final(self).spec_counts().len() == old(self).spec_counts().len(),
            forall|i: int|
                0 <= i < old(self).spec_counts().len() ==> #[trigger] final(self).spec_counts()[i]
                    == if old(self).spec_keys()[i] == *key {
                    if old(self).spec_counts()[i] == u64::MAX {
                        u64::MAX
                    } else {
                        (old(self).spec_counts()[i] + 1) as u64
                    }
                } else {
                    old(self).spec_counts()[i]
                },
    {
        let mut i: usize = 0;
        while i < self.keys.len()
            invariant
                self.keys@ == old(self).spec_keys(),
                self.counts@ == old(self).spec_counts(),
                old(self).wf(),
                i <= self.keys@.len(),
                forall|t: int| 0 <= t < i ==> self.keys@[t] != *key,
            decreases self.keys@.len() - i,
        {
            if self.keys[i] == *key {
                let c = self.counts[i];
                let n = if c == u64::MAX {
                    u64::MAX
                } else {
                    c + 1
                };
                self.counts.set(i, n);
                proof {
                    assert forall|t: int| 0 <= t < self.keys@.len() && t != i implies self.keys@[t]
                        != *key by {
                        assert(self.keys@[t] != self.keys@[i as int]);
                    }
                }
                return;
            }
            i = i + 1;
        }
    }

    /// The color of every key, in catalog order: black for keys never
    /// pressed, red for the most pressed ones, the gradient in between.
    pub fn colors(&self) -> (r: Vec<KeyColor>)
        requires
            self.wf(),
        ensures
            r@.len() == self.spec_keys().len(),
            forall|i: int|
                0 <= i < r@.len() ==> #[trigger] r@[i] == (KeyColor {
                    key: self.spec_keys()[i],
                    color: heat_color(self.spec_counts()[i], seq_max(self.spec_counts())),
                }),
    {
        let mut max: u64 = 0;
        let mut i: usize = 0;
        while i < self.counts.len()
            invariant
                i <= self.counts@.len(),
                max == seq_max(self.counts@.take(i as int)),
            decreases self.counts@.len() - i,
        {
            proof {
                assert(self.counts@.take(i + 1).drop_last() =~= self.counts@.take(i as int));
            }
            if self.counts[i] > max {
                max = self.counts[i];
            }
            i = i + 1;
        }
        assert(self.counts@.take(self.counts@.len() as int) =~= self.counts@);
        let mut r: Vec<KeyColor> = Vec::new();
        let mut j: usize = 0;
        while j < self.keys.len()
            invariant
                self.wf(),
                j <= self.keys@.len(),
                max == seq_max(self.counts@),
                r@.len() == j,
                forall|t: int|
                    0 <= t < j ==> #[trigger] r@[t] == (KeyColor {
                        key: self.spec_keys()[t],
                        color: heat_color(self.spec_counts()[t], max),
                    }),
            decreases self.keys@.len() - j,
        {
            let color = heat_color_of(self.counts[j], max);
            r.push(KeyColor::new(self.keys[j], color));
            j = j + 1;
        }
        r
    }
}

/// The catalog lists each key once.
pub proof fn lemma_catalog_unique()
    ensures
        programmable_catalog().no_duplicates(),
{
    let c = programmable_catalog();
    assert forall|a: int, b: int| 0 <= a < b < c.len() implies c[a] != c[b] by {}
}

} // verus!
