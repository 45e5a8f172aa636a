//! Brightness curves: control points ordered by day progress, presets, and the
//! editing operations that keep a curve ordered.
//!
//! Coordinates are IEEE-754 binary64 numbers held by their bit patterns: a point's
//! `position` is the day progress (0 at sunrise, 1 at sunset) and its `brightness`
//! is a percentage. Points are ordered by `position_key`, which orders bit patterns
//! as the numbers they encode are ordered (negative and positive zero compare equal).
use vstd::prelude::*;

verus! {

/// The most control points that `add_point` lets a curve hold.
pub const MAX_POINTS: usize = 10;

/// The sign bit of a binary64 bit pattern.
pub const SIGN_BIT: u64 = 0x8000_0000_0000_0000;

/// One control point of a curve; both coordinates are binary64 bit patterns.
#[derive(Clone, Copy, Debug, PartialEq, Eq, Structural)]
pub struct ControlPoint {
    pub position: u64,
    pub brightness: u64,
}

/// Orders binary64 bit patterns as the numbers they encode (both zeros map to the
/// same key; negative numbers come before positive ones). NaN patterns, which no
/// number order places, come after positive infinity when their sign bit is clear
/// and before negative infinity when it is set.
pub open spec fn position_key(bits: u64) -> u64 {
    if bits < SIGN_BIT {
        (bits + SIGN_BIT) as u64
    } else if bits == SIGN_BIT {
        SIGN_BIT
    } else {
        (u64::MAX - bits) as u64
    }
}

/// The ordering key of a point: that of its position.
pub open spec fn key_of(p: ControlPoint) -> u64 {
    position_key(p.position)
}

/// Points are in non-decreasing order of position.
pub open spec fn sorted_by_position(s: Seq<ControlPoint>) -> bool {
    forall|i: int, j: int| 0 <= i < j < s.len() ==> key_of(s[i]) <= key_of(s[j])
}

/// The predicate "this point's position has key `k`".
pub open spec fn at_key(k: u64) -> spec_fn(ControlPoint) -> bool {
    |p: ControlPoint| key_of(p) == k
}

/// `out` is `input` sorted by position, with points at equal positions kept in the
/// order they had in `input` (a stable sort).
pub open spec fn stable_sort_of(out: Seq<ControlPoint>, input: Seq<ControlPoint>) -> bool {
    &&& sorted_by_position(out)
    &&& forall|k: u64| #[trigger] out.filter(at_key(k)) == input.filter(at_key(k))
}

/// The ordering key of a binary64 position.
pub fn order_key(bits: u64) -> (k: u64)
    ensures
        k == position_key(bits),
{
    if bits < SIGN_BIT {
        bits + SIGN_BIT
    } else if bits == SIGN_BIT {
        SIGN_BIT
    } else {
        u64::MAX - bits
    }
}

proof fn lemma_filter_all_fail(s: Seq<ControlPoint>, k: u64)
    requires
        forall|j: int| 0 <= j < s.len() ==> key_of(#[trigger] s[j]) != k,
    ensures
        s.filter(at_key(k)) == Seq::<ControlPoint>::empty(),
    decreases s.len(),
{
    reveal(Seq::filter);
    if s.len() > 0 {
        let rest = s.drop_last();
        assert forall|j: int| 0 <= j < rest.len() implies key_of(#[trigger] rest[j]) != k by {
            assert(rest[j] == s[j]);
        }
        lemma_filter_all_fail(rest, k);
    }
}

/// Inserting `x` after every point whose key is at most its own, and before every
/// point whose key is larger, keeps a sorted sequence sorted and appends `x` to the
/// points sharing its key.
proof fn lemma_insert_in_order(out: Seq<ControlPoint>, p: int, x: ControlPoint, k: u64)
    requires
        sorted_by_position(out),
        0 <= p <= out.len(),
        forall|j: int| 0 <= j < p ==> key_of(#[trigger] out[j]) <= key_of(x),
        forall|j: int| p <= j < out.len() ==> key_of(#[trigger] out[j]) > key_of(x),
    ensures
        sorted_by_position(out.insert(p, x)),
        out.insert(p, x).filter(at_key(k)) == (if key_of(x) == k {
            out.filter(at_key(k)).push(x)
        } else {
            out.filter(at_key(k))
        }),
{
    let a = out.subrange(0, p);
    let b = out.subrange(p, out.len() as int);
    let pred = at_key(k);
    assert(out =~= a + b);
    assert(out.insert(p, x) =~= a.push(x) + b);
    Seq::filter_distributes_over_add(a, b, pred);
    Seq::filter_distributes_over_add(a.push(x), b, pred);
    a.lemma_filter_push(x, pred);
    if key_of(x) == k {
        assert forall|j: int| 0 <= j < b.len() implies key_of(#[trigger] b[j]) != k by {
            assert(b[j] == out[p + j]);
        }
        lemma_filter_all_fail(b, k);
        assert(b.filter(pred) =~= Seq::<ControlPoint>::empty());
        assert(a.filter(pred) + b.filter(pred) =~= a.filter(pred));
        assert(a.filter(pred).push(x) + b.filter(pred) =~= a.filter(pred).push(x));
    }
    let ins = out.insert(p, x);
    assert forall|i: int, j: int| 0 <= i < j < ins.len() implies key_of(ins[i]) <= key_of(
        ins[j],
    ) by {
        if j < p {
            assert(ins[i] == out[i] && ins[j] == out[j]);
        } else if j == p {
            assert(ins[i] == out[i]);
        } else if i < p {
            assert(ins[i] == out[i] && ins[j] == out[j - 1]);
        } else if i == p {
            assert(ins[j] == out[j - 1]);
        } else {
            assert(ins[i] == out[i - 1] && ins[j] == out[j - 1]);
        }
    }
}

proof fn lemma_insert_multiset(s: Seq<ControlPoint>, p: int, x: ControlPoint)
    requires
        0 <= p <= s.len(),
    ensures
        s.insert(p, x).to_multiset() == s.to_multiset().insert(x),
{
    let a = s.subrange(0, p);
    let b = s.subrange(p, s.len() as int);
    assert(s =~= a + b);
    assert(s.insert(p, x) =~= a.push(x) + b);
    vstd::seq_lib::lemma_multiset_commutative(a, b);
    vstd::seq_lib::lemma_multiset_commutative(a.push(x), b);
    a.to_multiset_ensures();
    broadcast use vstd::multiset::group_multiset_axioms;
    assert(a.to_multiset().insert(x).add(b.to_multiset()) =~= a.to_multiset().add(
        b.to_multiset(),
    ).insert(x));
}

/// The points of `points` sorted by position, stably.
fn stable_sorted(points: &Vec<ControlPoint>) -> (out: Vec<ControlPoint>)
    ensures
        stable_sort_of(out@, points@),
        out@.to_multiset() == points@.to_multiset(),
        sorted_by_position(points@) ==> out@ == points@,
{
    let mut out: Vec<ControlPoint> = Vec::new();
    let n = points.len();
    let mut i: usize = 0;
    assert(points@.subrange(0, 0) =~= Seq::<ControlPoint>::empty());
    proof {
        points@.subrange(0, 0).to_multiset_ensures();
        Seq::<ControlPoint>::empty().to_multiset_ensures();
    }
    while i < n
        invariant
            n == points@.len(),
            i <= n,
            sorted_by_position(out@),
            out@.to_multiset() == points@.subrange(0, i as int).to_multiset(),
            forall|k: u64| #[trigger]
                out@.filter(at_key(k)) == points@.subrange(0, i as int).filter(at_key(k)),
            sorted_by_position(points@) ==> out@ == points@.subrange(0, i as int),
        decreases n - i,
    {
        let x = points[i];
        let kx = order_key(x.position);
        let mut p = out.len();
        while p > 0 && order_key(out[p - 1].position) > kx
            invariant
                p <= out@.len(),
                i < n == points@.len(),
                x == points@[i as int],
                kx == key_of(x),
                sorted_by_position(out@),
                sorted_by_position(points@) ==> out@ == points@.subrange(0, i as int),
                sorted_by_position(points@) ==> p == out@.len(),
                forall|j: int| p <= j < out@.len() ==> key_of(#[trigger] out@[j]) > kx,
            decreases p,
        {
            p = p - 1;
        }
        proof {
            assert forall|j: int| 0 <= j < p implies key_of(#[trigger] out@[j]) <= kx by {
                if j < p - 1 {
                    assert(key_of(out@[j]) <= key_of(out@[p - 1]));
                }
            }
            let pre = points@.subrange(0, i as int);
            assert(points@.subrange(0, i + 1) =~= pre.push(x));
            assert forall|k: u64| #[trigger]
                out@.insert(p as int, x).filter(at_key(k)) == points@.subrange(
                    0,
                    i + 1,
                ).filter(at_key(k)) by {
                lemma_insert_in_order(out@, p as int, x, k);
                pre.lemma_filter_push(x, at_key(k));
            }
            lemma_insert_in_order(out@, p as int, x, 0);
            lemma_insert_multiset(out@, p as int, x);
            pre.to_multiset_ensures();
            if sorted_by_position(points@) {
                assert(out@.insert(p as int, x) =~= pre.push(x));
            }
        }
        out.insert(p, x);
        i = i + 1;
    }
    assert(points@.subrange(0, n as int) =~= points@);
    out
}

proof fn lemma_filter_of_push_last(s: Seq<ControlPoint>, k: u64)
    requires
        s.len() > 0,
    ensures
        s.filter(at_key(k)) == (if key_of(s.last()) == k {
            s.drop_last().filter(at_key(k)).push(s.last())
        } else {
            s.drop_last().filter(at_key(k))
        }),
{
    assert(s =~= s.drop_last().push(s.last()));
    s.drop_last().lemma_filter_push(s.last(), at_key(k));
}

proof fn lemma_filter_nonempty(s: Seq<ControlPoint>, i: int)
    requires
        0 <= i < s.len(),
    ensures
        s.filter(at_key(key_of(s[i]))).len() > 0,
{
    s.lemma_filter_contains(at_key(key_of(s[i])), i);
}

proof fn lemma_filter_member_key(s: Seq<ControlPoint>, k: u64)
    requires
        s.filter(at_key(k)).len() > 0,
    ensures
        exists|j: int| 0 <= j < s.len() && key_of(#[trigger] s[j]) == k,
{
    let f = s.filter(at_key(k));
    s.lemma_filter_pred(at_key(k), 0);
    assert(f.contains(f[0]));
    s.lemma_filter_contains_rev(at_key(k), f[0]);
}

proof fn lemma_sorted_filters_determine(a: Seq<ControlPoint>, b: Seq<ControlPoint>)
    requires
        sorted_by_position(a),
        sorted_by_position(b),
        forall|k: u64| #[trigger] a.filter(at_key(k)) == b.filter(at_key(k)),
    ensures
        a == b,
    decreases a.len() + b.len(),
{
    reveal(Seq::filter);
    if a.len() == 0 || b.len() == 0 {
        if b.len() > 0 {
            lemma_filter_nonempty(b, 0);
            assert(a.filter(at_key(key_of(b[0]))) == b.filter(at_key(key_of(b[0]))));
        }
        if a.len() > 0 {
            lemma_filter_nonempty(a, 0);
            assert(a.filter(at_key(key_of(a[0]))) == b.filter(at_key(key_of(a[0]))));
        }
        assert(a =~= b);
    } else {
        let ka = key_of(a.last());
        let kb = key_of(b.last());
        if ka < kb {
            lemma_filter_nonempty(b, b.len() - 1);
            assert(a.filter(at_key(kb)) == b.filter(at_key(kb)));
            lemma_filter_member_key(a, kb);
            let j = choose|j: int| 0 <= j < a.len() && key_of(#[trigger] a[j]) == kb;
            if j < a.len() - 1 {
                assert(key_of(a[j]) <= key_of(a[a.len() - 1]));
            }
            assert(false);
        }
        if kb < ka {
            lemma_filter_nonempty(a, a.len() - 1);
            assert(a.filter(at_key(ka)) == b.filter(at_key(ka)));
            lemma_filter_member_key(b, ka);
            let j = choose|j: int| 0 <= j < b.len() && key_of(#[trigger] b[j]) == ka;
            if j < b.len() - 1 {
                assert(key_of(b[j]) <= key_of(b[b.len() - 1]));
            }
            assert(false);
        }
        let ad = a.drop_last();
        let bd = b.drop_last();
        lemma_filter_of_push_last(a, ka);
        lemma_filter_of_push_last(b, ka);
        assert(a.filter(at_key(ka)) == b.filter(at_key(ka)));
        assert(a.last() == a.filter(at_key(ka)).last());
        assert(b.last() == b.filter(at_key(ka)).last());
        assert forall|k: u64| #[trigger] ad.filter(at_key(k)) == bd.filter(at_key(k)) by {
            lemma_filter_of_push_last(a, k);
            lemma_filter_of_push_last(b, k);
            assert(a.filter(at_key(k)) == b.filter(at_key(k)));
            if k == ka {
                assert(ad.filter(at_key(k)) =~= a.filter(at_key(k)).drop_last());
                assert(bd.filter(at_key(k)) =~= b.filter(at_key(k)).drop_last());
            }
        }
        assert(sorted_by_position(ad));
        assert(sorted_by_position(bd));
        lemma_sorted_filters_determine(ad, bd);
        assert(a =~= ad.push(a.last()));
        assert(b =~= bd.push(b.last()));
    }
}

/// A stable sort has exactly one result: two sequences that are both stable sorts
/// of the same input are equal.
pub proof fn lemma_stable_sort_unique(
    a: Seq<ControlPoint>,
    b: Seq<ControlPoint>,
    input: Seq<ControlPoint>,
)
    requires
        stable_sort_of(a, input),
        stable_sort_of(b, input),
    ensures
        a == b,
{
    assert forall|k: u64| #[trigger] a.filter(at_key(k)) == b.filter(at_key(k)) by {
        assert(a.filter(at_key(k)) == input.filter(at_key(k)));
        assert(b.filter(at_key(k)) == input.filter(at_key(k)));
    }
    lemma_sorted_filters_determine(a, b);
}

} // verus!

verus! {

/// A brightness curve over the day and the preset it was taken from, if it is
/// unchanged since.
#[derive(Debug)]
pub struct BrightnessCurve {
    pub points: Vec<ControlPoint>,
    pub preset: Option<String>,
}

impl Clone for BrightnessCurve {
    fn clone(&self) -> (r: Self)
        ensures
            r.points@ == self.points@,
            r.preset == self.preset,
    {
        let mut points: Vec<ControlPoint> = Vec::new();
        let mut i: usize = 0;
        while i < self.points.len()
            invariant
                i <= self.points@.len(),
                points@ == self.points@.subrange(0, i as int),
            decreases self.points@.len() - i,
        {
            points.push(self.points[i]);
            i = i + 1;
        }
        assert(points@ =~= self.points@);
        let preset = match &self.preset {
            Some(name) => Some(name.clone()),
            None => None,
        };
        BrightnessCurve { points, preset }
    }
}

/// Bit patterns of the coordinates that the presets use.
pub const F64_0: u64 = 0x0;
pub const F64_0_01: u64 = 0x3f84_7ae1_47ae_147b;
pub const F64_0_10: u64 = 0x3fb9_9999_9999_999a;
pub const F64_0_25: u64 = 0x3fd0_0000_0000_0000;
pub const F64_0_50: u64 = 0x3fe0_0000_0000_0000;
pub const F64_0_75: u64 = 0x3fe8_0000_0000_0000;
pub const F64_0_90: u64 = 0x3fec_cccc_cccc_cccd;
pub const F64_0_99: u64 = 0x3fef_ae14_7ae1_47ae;
pub const F64_1: u64 = 0x3ff0_0000_0000_0000;
pub const F64_5: u64 = 0x4014_0000_0000_0000;
pub const F64_30: u64 = 0x403e_0000_0000_0000;
pub const F64_35: u64 = 0x4041_8000_0000_0000;
pub const F64_50: u64 = 0x4049_0000_0000_0000;
pub const F64_80: u64 = 0x4054_0000_0000_0000;
pub const F64_100: u64 = 0x4059_0000_0000_0000;

/// The point at `(position, brightness)`.
pub open spec fn pt(position: u64, brightness: u64) -> ControlPoint {
    ControlPoint { position, brightness }
}

/// Points of the "natural" preset: dark at sunrise and sunset, full at zenith.
pub open spec fn natural_points() -> Seq<ControlPoint> {
    seq![
        pt(F64_0, F64_0),
        pt(F64_0_10, F64_50),
        pt(F64_0_25, F64_80),
        pt(F64_0_50, F64_100),
        pt(F64_0_75, F64_80),
        pt(F64_0_90, F64_50),
        pt(F64_1, F64_0),
    ]
}

/// Points of the "linear" preset: a straight rise to full brightness at zenith and back.
pub open spec fn linear_points() -> Seq<ControlPoint> {
    seq![pt(F64_0, F64_0), pt(F64_0_50, F64_100), pt(F64_1, F64_0)]
}

/// Points of the "night_owl" preset: dim all day, at most half brightness.
pub open spec fn night_owl_points() -> Seq<ControlPoint> {
    seq![
        pt(F64_0, F64_5),
        pt(F64_0_25, F64_30),
        pt(F64_0_50, F64_50),
        pt(F64_0_75, F64_35),
        pt(F64_1, F64_5),
    ]
}

/// The points of the preset called `name` ("natural" for unknown names).
pub open spec fn preset_points(name: Seq<char>) -> Seq<ControlPoint> {
    if name == "linear"@ {
        linear_points()
    } else if name == "night_owl"@ {
        night_owl_points()
    } else {
        natural_points()
    }
}

/// The name recorded for the preset called `name` ("natural" for unknown names).
pub open spec fn preset_label(name: Seq<char>) -> Seq<char> {
    if name == "linear"@ {
        "linear"@
    } else if name == "night_owl"@ {
        "night_owl"@
    } else {
        "natural"@
    }
}

/// The curve `points` tagged with the preset `name`.
pub open spec fn is_preset(c: BrightnessCurve, points: Seq<ControlPoint>, name: Seq<char>) -> bool {
    &&& c.points@ == points
    &&& c.preset matches Some(p) && p@ == name
}

fn preset_name(name: &str) -> (r: Option<String>)
    ensures
        r matches Some(p) && p@ == name@,
{
    Some(crate::text::string_from(name))
}

impl BrightnessCurve {
    /// A curve holds between two and `MAX_POINTS` points, in order of position.
    pub open spec fn well_formed(self) -> bool {
        &&& 2 <= self.points@.len() <= MAX_POINTS
        &&& sorted_by_position(self.points@)
    }

    /// The "natural" preset.
    pub fn natural() -> (c: Self)
        ensures
            is_preset(c, natural_points(), "natural"@),
            c.well_formed(),
    {
        let points = vec![
            ControlPoint { position: F64_0, brightness: F64_0 },
            ControlPoint { position: F64_0_10, brightness: F64_50 },
            ControlPoint { position: F64_0_25, brightness: F64_80 },
            ControlPoint { position: F64_0_50, brightness: F64_100 },
            ControlPoint { position: F64_0_75, brightness: F64_80 },
            ControlPoint { position: F64_0_90, brightness: F64_50 },
            ControlPoint { position: F64_1, brightness: F64_0 },
        ];
        assert(points@ =~= natural_points());
        BrightnessCurve { points, preset: preset_name("natural") }
    }

    /// The "linear" preset.
    pub fn linear() -> (c: Self)
        ensures
            is_preset(c, linear_points(), "linear"@),
            c.well_formed(),
    {
        let points = vec![
            ControlPoint { position: F64_0, brightness: F64_0 },
            ControlPoint { position: F64_0_50, brightness: F64_100 },
            ControlPoint { position: F64_1, brightness: F64_0 },
        ];
        assert(points@ =~= linear_points());
        BrightnessCurve { points, preset: preset_name("linear") }
    }

    /// The "night_owl" preset.
    pub fn night_owl() -> (c: Self)
        ensures
            is_preset(c, night_owl_points(), "night_owl"@),
            c.well_formed(),
    {
        let points = vec![
            ControlPoint { position: F64_0, brightness: F64_5 },
            ControlPoint { position: F64_0_25, brightness: F64_30 },
            ControlPoint { position: F64_0_50, brightness: F64_50 },
            ControlPoint { position: F64_0_75, brightness: F64_35 },
            ControlPoint { position: F64_1, brightness: F64_5 },
        ];
        assert(points@ =~= night_owl_points());
        BrightnessCurve { points, preset: preset_name("night_owl") }
    }

    /// The preset called `name`; any name other than "linear" and "night_owl" gives
    /// the "natural" preset.
    pub fn from_preset(name: &str) -> (c: Self)
        ensures
            name@ == "linear"@ ==> is_preset(c, linear_points(), "linear"@),
            name@ == "night_owl"@ ==> is_preset(c, night_owl_points(), "night_owl"@),
            name@ != "linear"@ && name@ != "night_owl"@ ==> is_preset(
                c,
                natural_points(),
                "natural"@,
            ),
            is_preset(c, preset_points(name@), preset_label(name@)),
            c.well_formed(),
    {
        proof {
            reveal_strlit("linear");
            reveal_strlit("night_owl");
            assert("linear"@.len() != "night_owl"@.len());
        }
        if crate::text::str_eq(name, "linear") {
            Self::linear()
        } else if crate::text::str_eq(name, "night_owl") {
            Self::night_owl()
        } else {
            Self::natural()
        }
    }

    /// Orders the points by position, keeping points at equal positions in their
    /// current order.
    pub fn sort(&mut self)
        ensures
            stable_sort_of(final(self).points@, old(self).points@),
            final(self).points@.to_multiset() == old(self).points@.to_multiset(),
            final(self).preset == old(self).preset,
            old(self).well_formed() ==> final(self).well_formed(),
    {
        let sorted = stable_sorted(&self.points);
        self.points = sorted;
        proof {
            self.points@.to_multiset_ensures();
            old(self).points@.to_multiset_ensures();
        }
    }

    /// Adds a point and sorts, unless the curve already holds `MAX_POINTS` points.
    /// A curve that gained a point no longer follows a preset.
    pub fn add_point(&mut self, position: u64, brightness: u64) -> (added: bool)
        ensures
            added == (old(self).points@.len() < MAX_POINTS),
            added ==> stable_sort_of(
                final(self).points@,
                old(self).points@.push(pt(position, brightness)),
            ),
            added ==> final(self).points@.to_multiset() == old(self).points@.push(
                pt(position, brightness),
            ).to_multiset(),
            added ==> final(self).preset is None,
            !added ==> *final(self) == *old(self),
            old(self).well_formed() ==> final(self).well_formed(),
    {
        if self.points.len() >= MAX_POINTS {
            return false;
        }
        self.points.push(ControlPoint { position, brightness });
        let ghost pushed = self.points@;
        self.sort();
        self.preset = None;
        proof {
            self.points@.to_multiset_ensures();
            pushed.to_multiset_ensures();
        }
        true
    }

    /// Removes the point at `index`, unless it is the first or the last point, is
    /// out of range, or the curve holds two points or fewer. A curve that lost a
    /// point no longer follows a preset.
    pub fn remove_point(&mut self, index: usize) -> (removed: bool)
        ensures
            removed == (0 < index && index + 1 < old(self).points@.len()),
            removed ==> final(self).points@ == old(self).points@.remove(index as int),
            removed ==> final(self).preset is None,
            !removed ==> *final(self) == *old(self),
            old(self).well_formed() ==> final(self).well_formed(),
    {
        let len = self.points.len();
        let last = if len >= 1 { len - 1 } else { 0 };
        if index == 0 || index >= last || len <= 2 {
            return false;
        }
        self.points.remove(index);
        self.preset = None;
        proof {
            let o = old(self).points@;
            if old(self).well_formed() {
                assert forall|i: int, j: int|
                    0 <= i < j < self.points@.len() implies key_of(self.points@[i]) <= key_of(
                    self.points@[j],
                ) by {
                    let ii = if i < index { i } else { i + 1 };
                    let jj = if j < index { j } else { j + 1 };
                    assert(self.points@[i] == o[ii]);
                    assert(self.points@[j] == o[jj]);
                }
            }
        }
        true
    }
}

impl Default for BrightnessCurve {
    /// The "natural" preset.
    fn default() -> (c: Self)
        ensures
            is_preset(c, natural_points(), "natural"@),
    {
        Self::natural()
    }
}

} // verus!

verus! {

/// Two curves hold the same points and follow the same preset.
pub open spec fn same_curve(a: BrightnessCurve, b: BrightnessCurve) -> bool {
    a.points@ == b.points@ && a.preset == b.preset
}

} // verus!

verus! {

/// Sorting leaves points that are already in order as they are.
pub proof fn lemma_sort_keeps_ordered_points(points: Seq<ControlPoint>, out: Seq<ControlPoint>)
    requires
        sorted_by_position(points),
        stable_sort_of(out, points),
    ensures
        out == points,
{
    lemma_stable_sort_unique(out, points, points);
}

/// Every preset is a well-formed curve: between two and `MAX_POINTS` points, in
/// order of position.
pub proof fn lemma_presets_well_formed(name: Seq<char>)
    ensures
        2 <= preset_points(name).len() <= MAX_POINTS,
        sorted_by_position(preset_points(name)),
{
    let p = preset_points(name);
    assert forall|i: int, j: int| 0 <= i < j < p.len() implies key_of(p[i]) <= key_of(p[j]) by {
    }
}

} // verus!

verus! {

/// Points before `q` have keys at most `k`, points from `q` on have larger keys.
pub open spec fn splits_at(s: Seq<ControlPoint>, k: u64, q: int) -> bool {
    &&& 0 <= q <= s.len()
    &&& forall|j: int| 0 <= j < q ==> key_of(#[trigger] s[j]) <= k
    &&& forall|j: int| q <= j < s.len() ==> key_of(#[trigger] s[j]) > k
}

proof fn lemma_split_point(s: Seq<ControlPoint>, k: u64)
    requires
        sorted_by_position(s),
    ensures
        exists|q: int| #[trigger] splits_at(s, k, q),
    decreases s.len(),
{
    if s.len() == 0 {
        assert(splits_at(s, k, 0));
    } else {
        let d = s.drop_last();
        assert(sorted_by_position(d));
        lemma_split_point(d, k);
        let q = choose|q: int| #[trigger] splits_at(d, k, q);
        if key_of(s.last()) > k {
            assert forall|j: int| q <= j < s.len() implies key_of(#[trigger] s[j]) > k by {
                if j < s.len() - 1 {
                    assert(s[j] == d[j]);
                }
            }
            assert forall|j: int| 0 <= j < q implies key_of(#[trigger] s[j]) <= k by {
                assert(s[j] == d[j]);
            }
            assert(splits_at(s, k, q));
        } else {
            assert forall|j: int| 0 <= j < s.len() implies key_of(#[trigger] s[j]) <= k by {
                if j < s.len() - 1 {
                    assert(key_of(s[j]) <= key_of(s[s.len() - 1]));
                }
            }
            assert(splits_at(s, k, s.len() as int));
        }
    }
}

/// Removing the point that `add_point` placed undoes it: when points in order gain
/// a point between the first and the last position, the point lands at some inner
/// index, and removing that index gives the former points back.
pub proof fn lemma_remove_undoes_add(
    points: Seq<ControlPoint>,
    x: ControlPoint,
    added: Seq<ControlPoint>,
)
    requires
        sorted_by_position(points),
        points.len() >= 2,
        key_of(points[0]) <= key_of(x) < key_of(points.last()),
        stable_sort_of(added, points.push(x)),
    ensures
        exists|q: int| 0 < q && q + 1 < added.len() && added[q] == x && #[trigger] added.remove(q) == points,
{
    lemma_split_point(points, key_of(x));
    let q = choose|q: int| #[trigger] splits_at(points, key_of(x), q);
    let ins = points.insert(q, x);
    assert forall|k: u64| #[trigger] ins.filter(at_key(k)) == points.push(x).filter(at_key(k)) by {
        lemma_insert_in_order(points, q, x, k);
        points.lemma_filter_push(x, at_key(k));
    }
    lemma_insert_in_order(points, q, x, 0);
    lemma_stable_sort_unique(added, ins, points.push(x));
    if q == 0 {
        assert(key_of(points[0]) > key_of(x));
    }
    if q == points.len() {
        assert(key_of(points[points.len() - 1]) <= key_of(x));
    }
    assert(ins.remove(q) =~= points);
    assert(ins[q] == x);
}

} // verus!

verus! {

/// The bit pattern encodes a NaN (all exponent bits set, some fraction bit set).
pub open spec fn is_nan_bits(bits: u64) -> bool {
    (0x7ff0_0000_0000_0000 < bits < SIGN_BIT) || bits > 0xfff0_0000_0000_0000
}

/// `bits` kept within `lo..=hi` as `f64::clamp` does: a NaN stays as it is, a
/// number below `lo` becomes `lo`, one above `hi` becomes `hi`.
pub open spec fn clamp_position(bits: u64, lo: u64, hi: u64) -> u64 {
    if is_nan_bits(bits) {
        bits
    } else if position_key(bits) < position_key(lo) {
        lo
    } else if position_key(bits) > position_key(hi) {
        hi
    } else {
        bits
    }
}

/// `bits.clamp(lo, hi)` on the binary64 numbers the patterns encode.
pub fn clamp_bits(bits: u64, lo: u64, hi: u64) -> (r: u64)
    ensures
        r == clamp_position(bits, lo, hi),
{
    let is_nan = (0x7ff0_0000_0000_0000 < bits && bits < SIGN_BIT) || bits > 0xfff0_0000_0000_0000;
    if is_nan {
        bits
    } else if order_key(bits) < order_key(lo) {
        lo
    } else if order_key(bits) > order_key(hi) {
        hi
    } else {
        bits
    }
}

/// A curve as the editor keeps it: two to `MAX_POINTS` points, the first at
/// position 0, the last at position 1, and every position between 0 and 1.
pub open spec fn pinned_ends(s: Seq<ControlPoint>) -> bool {
    &&& 2 <= s.len() <= MAX_POINTS
    &&& s[0].position == F64_0
    &&& s.last().position == F64_1
    &&& forall|i: int|
        0 <= i < s.len() ==> position_key(F64_0) <= #[trigger] key_of(s[i]) <= position_key(F64_1)
}

/// Every preset has its ends at positions 0 and 1 and all positions between.
pub proof fn lemma_presets_pin_ends(name: Seq<char>)
    ensures
        pinned_ends(preset_points(name)),
{
}

proof fn lemma_filter_first(s: Seq<ControlPoint>, k: u64)
    requires
        s.len() > 0,
        key_of(s[0]) == k,
    ensures
        s.filter(at_key(k)).len() > 0,
        s.filter(at_key(k))[0] == s[0],
    decreases s.len(),
{
    lemma_filter_of_push_last(s, k);
    if s.len() == 1 {
        reveal(Seq::filter);
        assert(s.drop_last() =~= Seq::<ControlPoint>::empty());
        assert(s.drop_last().filter(at_key(k)) =~= Seq::<ControlPoint>::empty());
    } else {
        lemma_filter_first(s.drop_last(), k);
    }
}

/// Sorting a curve whose positions lie between its first point (at 0) and a point at
/// 1 keeps that first point first and puts a point at 1 last.
pub proof fn lemma_sort_keeps_pinned_ends(input: Seq<ControlPoint>, out: Seq<ControlPoint>, w: int)
    requires
        input.len() >= 1,
        input[0].position == F64_0,
        0 <= w < input.len(),
        input[w].position == F64_1,
        forall|i: int|
            0 <= i < input.len() ==> position_key(F64_0) <= #[trigger] key_of(input[i]) <= position_key(
                F64_1,
            ),
        stable_sort_of(out, input),
        out.to_multiset() == input.to_multiset(),
    ensures
        out.len() == input.len(),
        out[0] == input[0],
        out.last().position == F64_1,
        forall|i: int|
            0 <= i < out.len() ==> position_key(F64_0) <= #[trigger] key_of(out[i]) <= position_key(
                F64_1,
            ),
{
    input.to_multiset_ensures();
    out.to_multiset_ensures();
    assert forall|i: int| 0 <= i < out.len() implies position_key(F64_0) <= #[trigger] key_of(out[i])
        <= position_key(F64_1) by {
        assert(out.contains(out[i]));
        assert(out.to_multiset().count(out[i]) > 0);
        assert(input.to_multiset().count(out[i]) > 0);
        assert(input.contains(out[i]));
    }
    assert(input.contains(input[w]));
    assert(input.to_multiset().count(input[w]) > 0);
    assert(out.to_multiset().count(input[w]) > 0);
    assert(out.contains(input[w]));
    let j = choose|j: int| 0 <= j < out.len() && out[j] == input[w];
    if j < out.len() - 1 {
        assert(key_of(out[j]) <= key_of(out[out.len() - 1]));
    }
    assert(key_of(out.last()) == position_key(F64_1));
    assert(input.contains(input[0]));
    assert(input.to_multiset().count(input[0]) > 0);
    assert(out.to_multiset().count(input[0]) > 0);
    assert(out.contains(input[0]));
    let z = choose|z: int| 0 <= z < out.len() && out[z] == input[0];
    if z > 0 {
        assert(key_of(out[0]) <= key_of(out[z]));
    }
    let k0 = position_key(F64_0);
    assert(key_of(out[0]) == k0);
    lemma_filter_first(out, k0);
    lemma_filter_first(input, k0);
    assert(out.filter(at_key(k0)) == input.filter(at_key(k0)));
}

} // verus!


verus! {

/// `a` encodes a smaller number than `b`, for binary64 patterns that are not NaN.
/// IEEE 754 encodes the non-negative numbers in increasing order of their patterns,
/// and a negative number as the pattern of its magnitude with the sign bit set;
/// positive and negative zero are the same number.
pub open spec fn binary64_less(a: u64, b: u64) -> bool {
    if a < SIGN_BIT && b < SIGN_BIT {
        a < b
    } else if a >= SIGN_BIT && b >= SIGN_BIT {
        a > b
    } else if a >= SIGN_BIT {
        !(a == SIGN_BIT && b == 0)
    } else {
        false
    }
}

/// `a` and `b` encode the same number (the same pattern, or the two zeros).
pub open spec fn binary64_same(a: u64, b: u64) -> bool {
    a == b || (a == 0 && b == SIGN_BIT) || (a == SIGN_BIT && b == 0)
}

/// The ordering key follows the numbers exactly: of two patterns that are not NaN,
/// the one encoding the smaller number has the smaller key, and patterns of the same
/// number have the same key.
pub proof fn lemma_position_key_follows_numbers(a: u64, b: u64)
    requires
        !is_nan_bits(a),
        !is_nan_bits(b),
    ensures
        binary64_less(a, b) <==> position_key(a) < position_key(b),
        binary64_same(a, b) <==> position_key(a) == position_key(b),
{
}

/// The points of a curve in order of position are in order of the numbers their
/// positions encode: no point has a smaller position than a point before it.
pub proof fn lemma_sorted_points_in_numeric_order(s: Seq<ControlPoint>, i: int, j: int)
    requires
        sorted_by_position(s),
        0 <= i < j < s.len(),
        !is_nan_bits(s[i].position),
        !is_nan_bits(s[j].position),
    ensures
        !binary64_less(s[j].position, s[i].position),
{
    lemma_position_key_follows_numbers(s[j].position, s[i].position);
}

/// Clamping keeps a number within `lo..=hi`, leaves a number already there as it is,
/// gives `hi` for a number above it and `lo` for one below it.
pub proof fn lemma_clamp_position_range(bits: u64, lo: u64, hi: u64)
    requires
        !is_nan_bits(bits),
        !is_nan_bits(lo),
        !is_nan_bits(hi),
        !binary64_less(hi, lo),
    ensures
        !binary64_less(clamp_position(bits, lo, hi), lo),
        !binary64_less(hi, clamp_position(bits, lo, hi)),
        !binary64_less(bits, lo) && !binary64_less(hi, bits) ==> clamp_position(bits, lo, hi) == bits,
        binary64_less(hi, bits) ==> clamp_position(bits, lo, hi) == hi,
        binary64_less(bits, lo) ==> clamp_position(bits, lo, hi) == lo,
{
    lemma_position_key_follows_numbers(hi, lo);
    lemma_position_key_follows_numbers(bits, lo);
    lemma_position_key_follows_numbers(hi, bits);
    let r = clamp_position(bits, lo, hi);
    lemma_position_key_follows_numbers(r, lo);
    lemma_position_key_follows_numbers(hi, r);
}

/// Clamping leaves a NaN as it is, as `f64::clamp` does.
pub proof fn lemma_clamp_position_keeps_nan(bits: u64, lo: u64, hi: u64)
    requires
        is_nan_bits(bits),
    ensures
        clamp_position(bits, lo, hi) == bits,
{
}

/// Clamping never reverses the order of two numbers.
pub proof fn lemma_clamp_position_monotone(a: u64, b: u64, lo: u64, hi: u64)
    requires
        !is_nan_bits(a),
        !is_nan_bits(b),
        !is_nan_bits(lo),
        !is_nan_bits(hi),
        !binary64_less(hi, lo),
        !binary64_less(b, a),
    ensures
        !binary64_less(clamp_position(b, lo, hi), clamp_position(a, lo, hi)),
{
    lemma_position_key_follows_numbers(hi, lo);
    lemma_position_key_follows_numbers(b, a);
    let ra = clamp_position(a, lo, hi);
    let rb = clamp_position(b, lo, hi);
    lemma_position_key_follows_numbers(rb, ra);
}

} // verus!
