//! Notification thresholds and usage status.
//!
//! Usage percentages are floats in the data; a percentage is handed to this
//! module as its *level*, the greatest integer not above it (for a NaN
//! percentage, which no comparison holds of: the largest `i64` where it is
//! compared with `<`, the smallest where it is compared with `>=`). For an
//! integer threshold `t`, `p < t` holds exactly when `level(p) < t`, and
//! `p >= t` exactly when `level(p) >= t`, so every decision below is the same
//! as on the percentage itself.
use vstd::prelude::*;

verus! {

/// A threshold is crossed when usage moves from below it to at or above it.
pub open spec fn crosses(previous_level: i64, next_level: i64, t: u8) -> bool {
    previous_level < t && t <= next_level
}

/// The thresholds crossed between two levels, in the order they are given.
pub open spec fn crossings_spec(previous_level: i64, next_level: i64, thresholds: Seq<u8>) -> Seq<u8> {
    thresholds.filter(|t: u8| crosses(previous_level, next_level, t))
}

/// The thresholds that usage crossed on its way from `previous_level` to
/// `next_level`, in the order of `thresholds`.
pub fn threshold_crossings(previous_level: i64, next_level: i64, thresholds: &[u8]) -> (res: Vec<u8>)
    ensures
        res@ == crossings_spec(previous_level, next_level, thresholds@),
{
    let ghost pred = |t: u8| crosses(previous_level, next_level, t);
    let mut res: Vec<u8> = Vec::new();
    let mut i: usize = 0;
    while i < thresholds.len()
        invariant
            i <= thresholds@.len(),
            pred == (|t: u8| crosses(previous_level, next_level, t)),
            res@ == thresholds@.take(i as int).filter(pred),
        decreases thresholds@.len() - i,
    {
        let t = thresholds[i];
        proof {
            assert(thresholds@.take(i + 1).drop_last() =~= thresholds@.take(i as int));
            assert(thresholds@.take(i + 1).last() == t);
            reveal_with_fuel(Seq::filter, 1);
            assert(thresholds@.take(i + 1).filter(pred) == (if pred(t) {
                thresholds@.take(i as int).filter(pred).push(t)
            } else {
                thresholds@.take(i as int).filter(pred)
            }));
        }
        if previous_level < t as i64 && t as i64 <= next_level {
            res.push(t);
        }
        i += 1;
    }
    proof {
        assert(thresholds@.take(thresholds@.len() as int) =~= thresholds@);
    }
    res
}

proof fn lemma_filter_none(s: Seq<u8>, pred: spec_fn(u8) -> bool)
    requires
        forall|i: int| 0 <= i < s.len() ==> !pred(#[trigger] s[i]),
    ensures
        s.filter(pred) == Seq::<u8>::empty(),
    decreases s.len(),
{
    reveal_with_fuel(Seq::filter, 1);
    if s.len() > 0 {
        lemma_filter_none(s.drop_last(), pred);
        assert(!pred(s[s.len() - 1]));
    } else {
        assert(s.filter(pred) =~= Seq::<u8>::empty());
    }
}

/// Usage that did not rise crosses no threshold.
pub proof fn lemma_no_crossing_without_rise(previous_level: i64, next_level: i64, thresholds: Seq<u8>)
    requires
        next_level <= previous_level,
    ensures
        crossings_spec(previous_level, next_level, thresholds) == Seq::<u8>::empty(),
{
    lemma_filter_none(thresholds, |t: u8| crosses(previous_level, next_level, t));
}

pub open spec fn sorted(s: Seq<u8>) -> bool {
    forall|i: int, j: int| 0 <= i <= j < s.len() ==> s[i] <= s[j]
}

/// Usage that rises in two steps crosses, over both steps, exactly the
/// thresholds that it crosses in one step, each once and in order
/// (thresholds given in ascending order).
pub proof fn lemma_crossings_compose(a: i64, b: i64, c: i64, thresholds: Seq<u8>)
    requires
        a <= b <= c,
        sorted(thresholds),
    ensures
        crossings_spec(a, b, thresholds) + crossings_spec(b, c, thresholds) == crossings_spec(
            a,
            c,
            thresholds,
        ),
    decreases thresholds.len(),
{
    reveal_with_fuel(Seq::filter, 1);
    let p1 = |t: u8| crosses(a, b, t);
    let p2 = |t: u8| crosses(b, c, t);
    let p = |t: u8| crosses(a, c, t);
    if thresholds.len() == 0 {
        assert(crossings_spec(a, b, thresholds) + crossings_spec(b, c, thresholds) =~= Seq::<u8>::empty());
    } else {
        let s = thresholds.drop_last();
        let x = thresholds.last();
        assert(sorted(s));
        lemma_crossings_compose(a, b, c, s);
        if p2(x) {
            assert(crossings_spec(a, b, thresholds) + crossings_spec(b, c, thresholds) =~= (
            crossings_spec(a, b, s) + crossings_spec(b, c, s)).push(x));
        } else if p1(x) {
            assert forall|i: int| 0 <= i < s.len() implies !p2(#[trigger] s[i]) by {
                assert(s[i] == thresholds[i]);
                assert(thresholds[i] <= thresholds[thresholds.len() - 1]);
            }
            lemma_filter_none(s, p2);
            assert(crossings_spec(a, b, thresholds) + crossings_spec(b, c, thresholds) =~= (
            crossings_spec(a, b, s) + crossings_spec(b, c, s)).push(x));
        } else {
            assert(!p(x));
        }
    }
}

/// How many times a value occurs in a sequence.
pub open spec fn count_of(s: Seq<u8>, t: u8) -> nat
    decreases s.len(),
{
    if s.len() == 0 {
        0
    } else {
        count_of(s.drop_last(), t) + if s.last() == t {
            1nat
        } else {
            0nat
        }
    }
}

proof fn lemma_count_filter(s: Seq<u8>, pred: spec_fn(u8) -> bool, t: u8)
    ensures
        count_of(s.filter(pred), t) > 0 ==> pred(t),
    decreases s.len(),
{
    reveal_with_fuel(Seq::filter, 1);
    if s.len() > 0 {
        lemma_count_filter(s.drop_last(), pred, t);
        let x = s.last();
        if pred(x) {
            assert(s.filter(pred).drop_last() =~= s.drop_last().filter(pred));
            assert(s.filter(pred).last() == x);
        }
    }
}

/// A threshold is reported as crossed, as many times as it is given, exactly
/// when the previous level is below it and the next level at or above it;
/// otherwise it is not reported at all.
pub proof fn lemma_crossed_exactly_between(previous_level: i64, next_level: i64, thresholds: Seq<u8>, t: u8)
    ensures
        count_of(crossings_spec(previous_level, next_level, thresholds), t) == if previous_level < t && t
            <= next_level {
            count_of(thresholds, t)
        } else {
            0
        },
    decreases thresholds.len(),
{
    reveal_with_fuel(Seq::filter, 1);
    let p = |x: u8| crosses(previous_level, next_level, x);
    if thresholds.len() > 0 {
        let s = thresholds.drop_last();
        let x = thresholds.last();
        lemma_crossed_exactly_between(previous_level, next_level, s, t);
        if p(x) {
            assert(crossings_spec(previous_level, next_level, thresholds).drop_last() =~= crossings_spec(
                previous_level,
                next_level,
                s,
            ));
            assert(crossings_spec(previous_level, next_level, thresholds).last() == x);
        } else {
            assert(crossings_spec(previous_level, next_level, thresholds) =~= crossings_spec(
                previous_level,
                next_level,
                s,
            ));
        }
    } else {
        assert(crossings_spec(previous_level, next_level, thresholds) =~= Seq::<u8>::empty());
    }
}

/// Usage that rises in two steps crosses, over both steps, each threshold as
/// many times as it does in one step, whatever the order of the thresholds:
/// no crossing is lost or repeated, and none falls in both steps.
pub proof fn lemma_crossings_split(a: i64, b: i64, c: i64, thresholds: Seq<u8>, t: u8)
    requires
        a <= b <= c,
    ensures
        count_of(crossings_spec(a, c, thresholds), t) == count_of(crossings_spec(a, b, thresholds), t)
            + count_of(crossings_spec(b, c, thresholds), t),
        count_of(crossings_spec(a, b, thresholds), t) == 0 || count_of(crossings_spec(b, c, thresholds), t)
            == 0,
    decreases thresholds.len(),
{
    reveal_with_fuel(Seq::filter, 1);
    let p1 = |x: u8| crosses(a, b, x);
    let p2 = |x: u8| crosses(b, c, x);
    let p = |x: u8| crosses(a, c, x);
    lemma_count_filter(thresholds, p1, t);
    lemma_count_filter(thresholds, p2, t);
    if thresholds.len() > 0 {
        let s = thresholds.drop_last();
        let x = thresholds.last();
        lemma_crossings_split(a, b, c, s, t);
        if p1(x) {
            assert(crossings_spec(a, b, thresholds).drop_last() =~= crossings_spec(a, b, s));
            assert(crossings_spec(a, c, thresholds).drop_last() =~= crossings_spec(a, c, s));
        } else if p2(x) {
            assert(crossings_spec(b, c, thresholds).drop_last() =~= crossings_spec(b, c, s));
            assert(crossings_spec(a, c, thresholds).drop_last() =~= crossings_spec(a, c, s));
        } else {
            assert(!p(x));
        }
    }
}

/// How close usage is to its limit.
#[derive(PartialEq, Eq, Structural, Clone, Copy, Debug)]
pub enum UsageStatus {
    Normal,
    Warning,
    Critical,
    Exhausted,
}

/// The status for a usage level: exhausted from 100, critical from 90,
/// warning from 75.
pub open spec fn status_spec(level: i64) -> UsageStatus {
    if level >= 100 {
        UsageStatus::Exhausted
    } else if level >= 90 {
        UsageStatus::Critical
    } else if level >= 75 {
        UsageStatus::Warning
    } else {
        UsageStatus::Normal
    }
}

pub open spec fn status_rank(s: UsageStatus) -> int {
    match s {
        UsageStatus::Normal => 0,
        UsageStatus::Warning => 1,
        UsageStatus::Critical => 2,
        UsageStatus::Exhausted => 3,
    }
}

/// Classifies a usage level.
pub fn usage_status(level: i64) -> (res: UsageStatus)
    ensures
        res == status_spec(level),
        level >= 100 ==> res == UsageStatus::Exhausted,
        90 <= level < 100 ==> res == UsageStatus::Critical,
        75 <= level < 90 ==> res == UsageStatus::Warning,
        level < 75 ==> res == UsageStatus::Normal,
{
    if level >= 100 {
        UsageStatus::Exhausted
    } else if level >= 90 {
        UsageStatus::Critical
    } else if level >= 75 {
        UsageStatus::Warning
    } else {
        UsageStatus::Normal
    }
}

impl UsageStatus {
    /// The name the status goes by in the snapshot.
    pub fn label(&self) -> (res: &'static str)
        ensures
            res@ == status_label_spec(*self),
            *self == UsageStatus::Normal ==> res@ == "ok"@,
            *self == UsageStatus::Warning ==> res@ == "warning"@,
            *self == UsageStatus::Critical ==> res@ == "critical"@,
            *self == UsageStatus::Exhausted ==> res@ == "exhausted"@,
    {
        proof {
            reveal_strlit("ok");
            reveal_strlit("warning");
            reveal_strlit("critical");
            reveal_strlit("exhausted");
        }
        match self {
            UsageStatus::Normal => "ok",
            UsageStatus::Warning => "warning",
            UsageStatus::Critical => "critical",
            UsageStatus::Exhausted => "exhausted",
        }
    }
}

pub open spec fn status_label_spec(s: UsageStatus) -> Seq<char> {
    match s {
        UsageStatus::Normal => "ok"@,
        UsageStatus::Warning => "warning"@,
        UsageStatus::Critical => "critical"@,
        UsageStatus::Exhausted => "exhausted"@,
    }
}

/// More usage never gives a milder status.
pub proof fn lemma_status_monotone(lower: i64, higher: i64)
    requires
        lower <= higher,
    ensures
        status_rank(status_spec(lower)) <= status_rank(status_spec(higher)),
{
}

} // verus!
