//! Comparisons with the values of rules.

use crate::double::Double;
use vstd::prelude::*;

verus! {

/// A span of time, in nanoseconds.
#[derive(Clone, Copy, Debug)]
pub struct Duration(pub i128);

/// A point in time, in nanoseconds since the Unix epoch.
#[derive(Clone, Copy, Debug)]
pub struct Timestamp(pub i128);

/// Values that rules compare. They stand in one line, but for NaN, which
/// stands nowhere: it is not equal to, nor ordered against, anything.
pub trait MaybeNan: Sized + Copy {
    /// Whether the value stands nowhere.
    spec fn nan(self) -> bool;

    /// Where the value stands.
    spec fn rank(self) -> int;

    /// Whether the value stands nowhere.
    fn is_nan(&self) -> (r: bool)
        ensures
            r == self.nan(),
    ;

    /// Whether the value stands before `other`, if both stand somewhere.
    fn before(&self, other: &Self) -> (r: bool)
        ensures
            r == (self.rank() < other.rank()),
    ;
}

impl MaybeNan for i64 {
    open spec fn nan(self) -> bool {
        false
    }

    open spec fn rank(self) -> int {
        self as int
    }

    fn is_nan(&self) -> (r: bool) {
        false
    }

    fn before(&self, other: &i64) -> (r: bool) {
        *self < *other
    }
}

impl MaybeNan for u64 {
    open spec fn nan(self) -> bool {
        false
    }

    open spec fn rank(self) -> int {
        self as int
    }

    fn is_nan(&self) -> (r: bool) {
        false
    }

    fn before(&self, other: &u64) -> (r: bool) {
        *self < *other
    }
}

impl MaybeNan for Duration {
    open spec fn nan(self) -> bool {
        false
    }

    open spec fn rank(self) -> int {
        self.0 as int
    }

    fn is_nan(&self) -> (r: bool) {
        false
    }

    fn before(&self, other: &Duration) -> (r: bool) {
        self.0 < other.0
    }
}

impl MaybeNan for Timestamp {
    open spec fn nan(self) -> bool {
        false
    }

    open spec fn rank(self) -> int {
        self.0 as int
    }

    fn is_nan(&self) -> (r: bool) {
        false
    }

    fn before(&self, other: &Timestamp) -> (r: bool) {
        self.0 < other.0
    }
}

impl MaybeNan for Double {
    open spec fn nan(self) -> bool {
        self.spec_nan()
    }

    open spec fn rank(self) -> int {
        self.position()
    }

    fn is_nan(&self) -> (r: bool) {
        Double::is_nan(*self)
    }

    fn before(&self, other: &Double) -> (r: bool) {
        self.is_below(*other)
    }
}

/// `a < b`.
pub open spec fn lt<T: MaybeNan>(a: T, b: T) -> bool {
    !a.nan() && !b.nan() && a.rank() < b.rank()
}

/// `a <= b`.
pub open spec fn le<T: MaybeNan>(a: T, b: T) -> bool {
    !a.nan() && !b.nan() && a.rank() <= b.rank()
}

/// `a == b`.
pub open spec fn same<T: MaybeNan>(a: T, b: T) -> bool {
    !a.nan() && !b.nan() && a.rank() == b.rank()
}

/// Whether the list holds a value equal to `v`.
pub open spec fn listed_value<T: MaybeNan>(list: Seq<T>, v: T) -> bool {
    exists|i: int| 0 <= i < list.len() && same(v, #[trigger] list[i])
}

/// `a < b`.
pub fn less<T: MaybeNan>(a: &T, b: &T) -> (r: bool)
    ensures
        r == lt(*a, *b),
{
    !a.is_nan() && !b.is_nan() && a.before(b)
}

/// `a <= b`.
pub fn at_most<T: MaybeNan>(a: &T, b: &T) -> (r: bool)
    ensures
        r == le(*a, *b),
{
    !a.is_nan() && !b.is_nan() && !b.before(a)
}

/// `a == b`.
pub fn equal<T: MaybeNan>(a: &T, b: &T) -> (r: bool)
    ensures
        r == same(*a, *b),
{
    !a.is_nan() && !b.is_nan() && !a.before(b) && !b.before(a)
}

/// Whether the list holds a value equal to `v`.
fn has_value<T: MaybeNan>(list: &Vec<T>, v: &T) -> (r: bool)
    ensures
        r == listed_value(list@, *v),
{
    let mut i: usize = 0;
    while i < list.len()
        invariant
            i <= list@.len(),
            forall|j: int| 0 <= j < i ==> !same(*v, #[trigger] list@[j]),
        decreases list@.len() - i,
    {
        if equal(v, &list[i]) {
            return true;
        }
        i += 1;
    }
    false
}

/// A comparison with the rule's values: the numeric, duration and timestamp
/// rules. The range variants are the combinations `validate.proto` spells
/// out on the `gt` and `gte` rules when a `lt` or `lte` is also set.
#[derive(Debug)]
pub enum Cmp<T> {
    Const(T),
    Lt(T),
    Lte(T),
    Gt(T),
    Gte(T),
    /// `gt < lt`: the value must be strictly inside.
    GtLt { gt: T, lt: T },
    /// `lt < gt`: the value must be strictly outside `lt..=gt`.
    GtLtExclusive { gt: T, lt: T },
    GtLte { gt: T, lte: T },
    GtLteExclusive { gt: T, lte: T },
    GteLt { gte: T, lt: T },
    GteLtExclusive { gte: T, lt: T },
    GteLte { gte: T, lte: T },
    GteLteExclusive { gte: T, lte: T },
    In(Vec<T>),
    NotIn(Vec<T>),
}

/// What a [`Cmp`] holds.
pub enum CmpV<T> {
    Const(T),
    Lt(T),
    Lte(T),
    Gt(T),
    Gte(T),
    GtLt { gt: T, lt: T },
    GtLtExclusive { gt: T, lt: T },
    GtLte { gt: T, lte: T },
    GtLteExclusive { gt: T, lte: T },
    GteLt { gte: T, lt: T },
    GteLtExclusive { gte: T, lt: T },
    GteLte { gte: T, lte: T },
    GteLteExclusive { gte: T, lte: T },
    In(Seq<T>),
    NotIn(Seq<T>),
}

impl<T> View for Cmp<T> {
    type V = CmpV<T>;

    open spec fn view(&self) -> CmpV<T> {
        match *self {
            Cmp::Const(c) => CmpV::Const(c),
            Cmp::Lt(lt) => CmpV::Lt(lt),
            Cmp::Lte(lte) => CmpV::Lte(lte),
            Cmp::Gt(gt) => CmpV::Gt(gt),
            Cmp::Gte(gte) => CmpV::Gte(gte),
            Cmp::GtLt { gt, lt } => CmpV::GtLt { gt, lt },
            Cmp::GtLtExclusive { gt, lt } => CmpV::GtLtExclusive { gt, lt },
            Cmp::GtLte { gt, lte } => CmpV::GtLte { gt, lte },
            Cmp::GtLteExclusive { gt, lte } => CmpV::GtLteExclusive { gt, lte },
            Cmp::GteLt { gte, lt } => CmpV::GteLt { gte, lt },
            Cmp::GteLtExclusive { gte, lt } => CmpV::GteLtExclusive { gte, lt },
            Cmp::GteLte { gte, lte } => CmpV::GteLte { gte, lte },
            Cmp::GteLteExclusive { gte, lte } => CmpV::GteLteExclusive { gte, lte },
            Cmp::In(list) => CmpV::In(list@),
            Cmp::NotIn(list) => CmpV::NotIn(list@),
        }
    }
}

impl<T: MaybeNan> CmpV<T> {
    /// Whether `v` breaks the rule. NaN breaks every rule but `not_in`; a
    /// bound that is NaN is not crossed by any value.
    pub open spec fn broken_by(self, v: T) -> bool {
        match self {
            CmpV::Const(c) => !same(v, c),
            CmpV::Lt(bound) => v.nan() || le(bound, v),
            CmpV::Lte(bound) => v.nan() || lt(bound, v),
            CmpV::Gt(bound) => v.nan() || le(v, bound),
            CmpV::Gte(bound) => v.nan() || lt(v, bound),
            CmpV::GtLt { gt, lt: upper } => v.nan() || le(upper, v) || le(v, gt),
            CmpV::GtLtExclusive { gt, lt: upper } => v.nan() || (le(upper, v) && le(v, gt)),
            CmpV::GtLte { gt, lte } => v.nan() || lt(lte, v) || le(v, gt),
            CmpV::GtLteExclusive { gt, lte } => v.nan() || (lt(lte, v) && le(v, gt)),
            CmpV::GteLt { gte, lt: upper } => v.nan() || le(upper, v) || lt(v, gte),
            CmpV::GteLtExclusive { gte, lt: upper } => v.nan() || (le(upper, v) && lt(v, gte)),
            CmpV::GteLte { gte, lte } => v.nan() || lt(lte, v) || lt(v, gte),
            CmpV::GteLteExclusive { gte, lte } => v.nan() || (lt(lte, v) && lt(v, gte)),
            CmpV::In(list) => !listed_value(list, v),
            CmpV::NotIn(list) => listed_value(list, v),
        }
    }
}

impl<T: MaybeNan> Cmp<T> {
    /// Whether `value` breaks the rule.
    pub fn fails(&self, value: &T) -> (r: bool)
        ensures
            r == self@.broken_by(*value),
    {
        if value.is_nan() {
            // NaN is not equal to, in, or ordered against anything: every
            // rule fails except `not_in`, which it trivially satisfies.
            return match self {
                Cmp::NotIn(_) => false,
                _ => true,
            };
        }
        match self {
            Cmp::Const(c) => !equal(value, c),
            Cmp::Lt(lt) => at_most(lt, value),
            Cmp::Lte(lte) => less(lte, value),
            Cmp::Gt(gt) => at_most(value, gt),
            Cmp::Gte(gte) => less(value, gte),
            Cmp::GtLt { gt, lt } => at_most(lt, value) || at_most(value, gt),
            Cmp::GtLtExclusive { gt, lt } => at_most(lt, value) && at_most(value, gt),
            Cmp::GtLte { gt, lte } => less(lte, value) || at_most(value, gt),
            Cmp::GtLteExclusive { gt, lte } => less(lte, value) && at_most(value, gt),
            Cmp::GteLt { gte, lt } => at_most(lt, value) || less(value, gte),
            Cmp::GteLtExclusive { gte, lt } => at_most(lt, value) && less(value, gte),
            Cmp::GteLte { gte, lte } => less(lte, value) || less(value, gte),
            Cmp::GteLteExclusive { gte, lte } => less(lte, value) && less(value, gte),
            Cmp::In(list) => !has_value(list, value),
            Cmp::NotIn(list) => has_value(list, value),
        }
    }
}

/// NaN breaks every comparison rule but `not_in`, which it satisfies.
pub proof fn law_nan_breaks_all_but_not_in<T: MaybeNan>(rule: CmpV<T>, v: T)
    requires
        v.nan(),
    ensures
        rule.broken_by(v) <==> !(rule is NotIn),
{
}

/// A range rule holds of a value exactly when both of its bounds do.
pub proof fn law_range_is_both_bounds<T: MaybeNan>(lower: T, upper: T, v: T)
    ensures
        (CmpV::GtLt { gt: lower, lt: upper }).broken_by(v) <==> CmpV::Gt(lower).broken_by(v)
            || CmpV::Lt(upper).broken_by(v),
        (CmpV::GtLte { gt: lower, lte: upper }).broken_by(v) <==> CmpV::Gt(lower).broken_by(v)
            || CmpV::Lte(upper).broken_by(v),
        (CmpV::GteLt { gte: lower, lt: upper }).broken_by(v) <==> CmpV::Gte(lower).broken_by(v)
            || CmpV::Lt(upper).broken_by(v),
        (CmpV::GteLte { gte: lower, lte: upper }).broken_by(v) <==> CmpV::Gte(lower).broken_by(v)
            || CmpV::Lte(upper).broken_by(v),
{
}

/// An exclusive range rule holds of a value exactly when one of its bounds
/// does.
pub proof fn law_exclusive_range_is_either_bound<T: MaybeNan>(lower: T, upper: T, v: T)
    ensures
        (CmpV::GtLtExclusive { gt: lower, lt: upper }).broken_by(v) <==> CmpV::Gt(
            lower,
        ).broken_by(v) && CmpV::Lt(upper).broken_by(v),
        (CmpV::GtLteExclusive { gt: lower, lte: upper }).broken_by(v) <==> CmpV::Gt(
            lower,
        ).broken_by(v) && CmpV::Lte(upper).broken_by(v),
        (CmpV::GteLtExclusive { gte: lower, lt: upper }).broken_by(v) <==> CmpV::Gte(
            lower,
        ).broken_by(v) && CmpV::Lt(upper).broken_by(v),
        (CmpV::GteLteExclusive { gte: lower, lte: upper }).broken_by(v) <==> CmpV::Gte(
            lower,
        ).broken_by(v) && CmpV::Lte(upper).broken_by(v),
{
}

/// Of a number, `in` and `not_in` with one list are each other's opposite.
pub proof fn law_in_and_not_in_are_opposite<T: MaybeNan>(list: Seq<T>, v: T)
    ensures
        CmpV::In(list).broken_by(v) <==> !CmpV::NotIn(list).broken_by(v),
{
}

/// The timestamp rules relative to the time of validation.
#[derive(Clone, Copy, Debug)]
pub enum NowTest {
    LtNow,
    GtNow,
    Within(Duration),
}

/// Whether `v` breaks a rule relative to the time of validation.
pub open spec fn now_broken_by(test: NowTest, v: int, now: int) -> bool {
    match test {
        NowTest::LtNow => v > now,
        NowTest::GtNow => v < now,
        NowTest::Within(within) => v < now - within.0 || v > now + within.0,
    }
}

impl NowTest {
    /// Whether `value` breaks the rule when the time of validation is `now`.
    pub fn fails(&self, value: Timestamp, now: Timestamp) -> (r: bool)
        ensures
            r == now_broken_by(*self, value.0 as int, now.0 as int),
    {
        match self {
            NowTest::LtNow => value.0 > now.0,
            NowTest::GtNow => value.0 < now.0,
            NowTest::Within(within) => {
                let too_early = match now.0.checked_sub(within.0) {
                    Some(earliest) => value.0 < earliest,
                    None => within.0 < 0,
                };
                let too_late = match now.0.checked_add(within.0) {
                    Some(latest) => value.0 > latest,
                    None => within.0 < 0,
                };
                too_early || too_late
            },
        }
    }
}

/// Nanoseconds in a second.
pub const NANOS_PER_SECOND: i128 = 1_000_000_000;

/// Calls `std::time::SystemTime::elapsed` of the Unix epoch: whether the
/// system clock has passed the epoch, and how far it is from it, in whole
/// seconds and the nanoseconds of the last one, which are fewer than a
/// second's.
#[verifier::external_body]
fn clock() -> (r: (bool, u64, u32))
    ensures
        r.2 < 1_000_000_000,
{
    match std::time::SystemTime::UNIX_EPOCH.elapsed() {
        Ok(since) => (true, since.as_secs(), since.subsec_nanos()),
        Err(before) => (false, before.duration().as_secs(), before.duration().subsec_nanos()),
    }
}

/// The point in time that far from the epoch.
pub fn time_from_clock(after_epoch: bool, seconds: u64, nanos: u32) -> (r: Timestamp)
    ensures
        r.0 == (if after_epoch {
            seconds * 1_000_000_000 + nanos
        } else {
            -(seconds * 1_000_000_000 + nanos)
        }),
{
    let distance: i128 = seconds as i128 * NANOS_PER_SECOND + nanos as i128;
    if after_epoch {
        Timestamp(distance)
    } else {
        Timestamp(-distance)
    }
}

/// The time by the system clock.
pub fn now() -> (r: Timestamp)
    ensures
        -18446744073709551616000000000 < r.0 < 18446744073709551616000000000,
{
    let (after_epoch, seconds, nanos) = clock();
    time_from_clock(after_epoch, seconds, nanos)
}

} // verus!
