//! Building the checks of one rule field.
//!
//! [`checks`] is asked once per rule field a rules message sets, in
//! field-number order, and answers with the checks `validate.proto`
//! attaches to that field: usually one, two for the well-known string
//! formats with their `_empty` companion, none for fields that are not
//! rules (`example`, `strict`, `items`, ...). The messages are formatted
//! here, from the rule values, as the CEL expressions would. This module
//! has the comparison rules; [`string`] and [`misc`] the rest.

use super::order::{
    at_most, le, less, lt, same, Cmp, CmpV, Duration, MaybeNan, NowTest, Timestamp,
};
use super::pattern::{compile_regex, regex_in};
use super::{Test, TestV};
use crate::double::Double;
use crate::error::{Error, ErrorV};
use crate::text::{
    concat, concat3, decimal, list_text, listed, signed_decimal, signed_text, texts, unsigned_text,
};
use crate::validate::rules::{
    GreaterThan, LessThan, Moment, NumericRules, RulesType, Shown, TimestampGreaterThan,
    TimestampLessThan, TimestampRules,
};
use vstd::prelude::*;

pub mod laws;
pub mod misc;
pub mod string;

verus! {

/// A check less its rule path, which the caller knows.
pub struct Native {
    pub id: String,
    pub message: String,
    pub test: Test,
}

/// What a [`Native`] holds.
pub struct NativeV {
    pub id: Seq<char>,
    pub message: Seq<char>,
    pub test: TestV,
}

impl View for Native {
    type V = NativeV;

    open spec fn view(&self) -> NativeV {
        NativeV { id: self.id@, message: self.message@, test: self.test@ }
    }
}

/// What an optional check holds.
pub open spec fn native_of(native: Option<Native>) -> Option<NativeV> {
    match native {
        Some(native) => Some(native@),
        None => None,
    }
}

/// What the checks hold.
pub open spec fn natives_of(natives: Seq<Native>) -> Seq<NativeV> {
    natives.map_values(|n: Native| n@)
}

/// What building checks gives.
pub open spec fn built<E>(r: Result<Vec<Native>, Error<E>>) -> Result<Seq<NativeV>, ErrorV<E>> {
    match r {
        Ok(natives) => Ok(natives_of(natives@)),
        Err(error) => Err(error@),
    }
}

/// The check of the rule `suffix` of the rules `prefix`.
pub open spec fn native(
    prefix: Seq<char>,
    suffix: Seq<char>,
    message: Seq<char>,
    test: TestV,
) -> NativeV {
    NativeV { id: prefix + "."@ + suffix, message, test }
}

/// One check, or none.
pub open spec fn at_most_one(native: Option<NativeV>) -> Seq<NativeV> {
    match native {
        Some(native) => seq![native],
        None => Seq::empty(),
    }
}

impl Native {
    /// The check of the rule `suffix` of the rules `prefix`.
    pub(crate) fn new(prefix: &str, suffix: &str, message: String, test: Test) -> (r: Native)
        ensures
            r@ == native(prefix@, suffix@, message@, test@),
    {
        Native { id: concat3(prefix, ".", suffix), message, test }
    }
}

/// One check, or none.
pub(crate) fn collect<E>(native: Option<Native>) -> (r: Result<Vec<Native>, Error<E>>)
    ensures
        built(r) == Ok::<Seq<NativeV>, ErrorV<E>>(at_most_one(native_of(native))),
{
    let mut natives: Vec<Native> = Vec::new();
    match native {
        Some(native) => {
            natives.push(native);
            assert(natives_of(natives@) =~= seq![native@]);
        },
        None => {
            assert(natives_of(natives@) =~= Seq::empty());
        },
    }
    Ok(natives)
}

/// What a [`Shown`] holds.
pub struct ShownV<T> {
    pub value: T,
    pub text: Seq<char>,
}

impl<T> View for Shown<T> {
    type V = ShownV<T>;

    open spec fn view(&self) -> ShownV<T> {
        ShownV { value: self.value, text: self.text@ }
    }
}

/// What an optional value holds.
pub open spec fn shown_of<T>(value: Option<Shown<T>>) -> Option<ShownV<T>> {
    match value {
        Some(value) => Some(value@),
        None => None,
    }
}

/// What the values hold.
pub open spec fn all_shown<T>(values: Seq<Shown<T>>) -> Seq<ShownV<T>> {
    values.map_values(|v: Shown<T>| v@)
}

/// The values alone.
pub open spec fn values_of<T>(shown: Seq<ShownV<T>>) -> Seq<T> {
    shown.map_values(|v: ShownV<T>| v.value)
}

/// Their texts alone.
pub open spec fn texts_of<T>(shown: Seq<ShownV<T>>) -> Seq<Seq<char>> {
    shown.map_values(|v: ShownV<T>| v.text)
}

/// Values that comparison rules compare, with the test of each rule.
pub trait Compared: MaybeNan {
    /// The test of a comparison.
    spec fn spec_test(rule: CmpV<Self>) -> TestV;

    /// The test of a comparison.
    fn test(rule: Cmp<Self>) -> (r: Test)
        ensures
            r@ == Self::spec_test(rule@),
    ;
}

impl Compared for i64 {
    open spec fn spec_test(rule: CmpV<i64>) -> TestV {
        TestV::Int(rule)
    }

    fn test(rule: Cmp<i64>) -> (r: Test) {
        Test::Int(rule)
    }
}

impl Compared for u64 {
    open spec fn spec_test(rule: CmpV<u64>) -> TestV {
        TestV::Uint(rule)
    }

    fn test(rule: Cmp<u64>) -> (r: Test) {
        Test::Uint(rule)
    }
}

impl Compared for Double {
    open spec fn spec_test(rule: CmpV<Double>) -> TestV {
        TestV::Double(rule)
    }

    fn test(rule: Cmp<Double>) -> (r: Test) {
        Test::Double(rule)
    }
}

impl Compared for Duration {
    open spec fn spec_test(rule: CmpV<Duration>) -> TestV {
        TestV::Duration(rule)
    }

    fn test(rule: Cmp<Duration>) -> (r: Test) {
        Test::Duration(rule)
    }
}

impl Compared for Timestamp {
    open spec fn spec_test(rule: CmpV<Timestamp>) -> TestV {
        TestV::Timestamp(rule)
    }

    fn test(rule: Cmp<Timestamp>) -> (r: Test) {
        Test::Timestamp(rule)
    }
}

/// Values of rules, which are widened to the type they are compared in.
pub trait RuleValue: Sized {
    /// The type that the values are compared in.
    type Wide: Compared;

    /// The value as it is compared, and its text.
    spec fn spec_shown(self) -> ShownV<Self::Wide>;

    /// The value as it is compared, and its text.
    fn shown(&self) -> (r: Shown<Self::Wide>)
        ensures
            r@ == self.spec_shown(),
    ;
}

impl RuleValue for i32 {
    type Wide = i64;

    open spec fn spec_shown(self) -> ShownV<i64> {
        ShownV { value: self as i64, text: signed_decimal(self as int) }
    }

    fn shown(&self) -> (r: Shown<i64>) {
        Shown { value: *self as i64, text: signed_text(*self as i64) }
    }
}

impl RuleValue for i64 {
    type Wide = i64;

    open spec fn spec_shown(self) -> ShownV<i64> {
        ShownV { value: self, text: signed_decimal(self as int) }
    }

    fn shown(&self) -> (r: Shown<i64>) {
        Shown { value: *self, text: signed_text(*self) }
    }
}

impl RuleValue for u32 {
    type Wide = u64;

    open spec fn spec_shown(self) -> ShownV<u64> {
        ShownV { value: self as u64, text: decimal(self as nat) }
    }

    fn shown(&self) -> (r: Shown<u64>) {
        Shown { value: *self as u64, text: unsigned_text(*self as u64) }
    }
}

impl RuleValue for u64 {
    type Wide = u64;

    open spec fn spec_shown(self) -> ShownV<u64> {
        ShownV { value: self, text: decimal(self as nat) }
    }

    fn shown(&self) -> (r: Shown<u64>) {
        Shown { value: *self, text: unsigned_text(*self) }
    }
}

impl RuleValue for Shown<Double> {
    type Wide = Double;

    open spec fn spec_shown(self) -> ShownV<Double> {
        self@
    }

    fn shown(&self) -> (r: Shown<Double>) {
        Shown { value: self.value, text: self.text.clone() }
    }
}

/// A moment as one count of nanoseconds.
pub open spec fn nanos_in(m: Moment) -> int {
    m.seconds * 1_000_000_000 + m.nanos
}

/// A duration of a rule, as one count of nanoseconds.
pub fn duration(d: &Moment) -> (r: Duration)
    ensures
        r.0 == nanos_in(*d),
{
    Duration(d.seconds as i128 * 1_000_000_000 + d.nanos as i128)
}

/// A timestamp of a rule, as one count of nanoseconds.
pub fn timestamp(t: &Moment) -> (r: Timestamp)
    ensures
        r.0 == nanos_in(*t),
{
    Timestamp(t.seconds as i128 * 1_000_000_000 + t.nanos as i128)
}

impl RuleValue for Shown<Moment> {
    type Wide = Duration;

    open spec fn spec_shown(self) -> ShownV<Duration> {
        ShownV { value: Duration(nanos_in(self.value) as i128), text: self.text@ }
    }

    fn shown(&self) -> (r: Shown<Duration>) {
        Shown { value: duration(&self.value), text: self.text.clone() }
    }
}

/// The comparison rules of a numeric, duration or timestamp rules message,
/// with the values already in the type they are compared in.
pub struct Bounds<T> {
    pub constant: Option<Shown<T>>,
    pub lt: Option<Shown<T>>,
    pub lte: Option<Shown<T>>,
    pub gt: Option<Shown<T>>,
    pub gte: Option<Shown<T>>,
    pub in_list: Vec<Shown<T>>,
    pub not_in: Vec<Shown<T>>,
}

/// What a [`Bounds`] holds.
pub struct BoundsV<T> {
    pub constant: Option<ShownV<T>>,
    pub lt: Option<ShownV<T>>,
    pub lte: Option<ShownV<T>>,
    pub gt: Option<ShownV<T>>,
    pub gte: Option<ShownV<T>>,
    pub in_list: Seq<ShownV<T>>,
    pub not_in: Seq<ShownV<T>>,
}

impl<T> View for Bounds<T> {
    type V = BoundsV<T>;

    open spec fn view(&self) -> BoundsV<T> {
        BoundsV {
            constant: shown_of(self.constant),
            lt: shown_of(self.lt),
            lte: shown_of(self.lte),
            gt: shown_of(self.gt),
            gte: shown_of(self.gte),
            in_list: all_shown(self.in_list@),
            not_in: all_shown(self.not_in@),
        }
    }
}

/// Which rule field of a [`Bounds`] a field number names.
#[derive(Clone, Copy, Debug, PartialEq, Eq, Structural)]
pub enum Bound {
    Const,
    Lt,
    Lte,
    Gt,
    Gte,
    In,
    NotIn,
}

/// The values as they are compared.
pub open spec fn widened<S: RuleValue>(values: Seq<S>) -> Seq<ShownV<S::Wide>> {
    values.map_values(|v: S| v.spec_shown())
}

/// The comparison rules of a rules message.
pub open spec fn bounds_of<S: RuleValue>(r: NumericRules<S>) -> BoundsV<S::Wide> {
    BoundsV {
        constant: match r.constant {
            Some(v) => Some(v.spec_shown()),
            None => None,
        },
        lt: match r.less_than {
            Some(LessThan::Lt(v)) => Some(v.spec_shown()),
            _ => None,
        },
        lte: match r.less_than {
            Some(LessThan::Lte(v)) => Some(v.spec_shown()),
            _ => None,
        },
        gt: match r.greater_than {
            Some(GreaterThan::Gt(v)) => Some(v.spec_shown()),
            _ => None,
        },
        gte: match r.greater_than {
            Some(GreaterThan::Gte(v)) => Some(v.spec_shown()),
            _ => None,
        },
        in_list: widened(r.in_list@),
        not_in: widened(r.not_in@),
    }
}

/// The values as they are compared.
fn widen<S: RuleValue>(values: &Vec<S>) -> (r: Vec<Shown<S::Wide>>)
    ensures
        all_shown(r@) == widened(values@),
{
    let mut wide: Vec<Shown<S::Wide>> = Vec::new();
    let mut i: usize = 0;
    while i < values.len()
        invariant
            i <= values@.len(),
            all_shown(wide@) =~= widened(values@).take(i as int),
        decreases values@.len() - i,
    {
        let ghost before = wide@;
        wide.push(values[i].shown());
        assert(all_shown(wide@) =~= all_shown(before).push(values@[i as int].spec_shown()));
        i += 1;
    }
    assert(widened(values@).take(i as int) =~= widened(values@));
    wide
}

/// Reads the [`Bounds`] out of a rules message.
pub fn bounds<S: RuleValue>(r: &NumericRules<S>) -> (b: Bounds<S::Wide>)
    ensures
        b@ == bounds_of(*r),
{
    Bounds {
        constant: match &r.constant {
            Some(v) => Some(v.shown()),
            None => None,
        },
        lt: match &r.less_than {
            Some(LessThan::Lt(v)) => Some(v.shown()),
            _ => None,
        },
        lte: match &r.less_than {
            Some(LessThan::Lte(v)) => Some(v.shown()),
            _ => None,
        },
        gt: match &r.greater_than {
            Some(GreaterThan::Gt(v)) => Some(v.shown()),
            _ => None,
        },
        gte: match &r.greater_than {
            Some(GreaterThan::Gte(v)) => Some(v.shown()),
            _ => None,
        },
        in_list: widen(&r.in_list),
        not_in: widen(&r.not_in),
    }
}

/// The name of a lower bound's rule.
pub open spec fn lower_name(inclusive: bool) -> Seq<char> {
    if inclusive {
        "gte"@
    } else {
        "gt"@
    }
}

/// A lower bound in words.
pub open spec fn lower_words(inclusive: bool) -> Seq<char> {
    if inclusive {
        "greater than or equal to"@
    } else {
        "greater than"@
    }
}

/// The name of an upper bound's rule.
pub open spec fn upper_name(inclusive: bool) -> Seq<char> {
    if inclusive {
        "lte"@
    } else {
        "lt"@
    }
}

/// An upper bound in words.
pub open spec fn upper_words(inclusive: bool) -> Seq<char> {
    if inclusive {
        "less than or equal to"@
    } else {
        "less than"@
    }
}

/// The comparison with a range, or with its complement.
pub open spec fn range_rule<T>(
    lower: T,
    lower_inclusive: bool,
    upper: T,
    upper_inclusive: bool,
    exclusive: bool,
) -> CmpV<T> {
    match (lower_inclusive, upper_inclusive, exclusive) {
        (false, false, false) => CmpV::GtLt { gt: lower, lt: upper },
        (false, true, false) => CmpV::GtLte { gt: lower, lte: upper },
        (true, false, false) => CmpV::GteLt { gte: lower, lt: upper },
        (true, true, false) => CmpV::GteLte { gte: lower, lte: upper },
        (false, false, true) => CmpV::GtLtExclusive { gt: lower, lt: upper },
        (false, true, true) => CmpV::GtLteExclusive { gt: lower, lte: upper },
        (true, false, true) => CmpV::GteLtExclusive { gte: lower, lt: upper },
        (true, true, true) => CmpV::GteLteExclusive { gte: lower, lte: upper },
    }
}

/// What a range rule says.
pub open spec fn range_message(
    lower: Seq<char>,
    lower_inclusive: bool,
    joint: Seq<char>,
    upper: Seq<char>,
    upper_inclusive: bool,
) -> Seq<char> {
    "must be "@ + lower_words(lower_inclusive) + " "@ + lower + joint + upper_words(upper_inclusive)
        + " "@ + upper
}

impl<T: Compared> BoundsV<T> {
    /// The check of one comparison rule field, none when another rule field
    /// takes it over: `lt` and `lte` defer to a `gt` or `gte`, which spells
    /// out the range.
    pub open spec fn check(self, prefix: Seq<char>, bound: Bound) -> Option<NativeV> {
        let has_lower = self.gt is Some || self.gte is Some;
        match bound {
            Bound::Const => match self.constant {
                Some(c) => Some(
                    native(
                        prefix,
                        "const"@,
                        "must equal "@ + c.text,
                        T::spec_test(CmpV::Const(c.value)),
                    ),
                ),
                None => None,
            },
            Bound::Lt => match self.lt {
                Some(upper) => if has_lower {
                    None
                } else {
                    Some(
                        native(
                            prefix,
                            "lt"@,
                            "must be less than "@ + upper.text,
                            T::spec_test(CmpV::Lt(upper.value)),
                        ),
                    )
                },
                None => None,
            },
            Bound::Lte => match self.lte {
                Some(upper) => if has_lower {
                    None
                } else {
                    Some(
                        native(
                            prefix,
                            "lte"@,
                            "must be less than or equal to "@ + upper.text,
                            T::spec_test(CmpV::Lte(upper.value)),
                        ),
                    )
                },
                None => None,
            },
            Bound::Gt => match self.gt {
                Some(lower) => self.lower(prefix, lower, false),
                None => None,
            },
            Bound::Gte => match self.gte {
                Some(lower) => self.lower(prefix, lower, true),
                None => None,
            },
            Bound::In => Some(
                native(
                    prefix,
                    "in"@,
                    "must be in list "@ + listed(texts_of(self.in_list)),
                    T::spec_test(CmpV::In(values_of(self.in_list))),
                ),
            ),
            Bound::NotIn => Some(
                native(
                    prefix,
                    "not_in"@,
                    "must not be in list "@ + listed(texts_of(self.not_in)),
                    T::spec_test(CmpV::NotIn(values_of(self.not_in))),
                ),
            ),
        }
    }

    /// The check of `gt` or `gte`, combined with the `lt` or `lte` that is
    /// also set: a range when the bounds are in order, the complement of one
    /// when the upper bound is below the lower.
    pub open spec fn lower(self, prefix: Seq<char>, lower: ShownV<T>, inclusive: bool) -> Option<
        NativeV,
    > {
        match (self.lt, self.lte) {
            (Some(upper), _) => range_check(prefix, lower, inclusive, upper, false),
            (None, Some(upper)) => range_check(prefix, lower, inclusive, upper, true),
            (None, None) => Some(
                native(
                    prefix,
                    lower_name(inclusive),
                    "must be "@ + lower_words(inclusive) + " "@ + lower.text,
                    T::spec_test(
                        if inclusive {
                            CmpV::Gte(lower.value)
                        } else {
                            CmpV::Gt(lower.value)
                        },
                    ),
                ),
            ),
        }
    }
}

/// The check of a lower and an upper bound; none when they are not ordered,
/// as when one is NaN.
pub open spec fn range_check<T: Compared>(
    prefix: Seq<char>,
    lower: ShownV<T>,
    lower_inclusive: bool,
    upper: ShownV<T>,
    upper_inclusive: bool,
) -> Option<NativeV> {
    let name = lower_name(lower_inclusive) + "_"@ + upper_name(upper_inclusive);
    if le(lower.value, upper.value) {
        Some(
            native(
                prefix,
                name,
                range_message(
                    lower.text,
                    lower_inclusive,
                    " and "@,
                    upper.text,
                    upper_inclusive,
                ),
                T::spec_test(
                    range_rule(lower.value, lower_inclusive, upper.value, upper_inclusive, false),
                ),
            ),
        )
    } else if lt(upper.value, lower.value) {
        Some(
            native(
                prefix,
                name + "_exclusive"@,
                range_message(lower.text, lower_inclusive, " or "@, upper.text, upper_inclusive),
                T::spec_test(
                    range_rule(lower.value, lower_inclusive, upper.value, upper_inclusive, true),
                ),
            ),
        )
    } else {
        None
    }
}

/// The values alone.
fn values<T: Copy>(shown: &Vec<Shown<T>>) -> (r: Vec<T>)
    ensures
        r@ == values_of(all_shown(shown@)),
{
    let mut values: Vec<T> = Vec::new();
    let mut i: usize = 0;
    while i < shown.len()
        invariant
            i <= shown@.len(),
            values@ =~= values_of(all_shown(shown@)).take(i as int),
        decreases shown@.len() - i,
    {
        values.push(shown[i].value);
        i += 1;
    }
    values
}

/// The texts of the values, as a list.
fn shown_list<T>(shown: &Vec<Shown<T>>) -> (r: String)
    ensures
        r@ == listed(texts_of(all_shown(shown@))),
{
    let mut items: Vec<String> = Vec::new();
    let mut i: usize = 0;
    while i < shown.len()
        invariant
            i <= shown@.len(),
            texts(items@) =~= texts_of(all_shown(shown@)).take(i as int),
        decreases shown@.len() - i,
    {
        let ghost before = items@;
        items.push(shown[i].text.clone());
        assert(texts(items@) =~= texts(before).push(shown@[i as int].text@));
        i += 1;
    }
    assert(texts(items@) =~= texts_of(all_shown(shown@)));
    list_text(&items)
}

/// The comparison with a range, or with its complement.
fn range<T>(
    lower: T,
    lower_inclusive: bool,
    upper: T,
    upper_inclusive: bool,
    exclusive: bool,
) -> (r: Cmp<T>)
    ensures
        r@ == range_rule(lower, lower_inclusive, upper, upper_inclusive, exclusive),
{
    match (lower_inclusive, upper_inclusive, exclusive) {
        (false, false, false) => Cmp::GtLt { gt: lower, lt: upper },
        (false, true, false) => Cmp::GtLte { gt: lower, lte: upper },
        (true, false, false) => Cmp::GteLt { gte: lower, lt: upper },
        (true, true, false) => Cmp::GteLte { gte: lower, lte: upper },
        (false, false, true) => Cmp::GtLtExclusive { gt: lower, lt: upper },
        (false, true, true) => Cmp::GtLteExclusive { gt: lower, lte: upper },
        (true, false, true) => Cmp::GteLtExclusive { gte: lower, lt: upper },
        (true, true, true) => Cmp::GteLteExclusive { gte: lower, lte: upper },
    }
}

/// The name of a lower bound's rule, and the bound in words.
fn lower_phrase(inclusive: bool) -> (r: (&'static str, &'static str))
    ensures
        r.0@ == lower_name(inclusive),
        r.1@ == lower_words(inclusive),
{
    if inclusive {
        ("gte", "greater than or equal to")
    } else {
        ("gt", "greater than")
    }
}

/// The name of an upper bound's rule, and the bound in words.
fn upper_phrase(inclusive: bool) -> (r: (&'static str, &'static str))
    ensures
        r.0@ == upper_name(inclusive),
        r.1@ == upper_words(inclusive),
{
    if inclusive {
        ("lte", "less than or equal to")
    } else {
        ("lt", "less than")
    }
}

/// What a range rule says.
fn range_text(
    lower: &str,
    lower_inclusive: bool,
    joint: &str,
    upper: &str,
    upper_inclusive: bool,
) -> (r: String)
    ensures
        r@ == range_message(lower@, lower_inclusive, joint@, upper@, upper_inclusive),
{
    let mut text = "must be ".to_owned();
    text.append(lower_phrase(lower_inclusive).1);
    text.append(" ");
    text.append(lower);
    text.append(joint);
    text.append(upper_phrase(upper_inclusive).1);
    text.append(" ");
    text.append(upper);
    text
}

impl<T: Compared> Bounds<T> {
    /// The check of one comparison rule field, none when another rule field
    /// takes it over: `lt` and `lte` defer to a `gt` or `gte`, which spells
    /// out the range.
    pub fn check(&self, prefix: &str, bound: Bound) -> (r: Option<Native>)
        ensures
            native_of(r) == self@.check(prefix@, bound),
    {
        let has_lower = self.gt.is_some() || self.gte.is_some();
        match bound {
            Bound::Const => match &self.constant {
                Some(c) => Some(
                    Native::new(
                        prefix,
                        "const",
                        concat("must equal ", c.text.as_str()),
                        T::test(Cmp::Const(c.value)),
                    ),
                ),
                None => None,
            },
            Bound::Lt => match &self.lt {
                Some(upper) => {
                    if has_lower {
                        return None;
                    }
                    Some(
                        Native::new(
                            prefix,
                            "lt",
                            concat("must be less than ", upper.text.as_str()),
                            T::test(Cmp::Lt(upper.value)),
                        ),
                    )
                },
                None => None,
            },
            Bound::Lte => match &self.lte {
                Some(upper) => {
                    if has_lower {
                        return None;
                    }
                    Some(
                        Native::new(
                            prefix,
                            "lte",
                            concat("must be less than or equal to ", upper.text.as_str()),
                            T::test(Cmp::Lte(upper.value)),
                        ),
                    )
                },
                None => None,
            },
            Bound::Gt => match &self.gt {
                Some(lower) => self.lower(prefix, lower, false),
                None => None,
            },
            Bound::Gte => match &self.gte {
                Some(lower) => self.lower(prefix, lower, true),
                None => None,
            },
            Bound::In => Some(
                Native::new(
                    prefix,
                    "in",
                    concat("must be in list ", shown_list(&self.in_list).as_str()),
                    T::test(Cmp::In(values(&self.in_list))),
                ),
            ),
            Bound::NotIn => Some(
                Native::new(
                    prefix,
                    "not_in",
                    concat("must not be in list ", shown_list(&self.not_in).as_str()),
                    T::test(Cmp::NotIn(values(&self.not_in))),
                ),
            ),
        }
    }

    /// The check of `gt` or `gte`, combined with the `lt` or `lte` that is
    /// also set: a range when the bounds are in order, the complement of one
    /// when the upper bound is below the lower.
    fn lower(&self, prefix: &str, lower: &Shown<T>, inclusive: bool) -> (r: Option<Native>)
        ensures
            native_of(r) == self@.lower(prefix@, lower@, inclusive),
    {
        let (name, words) = lower_phrase(inclusive);
        let (upper, upper_inclusive) = match (&self.lt, &self.lte) {
            (Some(upper), _) => (upper, false),
            (None, Some(upper)) => (upper, true),
            (None, None) => {
                let rule = if inclusive {
                    Cmp::Gte(lower.value)
                } else {
                    Cmp::Gt(lower.value)
                };
                let mut message = concat3("must be ", words, " ");
                message.append(lower.text.as_str());
                return Some(Native::new(prefix, name, message, T::test(rule)));
            },
        };
        let mut suffix = concat3(name, "_", upper_phrase(upper_inclusive).0);
        let exclusive = if at_most(&lower.value, &upper.value) {
            false
        } else if less(&upper.value, &lower.value) {
            true
        } else {
            // Unordered (a NaN bound): neither expression applies.
            return None;
        };
        if exclusive {
            suffix.append("_exclusive");
        }
        let message = range_text(
            lower.text.as_str(),
            inclusive,
            if exclusive {
                " or "
            } else {
                " and "
            },
            upper.text.as_str(),
            upper_inclusive,
        );
        let rule = range(lower.value, inclusive, upper.value, upper_inclusive, exclusive);
        Some(Native::new(prefix, suffix.as_str(), message, T::test(rule)))
    }
}

/// The rule field of a numeric rules message a field number names.
pub open spec fn numeric_field(number: int) -> Option<Bound> {
    if number == 1 {
        Some(Bound::Const)
    } else if number == 2 {
        Some(Bound::Lt)
    } else if number == 3 {
        Some(Bound::Lte)
    } else if number == 4 {
        Some(Bound::Gt)
    } else if number == 5 {
        Some(Bound::Gte)
    } else if number == 6 {
        Some(Bound::In)
    } else if number == 7 {
        Some(Bound::NotIn)
    } else {
        None
    }
}

/// The rule field of a numeric rules message a field number names.
pub fn numeric_bound(number: u32) -> (r: Option<Bound>)
    ensures
        r == numeric_field(number as int),
{
    match number {
        1 => Some(Bound::Const),
        2 => Some(Bound::Lt),
        3 => Some(Bound::Lte),
        4 => Some(Bound::Gt),
        5 => Some(Bound::Gte),
        6 => Some(Bound::In),
        7 => Some(Bound::NotIn),
        _ => None,
    }
}

/// The rule field of the duration and timestamp rules messages a field
/// number names; they leave field 1 unused.
pub fn message_bound(number: u32) -> (r: Option<Bound>)
    ensures
        r == numeric_field(number - 1),
{
    if number == 0 {
        None
    } else {
        numeric_bound(number - 1)
    }
}

/// Why a pattern is not one.
pub open spec fn bad_pattern<E>(pattern: Seq<char>, error: Seq<char>) -> ErrorV<E> {
    ErrorV::Compilation("invalid regex pattern `"@ + pattern + "`: "@ + error)
}

/// What compiling a pattern came to, with its failure as it is reported.
pub fn compiled_pattern<E>(source: &str, compiled: Result<regex::Regex, String>) -> (r: Result<
    regex::Regex,
    Error<E>,
>)
    ensures
        match (compiled, r) {
            (Ok(regex), Ok(same)) => same == regex,
            (Err(error), Err(reported)) => reported@ == bad_pattern::<E>(source@, error@),
            _ => false,
        },
{
    match compiled {
        Ok(regex) => Ok(regex),
        Err(error) => {
            let mut message = concat3("invalid regex pattern `", source, "`: ");
            message.append(error.as_str());
            Err(Error::Compilation(message))
        },
    }
}

/// Compiles a pattern.
pub(crate) fn pattern<E>(source: &str) -> (r: Result<regex::Regex, Error<E>>)
    ensures
        match r {
            Ok(regex) => regex_in(source@) == Ok::<regex::Regex, Seq<char>>(regex),
            Err(error) => regex_in(source@) is Err && error@ == bad_pattern::<E>(
                source@,
                regex_in(source@)->Err_0,
            ),
        },
{
    compiled_pattern(source, compile_regex(source))
}

/// The check of rule field `number` of an integer rules message.
pub open spec fn numeric_check<T: Compared>(
    prefix: Seq<char>,
    number: int,
    bounds: BoundsV<T>,
) -> Option<NativeV> {
    match numeric_field(number) {
        Some(bound) => bounds.check(prefix, bound),
        None => None,
    }
}

/// The check of rule field `number` of an integer rules message.
fn numeric<T: Compared>(prefix: &str, number: u32, bounds: &Bounds<T>) -> (r: Option<Native>)
    ensures
        native_of(r) == numeric_check(prefix@, number as int, bounds@),
{
    match numeric_bound(number) {
        Some(bound) => bounds.check(prefix, bound),
        None => None,
    }
}

/// The check of rule field `number` of a float or double rules message,
/// which add `finite` to the integer rules.
pub open spec fn floating_check(
    prefix: Seq<char>,
    number: u32,
    finite: Option<bool>,
    bounds: BoundsV<Double>,
) -> Option<NativeV> {
    if number == 8 {
        if finite == Some(true) {
            Some(native(prefix, "finite"@, "must be finite"@, TestV::Finite))
        } else {
            None
        }
    } else {
        numeric_check(prefix, number as int, bounds)
    }
}

/// The check of rule field `number` of a float or double rules message,
/// which add `finite` to the integer rules.
fn floating(prefix: &str, number: u32, finite: Option<bool>, bounds: &Bounds<Double>) -> (r: Option<
    Native,
>)
    ensures
        native_of(r) == floating_check(prefix@, number, finite, bounds@),
{
    if number == 8 {
        return match finite {
            Some(true) => Some(
                Native::new(prefix, "finite", "must be finite".to_owned(), Test::Finite),
            ),
            _ => None,
        };
    }
    numeric(prefix, number, bounds)
}

/// A timestamp of a rule, and its text.
pub open spec fn timestamp_shown(t: Shown<Moment>) -> ShownV<Timestamp> {
    ShownV { value: Timestamp(nanos_in(t.value) as i128), text: t.text@ }
}

/// The comparison rules of a timestamp rules message.
pub open spec fn timestamp_bounds_of(r: TimestampRules) -> BoundsV<Timestamp> {
    BoundsV {
        constant: match r.constant {
            Some(v) => Some(timestamp_shown(v)),
            None => None,
        },
        lt: match r.less_than {
            Some(TimestampLessThan::Lt(v)) => Some(timestamp_shown(v)),
            _ => None,
        },
        lte: match r.less_than {
            Some(TimestampLessThan::Lte(v)) => Some(timestamp_shown(v)),
            _ => None,
        },
        gt: match r.greater_than {
            Some(TimestampGreaterThan::Gt(v)) => Some(timestamp_shown(v)),
            _ => None,
        },
        gte: match r.greater_than {
            Some(TimestampGreaterThan::Gte(v)) => Some(timestamp_shown(v)),
            _ => None,
        },
        in_list: Seq::empty(),
        not_in: Seq::empty(),
    }
}

/// A timestamp of a rule, and its text.
fn timestamp_value(t: &Shown<Moment>) -> (r: Shown<Timestamp>)
    ensures
        r@ == timestamp_shown(*t),
{
    Shown { value: timestamp(&t.value), text: t.text.clone() }
}

/// Reads the [`Bounds`] out of a timestamp rules message, which has no
/// lists.
fn timestamp_bounds(r: &TimestampRules) -> (b: Bounds<Timestamp>)
    ensures
        b@ == timestamp_bounds_of(*r),
{
    let b = Bounds {
        constant: match &r.constant {
            Some(v) => Some(timestamp_value(v)),
            None => None,
        },
        lt: match &r.less_than {
            Some(TimestampLessThan::Lt(v)) => Some(timestamp_value(v)),
            _ => None,
        },
        lte: match &r.less_than {
            Some(TimestampLessThan::Lte(v)) => Some(timestamp_value(v)),
            _ => None,
        },
        gt: match &r.greater_than {
            Some(TimestampGreaterThan::Gt(v)) => Some(timestamp_value(v)),
            _ => None,
        },
        gte: match &r.greater_than {
            Some(TimestampGreaterThan::Gte(v)) => Some(timestamp_value(v)),
            _ => None,
        },
        in_list: Vec::new(),
        not_in: Vec::new(),
    };
    assert(all_shown(b.in_list@) =~= Seq::empty());
    assert(all_shown(b.not_in@) =~= Seq::empty());
    b
}

/// The check of rule field `number` of a timestamp rules message.
pub open spec fn timestamp_rule(prefix: Seq<char>, r: TimestampRules, number: u32) -> Option<
    NativeV,
> {
    if number == 7 {
        match r.less_than {
            Some(TimestampLessThan::LtNow(true)) => Some(
                native(
                    prefix,
                    "lt_now"@,
                    "must be less than now"@,
                    TestV::Now(NowTest::LtNow),
                ),
            ),
            _ => None,
        }
    } else if number == 8 {
        match r.greater_than {
            Some(TimestampGreaterThan::GtNow(true)) => Some(
                native(
                    prefix,
                    "gt_now"@,
                    "must be greater than now"@,
                    TestV::Now(NowTest::GtNow),
                ),
            ),
            _ => None,
        }
    } else if number == 9 {
        match r.within {
            Some(within) => Some(
                native(
                    prefix,
                    "within"@,
                    "must be within "@ + within.text@ + " of now"@,
                    TestV::Now(NowTest::Within(Duration(nanos_in(within.value) as i128))),
                ),
            ),
            None => None,
        }
    } else {
        numeric_check(prefix, number - 1, timestamp_bounds_of(r))
    }
}

/// The check of rule field `number` of a timestamp rules message.
pub fn timestamp_check(prefix: &str, r: &TimestampRules, number: u32) -> (native: Option<Native>)
    ensures
        native_of(native) == timestamp_rule(prefix@, *r, number),
{
    match number {
        7 => match &r.less_than {
            Some(TimestampLessThan::LtNow(true)) => Some(
                Native::new(
                    prefix,
                    "lt_now",
                    "must be less than now".to_owned(),
                    Test::Now(NowTest::LtNow),
                ),
            ),
            _ => None,
        },
        8 => match &r.greater_than {
            Some(TimestampGreaterThan::GtNow(true)) => Some(
                Native::new(
                    prefix,
                    "gt_now",
                    "must be greater than now".to_owned(),
                    Test::Now(NowTest::GtNow),
                ),
            ),
            _ => None,
        },
        9 => match &r.within {
            Some(within) => Some(
                Native::new(
                    prefix,
                    "within",
                    concat3("must be within ", within.text.as_str(), " of now"),
                    Test::Now(NowTest::Within(duration(&within.value))),
                ),
            ),
            None => None,
        },
        _ => match message_bound(number) {
            Some(bound) => timestamp_bounds(r).check(prefix, bound),
            None => None,
        },
    }
}

/// The checks of rule field `number` of `rules`; `prefix` is the rule id's
/// type, `string` say.
pub open spec fn rule_checks<E>(prefix: Seq<char>, rules: RulesType, number: u32) -> Result<
    Seq<NativeV>,
    ErrorV<E>,
> {
    match rules {
        RulesType::Float(r) | RulesType::Double(r) => Ok(
            at_most_one(floating_check(prefix, number, r.finite, bounds_of(r.bounds))),
        ),
        RulesType::Int32(r) | RulesType::Sint32(r) | RulesType::Sfixed32(r) => Ok(
            at_most_one(numeric_check(prefix, number as int, bounds_of(r))),
        ),
        RulesType::Int64(r) | RulesType::Sint64(r) | RulesType::Sfixed64(r) => Ok(
            at_most_one(numeric_check(prefix, number as int, bounds_of(r))),
        ),
        RulesType::Uint32(r) | RulesType::Fixed32(r) => Ok(
            at_most_one(numeric_check(prefix, number as int, bounds_of(r))),
        ),
        RulesType::Uint64(r) | RulesType::Fixed64(r) => Ok(
            at_most_one(numeric_check(prefix, number as int, bounds_of(r))),
        ),
        RulesType::Duration(r) => Ok(
            at_most_one(numeric_check(prefix, number - 1, bounds_of(r))),
        ),
        RulesType::Timestamp(r) => Ok(at_most_one(timestamp_rule(prefix, r, number))),
        RulesType::Bool(r) => Ok(at_most_one(misc::bool_rule(prefix, r, number))),
        RulesType::Enum(r) => Ok(at_most_one(misc::enum_rule(prefix, r, number))),
        RulesType::String(r) => string::string_rules(prefix, r, number),
        RulesType::Bytes(r) => misc::bytes_rules(prefix, r, number),
        RulesType::Repeated(r) => Ok(at_most_one(misc::repeated_rule(prefix, r, number))),
        RulesType::Mapping(r) => Ok(at_most_one(misc::map_rule(prefix, r, number))),
        RulesType::FieldMask(r) => Ok(at_most_one(misc::field_mask_rule(prefix, r, number))),
        RulesType::Any(_) => Ok(Seq::empty()),
    }
}

/// The checks of rule field `number` of `rules`; `prefix` is the rule id's
/// type, `string` say.
pub fn checks<E>(prefix: &str, rules: &RulesType, number: u32) -> (r: Result<
    Vec<Native>,
    Error<E>,
>)
    ensures
        built(r) == rule_checks::<E>(prefix@, *rules, number),
{
    match rules {
        RulesType::Float(r) => collect(floating(prefix, number, r.finite, &bounds(&r.bounds))),
        RulesType::Double(r) => collect(floating(prefix, number, r.finite, &bounds(&r.bounds))),
        RulesType::Int32(r) => collect(numeric(prefix, number, &bounds(r))),
        RulesType::Int64(r) => collect(numeric(prefix, number, &bounds(r))),
        RulesType::Uint32(r) => collect(numeric(prefix, number, &bounds(r))),
        RulesType::Uint64(r) => collect(numeric(prefix, number, &bounds(r))),
        RulesType::Sint32(r) => collect(numeric(prefix, number, &bounds(r))),
        RulesType::Sint64(r) => collect(numeric(prefix, number, &bounds(r))),
        RulesType::Fixed32(r) => collect(numeric(prefix, number, &bounds(r))),
        RulesType::Fixed64(r) => collect(numeric(prefix, number, &bounds(r))),
        RulesType::Sfixed32(r) => collect(numeric(prefix, number, &bounds(r))),
        RulesType::Sfixed64(r) => collect(numeric(prefix, number, &bounds(r))),
        RulesType::Duration(r) => match message_bound(number) {
            Some(bound) => collect(bounds(r).check(prefix, bound)),
            None => collect(None),
        },
        RulesType::Timestamp(r) => collect(timestamp_check(prefix, r, number)),
        RulesType::Bool(r) => collect(misc::bool_check(prefix, r, number)),
        RulesType::Enum(r) => collect(misc::enum_check(prefix, r, number)),
        RulesType::String(r) => string::checks(prefix, r, number),
        RulesType::Bytes(r) => misc::bytes_checks(prefix, r, number),
        RulesType::Repeated(r) => collect(misc::repeated_check(prefix, r, number)),
        RulesType::Mapping(r) => collect(misc::map_check(prefix, r, number)),
        RulesType::FieldMask(r) => collect(misc::field_mask_check(prefix, r, number)),
        // `any.in` and `any.not_in` are checked with the field's `Any`.
        RulesType::Any(_) => collect(None),
    }
}

/// The comparison of a lower bound alone.
pub open spec fn lower_rule<T>(lower: T, inclusive: bool) -> CmpV<T> {
    if inclusive {
        CmpV::Gte(lower)
    } else {
        CmpV::Gt(lower)
    }
}

/// The comparison of an upper bound alone.
pub open spec fn upper_rule<T>(upper: T, inclusive: bool) -> CmpV<T> {
    if inclusive {
        CmpV::Lte(upper)
    } else {
        CmpV::Lt(upper)
    }
}

/// A range is broken where either of its bounds is; the complement of a
/// range, where both are.
pub proof fn law_range_combines_bounds<T: MaybeNan>(
    lower: T,
    lower_inclusive: bool,
    upper: T,
    upper_inclusive: bool,
    v: T,
)
    ensures
        range_rule(lower, lower_inclusive, upper, upper_inclusive, false).broken_by(v)
            <==> lower_rule(lower, lower_inclusive).broken_by(v) || upper_rule(
            upper,
            upper_inclusive,
        ).broken_by(v),
        range_rule(lower, lower_inclusive, upper, upper_inclusive, true).broken_by(v)
            <==> lower_rule(lower, lower_inclusive).broken_by(v) && upper_rule(
            upper,
            upper_inclusive,
        ).broken_by(v),
{
}

/// With a lower bound set, the upper bound has no check of its own: the
/// lower bound's spells out the range.
pub proof fn law_upper_bound_defers_to_lower<T: Compared>(bounds: BoundsV<T>, prefix: Seq<char>)
    requires
        bounds.gt is Some || bounds.gte is Some,
    ensures
        bounds.check(prefix, Bound::Lt) is None,
        bounds.check(prefix, Bound::Lte) is None,
{
}

/// Bounds in the wrong order let through exactly what is outside them: what
/// is above the lower bound, and what is below the upper.
pub proof fn law_bounds_out_of_order_are_exclusive<T: Compared>(
    prefix: Seq<char>,
    lower: ShownV<T>,
    lower_inclusive: bool,
    upper: ShownV<T>,
    upper_inclusive: bool,
    v: T,
)
    requires
        lt(upper.value, lower.value),
    ensures
        ({
            let rule = range_rule(
                lower.value,
                lower_inclusive,
                upper.value,
                upper_inclusive,
                true,
            );
            let above = lt(lower.value, v) || (lower_inclusive && same(lower.value, v));
            let below = lt(v, upper.value) || (upper_inclusive && same(v, upper.value));
            &&& range_check(
                prefix,
                lower,
                lower_inclusive,
                upper,
                upper_inclusive,
            ) matches Some(check) && check.test == T::spec_test(rule)
            &&& !rule.broken_by(v) <==> above || below
        }),
{
}

} // verus!
