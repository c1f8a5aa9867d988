//! What the rules of each type check.

use super::super::laws::{
    holds_moment, law_bytes_lists_are_exact, law_bytes_patterns_go_by_the_string,
    law_held_string_lists_are_exact, law_signed_comparisons, law_subsequence_rules,
    law_substring_rules,
};
use super::super::order::{listed_value, lt, same, CmpV, Duration, Timestamp};
use super::super::pattern::{regex_in, regex_matches};
use super::super::values::{
    BytesTestV, FieldMaskTestV, ListTest, MapTest, StrTestV, WellKnown,
};
use super::super::wellknown::Formats;
use super::super::TestV;
use super::misc::{number_texts, shown_bytes, shown_texts, wide_numbers};
use super::string::{format_in_force, format_pair, format_rules};
use super::{
    at_most_one, bounds_of, numeric_check, range_check, range_rule, rule_checks, texts_of,
    timestamp_bounds_of, values_of, BoundsV, Compared, NativeV, RuleValue, ShownV,
};
use crate::double::Double;
use crate::error::ErrorV;
use crate::protobuf::ValV;
use crate::text::{decimal, hexadecimal, listed, signed_decimal, texts};
use crate::validate::rules::{
    AnyRules, BoolRules, BytesFormat, BytesRules, EnumRules, FieldMaskRules, FloatingRules,
    GreaterThan, KnownRegex, LessThan, MapRules, Moment, NumericRules, RepeatedRules, RulesType,
    Shown, StringFormat, StringRules, TimestampGreaterThan, TimestampLessThan, TimestampRules,
};
use vstd::prelude::*;
use vstd::utf8::*;

verus! {

/// What a rule makes.
pub type Made<E> = Result<Seq<NativeV>, ErrorV<E>>;

/// Whether a rule makes one check, under its name and in these words.
pub open spec fn one_check<E>(
    made: Made<E>,
    prefix: Seq<char>,
    name: Seq<char>,
    message: Seq<char>,
) -> bool {
    &&& made is Ok
    &&& made->Ok_0.len() == 1
    &&& made->Ok_0[0].id == prefix + "."@ + name
    &&& made->Ok_0[0].message == message
}

/// Whether a rule makes no check.
pub open spec fn no_check<E>(made: Made<E>) -> bool {
    made is Ok && made->Ok_0.len() == 0
}

/// Whether the one check that a rule makes is a comparison that the value
/// breaks, or one that it does not.
pub open spec fn compares<T: Compared, E>(made: Made<E>, v: T, broken: bool) -> bool {
    exists|rule: CmpV<T>|
        made->Ok_0[0].test == #[trigger] T::spec_test(rule) && rule.broken_by(v) == broken
}

/// The comparisons are tried on the value that a field holds.
pub proof fn law_comparisons_are_tried_on_the_value<F: Formats, E>(
    formats: F,
    now: int,
    i: i64,
    e: i32,
    u: u64,
    f: Double,
    ints: CmpV<i64>,
    uints: CmpV<u64>,
    doubles: CmpV<Double>,
)
    ensures
        i64::spec_test(ints).broken_by::<F, E>(formats, now, Some(ValV::Int(i))) == Ok::<
            bool,
            ErrorV<E>,
        >(ints.broken_by(i)),
        i64::spec_test(ints).broken_by::<F, E>(formats, now, Some(ValV::Enum(e))) == Ok::<
            bool,
            ErrorV<E>,
        >(ints.broken_by(e as i64)),
        u64::spec_test(uints).broken_by::<F, E>(formats, now, Some(ValV::Uint(u))) == Ok::<
            bool,
            ErrorV<E>,
        >(uints.broken_by(u)),
        Double::spec_test(doubles).broken_by::<F, E>(formats, now, Some(ValV::Double(f))) == Ok::<
            bool,
            ErrorV<E>,
        >(doubles.broken_by(f)),
{
}

/// The comparisons of durations and timestamps are tried on the nanoseconds
/// that the message holds.
pub proof fn law_moment_comparisons_are_tried_on_the_message<F: Formats, E>(
    formats: F,
    now: int,
    m: ValV<E>,
    seconds: i64,
    nanos: i32,
    durations: CmpV<Duration>,
    timestamps: CmpV<Timestamp>,
)
    requires
        holds_moment(m, seconds, nanos),
    ensures
        Duration::spec_test(durations).broken_by::<F, E>(formats, now, Some(m)) == Ok::<
            bool,
            ErrorV<E>,
        >(durations.broken_by(Duration((seconds * 1_000_000_000 + nanos) as i128))),
        Timestamp::spec_test(timestamps).broken_by::<F, E>(formats, now, Some(m)) == Ok::<
            bool,
            ErrorV<E>,
        >(timestamps.broken_by(Timestamp((seconds * 1_000_000_000 + nanos) as i128))),
{
}

/// Whether a value can be compared at all: it equals itself.
pub open spec fn comparable<T: Compared>(v: T) -> bool {
    !CmpV::Const(v).broken_by(v)
}

/// Whether a value keeps off a lower bound.
pub open spec fn too_low<T: Compared>(v: T, bound: T, inclusive: bool) -> bool {
    if inclusive {
        CmpV::Gte(bound).broken_by(v)
    } else {
        CmpV::Gt(bound).broken_by(v)
    }
}

/// Whether a value keeps off an upper bound.
pub open spec fn too_high<T: Compared>(v: T, bound: T, inclusive: bool) -> bool {
    if inclusive {
        CmpV::Lte(bound).broken_by(v)
    } else {
        CmpV::Lt(bound).broken_by(v)
    }
}

/// The name of a lower and an upper bound together.
pub open spec fn range_name(lower_inclusive: bool, upper_inclusive: bool) -> Seq<char> {
    (if lower_inclusive {
        "gte"@
    } else {
        "gt"@
    }) + "_"@ + (if upper_inclusive {
        "lte"@
    } else {
        "lt"@
    })
}

/// A lower and an upper bound together, in words.
pub open spec fn range_words(
    lower: Seq<char>,
    lower_inclusive: bool,
    joint: Seq<char>,
    upper: Seq<char>,
    upper_inclusive: bool,
) -> Seq<char> {
    "must be "@ + (if lower_inclusive {
        "greater than or equal to"@
    } else {
        "greater than"@
    }) + " "@ + lower + joint + (if upper_inclusive {
        "less than or equal to"@
    } else {
        "less than"@
    }) + " "@ + upper
}

/// Whether a lower bound makes the check that it should, beside an upper one:
/// where they are in order a value has to keep both, and where they are not,
/// one of the two. Bounds that cannot be compared make none.
pub open spec fn range_holds<T: Compared, E>(
    made: Made<E>,
    prefix: Seq<char>,
    lower: ShownV<T>,
    lower_inclusive: bool,
    upper: ShownV<T>,
    upper_inclusive: bool,
    v: T,
) -> bool {
    let name = range_name(lower_inclusive, upper_inclusive);
    let low = too_low(v, lower.value, lower_inclusive);
    let high = too_high(v, upper.value, upper_inclusive);
    if !comparable(lower.value) || !comparable(upper.value) {
        no_check(made)
    } else if too_low(upper.value, lower.value, true) {
        one_check(
            made,
            prefix,
            name + "_exclusive"@,
            range_words(lower.text, lower_inclusive, " or "@, upper.text, upper_inclusive),
        ) && compares(made, v, low && high)
    } else {
        one_check(
            made,
            prefix,
            name,
            range_words(lower.text, lower_inclusive, " and "@, upper.text, upper_inclusive),
        ) && compares(made, v, low || high)
    }
}

/// Whether a lower bound makes the check that it should, whatever is beside
/// it.
pub open spec fn lower_holds<T: Compared, E>(
    made: Made<E>,
    prefix: Seq<char>,
    b: BoundsV<T>,
    bound: Option<ShownV<T>>,
    inclusive: bool,
    v: T,
) -> bool {
    match bound {
        None => no_check(made),
        Some(lower) => {
            &&& b.lt is None && b.lte is None ==> one_check(
                made,
                prefix,
                if inclusive {
                    "gte"@
                } else {
                    "gt"@
                },
                "must be "@ + (if inclusive {
                    "greater than or equal to"@
                } else {
                    "greater than"@
                }) + " "@ + lower.text,
            ) && compares(made, v, too_low(v, lower.value, inclusive))
            &&& b.lt matches Some(upper) ==> range_holds(
                made,
                prefix,
                lower,
                inclusive,
                upper,
                false,
                v,
            )
            &&& b.lte matches Some(upper) ==> range_holds(
                made,
                prefix,
                lower,
                inclusive,
                upper,
                true,
                v,
            )
        },
    }
}

/// Whether an upper bound makes the check that it should: none beside a lower
/// one, which spells out the range.
pub open spec fn upper_holds<T: Compared, E>(
    made: Made<E>,
    prefix: Seq<char>,
    b: BoundsV<T>,
    bound: Option<ShownV<T>>,
    inclusive: bool,
    v: T,
) -> bool {
    match bound {
        None => no_check(made),
        Some(upper) => if b.gt is Some || b.gte is Some {
            no_check(made)
        } else {
            one_check(
                made,
                prefix,
                if inclusive {
                    "lte"@
                } else {
                    "lt"@
                },
                (if inclusive {
                    "must be less than or equal to "@
                } else {
                    "must be less than "@
                }) + upper.text,
            ) && compares(made, v, too_high(v, upper.value, inclusive))
        },
    }
}

/// Whether the rule fields of a rules message make the checks that their
/// names say, `offset` being the number that the first lies above.
pub open spec fn comparisons_hold<T: Compared, E>(
    made: spec_fn(int) -> Made<E>,
    offset: int,
    prefix: Seq<char>,
    b: BoundsV<T>,
    v: T,
) -> bool {
    &&& b.constant is None ==> no_check(made(offset + 1))
    &&& b.constant matches Some(c) ==> one_check(
        made(offset + 1),
        prefix,
        "const"@,
        "must equal "@ + c.text,
    ) && compares(made(offset + 1), v, CmpV::Const(c.value).broken_by(v))
    &&& upper_holds(made(offset + 2), prefix, b, b.lt, false, v)
    &&& upper_holds(made(offset + 3), prefix, b, b.lte, true, v)
    &&& lower_holds(made(offset + 4), prefix, b, b.gt, false, v)
    &&& lower_holds(made(offset + 5), prefix, b, b.gte, true, v)
}

/// Whether the list rules of a rules message make the checks that their names
/// say: a value has to be one of a list, or none of it.
pub open spec fn lists_hold<T: Compared, E>(
    made: spec_fn(int) -> Made<E>,
    offset: int,
    prefix: Seq<char>,
    b: BoundsV<T>,
    v: T,
) -> bool {
    let equals = |x: ShownV<T>| !CmpV::Const(x.value).broken_by(v);
    &&& one_check(
        made(offset + 6),
        prefix,
        "in"@,
        "must be in list "@ + listed(b.in_list.map_values(|x: ShownV<T>| x.text)),
    )
    &&& compares(
        made(offset + 6),
        v,
        forall|i: int| 0 <= i < b.in_list.len() ==> !equals(#[trigger] b.in_list[i]),
    )
    &&& one_check(
        made(offset + 7),
        prefix,
        "not_in"@,
        "must not be in list "@ + listed(b.not_in.map_values(|x: ShownV<T>| x.text)),
    )
    &&& compares(
        made(offset + 7),
        v,
        exists|i: int| 0 <= i < b.not_in.len() && equals(#[trigger] b.not_in[i]),
    )
}

/// A check under a comparison is that comparison.
proof fn lemma_compares<T: Compared, E>(made: Made<E>, rule: CmpV<T>, v: T)
    requires
        made is Ok,
        made->Ok_0.len() == 1,
        made->Ok_0[0].test == T::spec_test(rule),
    ensures
        compares(made, v, rule.broken_by(v)),
{
}

proof fn lemma_range<T: Compared, E>(
    made: Made<E>,
    prefix: Seq<char>,
    lower: ShownV<T>,
    lower_inclusive: bool,
    upper: ShownV<T>,
    upper_inclusive: bool,
    v: T,
)
    requires
        made is Ok,
        made->Ok_0 == at_most_one(
            range_check(prefix, lower, lower_inclusive, upper, upper_inclusive),
        ),
    ensures
        range_holds(made, prefix, lower, lower_inclusive, upper, upper_inclusive, v),
{
    let exclusive = lt(upper.value, lower.value);
    let rule = range_rule(
        lower.value,
        lower_inclusive,
        upper.value,
        upper_inclusive,
        exclusive,
    );
    if comparable(lower.value) && comparable(upper.value) {
        assert(made->Ok_0[0].test == T::spec_test(rule));
        lemma_compares(made, rule, v);
    }
}

proof fn lemma_comparisons<T: Compared, E>(
    made: spec_fn(int) -> Made<E>,
    offset: int,
    prefix: Seq<char>,
    b: BoundsV<T>,
    v: T,
)
    requires
        !(b.lt is Some && b.lte is Some),
        forall|n: int|
            1 <= n <= 5 ==> #[trigger] made(offset + n) == Ok::<Seq<NativeV>, ErrorV<E>>(
                at_most_one(numeric_check(prefix, n, b)),
            ),
    ensures
        comparisons_hold(made, offset, prefix, b, v),
{
    assert forall|n: int| 1 <= n <= 5 implies #[trigger] made(offset + n) == Ok::<
        Seq<NativeV>,
        ErrorV<E>,
    >(at_most_one(numeric_check(prefix, n, b))) by {}
    let m1 = made(offset + 1);
    let m2 = made(offset + 2);
    let m3 = made(offset + 3);
    let m4 = made(offset + 4);
    let m5 = made(offset + 5);
    if let Some(c) = b.constant {
        lemma_compares(m1, CmpV::Const(c.value), v);
    }
    let has_lower = b.gt is Some || b.gte is Some;
    if b.lt is Some && !has_lower {
        lemma_compares(m2, CmpV::Lt(b.lt->Some_0.value), v);
    }
    if b.lte is Some && !has_lower {
        lemma_compares(m3, CmpV::Lte(b.lte->Some_0.value), v);
    }
    if let Some(lower) = b.gt {
        if let Some(upper) = b.lt {
            lemma_range(m4, prefix, lower, false, upper, false, v);
        } else if let Some(upper) = b.lte {
            lemma_range(m4, prefix, lower, false, upper, true, v);
        } else {
            lemma_compares(m4, CmpV::Gt(lower.value), v);
        }
    }
    if let Some(lower) = b.gte {
        if let Some(upper) = b.lt {
            lemma_range(m5, prefix, lower, true, upper, false, v);
        } else if let Some(upper) = b.lte {
            lemma_range(m5, prefix, lower, true, upper, true, v);
        } else {
            lemma_compares(m5, CmpV::Gte(lower.value), v);
        }
    }
}

proof fn lemma_lists<T: Compared, E>(
    made: spec_fn(int) -> Made<E>,
    offset: int,
    prefix: Seq<char>,
    b: BoundsV<T>,
    v: T,
)
    requires
        forall|n: int|
            6 <= n <= 7 ==> #[trigger] made(offset + n) == Ok::<Seq<NativeV>, ErrorV<E>>(
                at_most_one(numeric_check(prefix, n, b)),
            ),
    ensures
        lists_hold(made, offset, prefix, b, v),
{
    let m6 = made(offset + 6);
    let m7 = made(offset + 7);
    assert(m6->Ok_0 == at_most_one(numeric_check(prefix, 6, b)));
    assert(m7->Ok_0 == at_most_one(numeric_check(prefix, 7, b)));
    let equals = |x: ShownV<T>| !CmpV::Const(x.value).broken_by(v);
    let inside = values_of(b.in_list);
    let outside = values_of(b.not_in);
    lemma_compares(m6, CmpV::In(inside), v);
    lemma_compares(m7, CmpV::NotIn(outside), v);
    assert forall|i: int| 0 <= i < b.in_list.len() implies inside[i] == (
    #[trigger] b.in_list[i]).value by {}
    assert forall|i: int| 0 <= i < b.not_in.len() implies outside[i] == (
    #[trigger] b.not_in[i]).value by {}
    if listed_value(inside, v) {
        let i = choose|i: int|
            0 <= i < inside.len() && same(v, #[trigger] inside[i]);
        assert(equals(b.in_list[i]));
    }
    if !forall|i: int| 0 <= i < b.in_list.len() ==> !equals(#[trigger] b.in_list[i]) {
        let i = choose|i: int| 0 <= i < b.in_list.len() && equals(#[trigger] b.in_list[i]);
        assert(same(v, inside[i]));
    }
    if listed_value(outside, v) {
        let i = choose|i: int|
            0 <= i < outside.len() && same(v, #[trigger] outside[i]);
        assert(equals(b.not_in[i]));
    }
    if exists|i: int| 0 <= i < b.not_in.len() && equals(#[trigger] b.not_in[i]) {
        let i = choose|i: int| 0 <= i < b.not_in.len() && equals(#[trigger] b.not_in[i]);
        assert(same(v, outside[i]));
    }
    assert(texts_of(b.in_list) =~= b.in_list.map_values(|x: ShownV<T>| x.text));
    assert(texts_of(b.not_in) =~= b.not_in.map_values(|x: ShownV<T>| x.text));
}

/// What a rules message holds is what its checks go by: each bound where it
/// is set, and each list, value by value.
pub proof fn law_bounds_are_those_of_the_rules<S: RuleValue>(r: NumericRules<S>)
    ensures
        ({
            let b = bounds_of(r);
            &&& b.constant is None <==> r.constant is None
            &&& r.constant matches Some(c) ==> b.constant == Some(c.spec_shown())
            &&& b.lt is Some <==> (r.less_than matches Some(LessThan::Lt(_)))
            &&& r.less_than matches Some(LessThan::Lt(x)) ==> b.lt == Some(x.spec_shown())
            &&& b.lte is Some <==> (r.less_than matches Some(LessThan::Lte(_)))
            &&& r.less_than matches Some(LessThan::Lte(x)) ==> b.lte == Some(x.spec_shown())
            &&& b.gt is Some <==> (r.greater_than matches Some(GreaterThan::Gt(_)))
            &&& r.greater_than matches Some(GreaterThan::Gt(x)) ==> b.gt == Some(x.spec_shown())
            &&& b.gte is Some <==> (r.greater_than matches Some(GreaterThan::Gte(_)))
            &&& r.greater_than matches Some(GreaterThan::Gte(x)) ==> b.gte == Some(x.spec_shown())
            &&& b.in_list.len() == r.in_list@.len()
            &&& b.not_in.len() == r.not_in@.len()
            &&& forall|i: int|
                0 <= i < r.in_list@.len() ==> #[trigger] b.in_list[i]
                    == r.in_list@[i].spec_shown()
            &&& forall|i: int|
                0 <= i < r.not_in@.len() ==> #[trigger] b.not_in[i] == r.not_in@[i].spec_shown()
        }),
{
}

/// The values of rules are compared as what they are, and printed in decimal
/// where they are whole numbers; a duration is compared by its nanoseconds.
pub proof fn law_rule_values_are_compared_as_they_are(
    a: i32,
    b: i64,
    c: u32,
    d: u64,
    e: Shown<Double>,
    f: Shown<Moment>,
)
    ensures
        a.spec_shown().value == a,
        a.spec_shown().text == signed_decimal(a as int),
        b.spec_shown().value == b,
        b.spec_shown().text == signed_decimal(b as int),
        c.spec_shown().value == c,
        c.spec_shown().text == decimal(c as nat),
        d.spec_shown().value == d,
        d.spec_shown().text == decimal(d as nat),
        e.spec_shown().value == e.value,
        e.spec_shown().text == e.text@,
        f.spec_shown().value.0 == f.value.seconds * 1_000_000_000 + f.value.nanos,
        f.spec_shown().text == f.text@,
{
}

/// The rules of signed numbers of 32 bits.
pub proof fn law_signed_32_rules<E>(
    prefix: Seq<char>,
    rules: RulesType,
    r: NumericRules<i32>,
    v: i64,
    number: u32,
)
    requires
        rules == RulesType::Int32(r) || rules == RulesType::Sint32(r) || rules == RulesType::Sfixed32(r),
    ensures
        comparisons_hold(
            |n: int| rule_checks::<E>(prefix, rules, n as u32),
            0,
            prefix,
            bounds_of(r),
            v,
        ),
        lists_hold(
            |n: int| rule_checks::<E>(prefix, rules, n as u32),
            0,
            prefix,
            bounds_of(r),
            v,
        ),
        number == 0 || number > 7 ==> no_check(rule_checks::<E>(prefix, rules, number)),
{
    let made = |n: int| rule_checks::<E>(prefix, rules, n as u32);
    lemma_comparisons(made, 0, prefix, bounds_of(r), v);
    lemma_lists(made, 0, prefix, bounds_of(r), v);
}

/// The rules of signed numbers of 64 bits.
pub proof fn law_signed_64_rules<E>(
    prefix: Seq<char>,
    rules: RulesType,
    r: NumericRules<i64>,
    v: i64,
    number: u32,
)
    requires
        rules == RulesType::Int64(r) || rules == RulesType::Sint64(r) || rules == RulesType::Sfixed64(r),
    ensures
        comparisons_hold(
            |n: int| rule_checks::<E>(prefix, rules, n as u32),
            0,
            prefix,
            bounds_of(r),
            v,
        ),
        lists_hold(
            |n: int| rule_checks::<E>(prefix, rules, n as u32),
            0,
            prefix,
            bounds_of(r),
            v,
        ),
        number == 0 || number > 7 ==> no_check(rule_checks::<E>(prefix, rules, number)),
{
    let made = |n: int| rule_checks::<E>(prefix, rules, n as u32);
    lemma_comparisons(made, 0, prefix, bounds_of(r), v);
    lemma_lists(made, 0, prefix, bounds_of(r), v);
}

/// The rules of unsigned numbers of 32 bits.
pub proof fn law_unsigned_32_rules<E>(
    prefix: Seq<char>,
    rules: RulesType,
    r: NumericRules<u32>,
    v: u64,
    number: u32,
)
    requires
        rules == RulesType::Uint32(r) || rules == RulesType::Fixed32(r),
    ensures
        comparisons_hold(
            |n: int| rule_checks::<E>(prefix, rules, n as u32),
            0,
            prefix,
            bounds_of(r),
            v,
        ),
        lists_hold(
            |n: int| rule_checks::<E>(prefix, rules, n as u32),
            0,
            prefix,
            bounds_of(r),
            v,
        ),
        number == 0 || number > 7 ==> no_check(rule_checks::<E>(prefix, rules, number)),
{
    let made = |n: int| rule_checks::<E>(prefix, rules, n as u32);
    lemma_comparisons(made, 0, prefix, bounds_of(r), v);
    lemma_lists(made, 0, prefix, bounds_of(r), v);
}

/// The rules of unsigned numbers of 64 bits.
pub proof fn law_unsigned_64_rules<E>(
    prefix: Seq<char>,
    rules: RulesType,
    r: NumericRules<u64>,
    v: u64,
    number: u32,
)
    requires
        rules == RulesType::Uint64(r) || rules == RulesType::Fixed64(r),
    ensures
        comparisons_hold(
            |n: int| rule_checks::<E>(prefix, rules, n as u32),
            0,
            prefix,
            bounds_of(r),
            v,
        ),
        lists_hold(
            |n: int| rule_checks::<E>(prefix, rules, n as u32),
            0,
            prefix,
            bounds_of(r),
            v,
        ),
        number == 0 || number > 7 ==> no_check(rule_checks::<E>(prefix, rules, number)),
{
    let made = |n: int| rule_checks::<E>(prefix, rules, n as u32);
    lemma_comparisons(made, 0, prefix, bounds_of(r), v);
    lemma_lists(made, 0, prefix, bounds_of(r), v);
}

/// The rules of doubles, with `finite`.
pub proof fn law_floating_rules<F: Formats, E>(
    formats: F,
    now: int,
    prefix: Seq<char>,
    rules: RulesType,
    r: FloatingRules,
    v: Double,
    number: u32,
)
    requires
        rules == RulesType::Float(r) || rules == RulesType::Double(r),
    ensures
        comparisons_hold(
            |n: int| rule_checks::<E>(prefix, rules, n as u32),
            0,
            prefix,
            bounds_of(r.bounds),
            v,
        ),
        lists_hold(
            |n: int| rule_checks::<E>(prefix, rules, n as u32),
            0,
            prefix,
            bounds_of(r.bounds),
            v,
        ),
        r.finite == Some(true) ==> one_check(
            rule_checks::<E>(prefix, rules, 8),
            prefix,
            "finite"@,
            "must be finite"@,
        ) && breaks_on::<F, E>(
            formats,
            now,
            rule_checks::<E>(prefix, rules, 8),
            ValV::Double(v),
            !v.spec_finite(),
        ),
        r.finite != Some(true) ==> no_check(rule_checks::<E>(prefix, rules, 8)),
        number == 0 || number > 8 ==> no_check(rule_checks::<E>(prefix, rules, number)),
{
    let made = |n: int| rule_checks::<E>(prefix, rules, n as u32);
    lemma_comparisons(made, 0, prefix, bounds_of(r.bounds), v);
    lemma_lists(made, 0, prefix, bounds_of(r.bounds), v);
}

/// Whether the one check that a rule makes is broken by a value, or not.
pub open spec fn breaks_on<F: Formats, E>(
    formats: F,
    now: int,
    made: Made<E>,
    v: ValV<E>,
    broken: bool,
) -> bool {
    made->Ok_0[0].test.broken_by::<F, E>(formats, now, Some(v)) == Ok::<bool, ErrorV<E>>(broken)
}

/// The rules of durations, whose rule fields are numbered one higher.
pub proof fn law_duration_rules<E>(
    prefix: Seq<char>,
    r: NumericRules<Shown<Moment>>,
    v: Duration,
    number: u32,
)
    ensures
        ({
            let rules = RulesType::Duration(r);
            &&& comparisons_hold(
                |n: int| rule_checks::<E>(prefix, rules, n as u32),
                1,
                prefix,
                bounds_of(r),
                v,
            )
            &&& lists_hold(
                |n: int| rule_checks::<E>(prefix, rules, n as u32),
                1,
                prefix,
                bounds_of(r),
                v,
            )
            &&& number < 2 || number > 8 ==> no_check(rule_checks::<E>(prefix, rules, number))
        }),
{
    let rules = RulesType::Duration(r);
    let made = |n: int| rule_checks::<E>(prefix, rules, n as u32);
    lemma_comparisons(made, 1, prefix, bounds_of(r), v);
    lemma_lists(made, 1, prefix, bounds_of(r), v);
}

/// The bounds of timestamp rules are those that are set, by their
/// nanoseconds.
pub proof fn law_timestamp_bounds_are_those_of_the_rules(r: TimestampRules)
    ensures
        ({
            let b = timestamp_bounds_of(r);
            &&& b.constant is None <==> r.constant is None
            &&& r.constant matches Some(c) ==> is_moment(b.constant, c)
            &&& b.lt is Some <==> (r.less_than matches Some(TimestampLessThan::Lt(_)))
            &&& r.less_than matches Some(TimestampLessThan::Lt(x)) ==> is_moment(b.lt, x)
            &&& b.lte is Some <==> (r.less_than matches Some(TimestampLessThan::Lte(_)))
            &&& r.less_than matches Some(TimestampLessThan::Lte(x)) ==> is_moment(b.lte, x)
            &&& b.gt is Some <==> (r.greater_than matches Some(TimestampGreaterThan::Gt(_)))
            &&& r.greater_than matches Some(TimestampGreaterThan::Gt(x)) ==> is_moment(b.gt, x)
            &&& b.gte is Some <==> (r.greater_than matches Some(TimestampGreaterThan::Gte(_)))
            &&& r.greater_than matches Some(TimestampGreaterThan::Gte(x)) ==> is_moment(b.gte, x)
        }),
{
}

/// Whether a bound is the moment of a rule, in nanoseconds and in its text.
pub open spec fn is_moment(bound: Option<ShownV<Timestamp>>, of: Shown<Moment>) -> bool {
    bound matches Some(shown) && shown.value.0 == of.value.seconds * 1_000_000_000
        + of.value.nanos && shown.text == of.text@
}

/// The rules of timestamps, with `lt_now`, `gt_now` and `within`.
pub proof fn law_timestamp_rules<F: Formats, E>(
    formats: F,
    now: int,
    prefix: Seq<char>,
    r: TimestampRules,
    v: Timestamp,
    m: ValV<E>,
    seconds: i64,
    nanos: i32,
)
    requires
        holds_moment(m, seconds, nanos),
    ensures
        ({
            let rules = RulesType::Timestamp(r);
            let at = seconds * 1_000_000_000 + nanos;
            let seven = rule_checks::<E>(prefix, rules, 7);
            let eight = rule_checks::<E>(prefix, rules, 8);
            let nine = rule_checks::<E>(prefix, rules, 9);
            &&& comparisons_hold(
                |n: int| rule_checks::<E>(prefix, rules, n as u32),
                1,
                prefix,
                timestamp_bounds_of(r),
                v,
            )
            &&& r.less_than == Some(TimestampLessThan::LtNow(true)) ==> one_check(
                seven,
                prefix,
                "lt_now"@,
                "must be less than now"@,
            ) && breaks_on::<F, E>(formats, now, seven, m, at > now)
            &&& r.less_than != Some(TimestampLessThan::LtNow(true)) ==> no_check(seven)
            &&& r.greater_than == Some(TimestampGreaterThan::GtNow(true)) ==> one_check(
                eight,
                prefix,
                "gt_now"@,
                "must be greater than now"@,
            ) && breaks_on::<F, E>(formats, now, eight, m, at < now)
            &&& r.greater_than != Some(TimestampGreaterThan::GtNow(true)) ==> no_check(eight)
            &&& r.within is None ==> no_check(nine)
            &&& r.within matches Some(within) ==> one_check(
                nine,
                prefix,
                "within"@,
                "must be within "@ + within.text@ + " of now"@,
            ) && breaks_on::<F, E>(
                formats,
                now,
                nine,
                m,
                at - now > within.value.seconds * 1_000_000_000 + within.value.nanos || now - at
                    > within.value.seconds * 1_000_000_000 + within.value.nanos,
            )
        }),
{
    let rules = RulesType::Timestamp(r);
    let made = |n: int| rule_checks::<E>(prefix, rules, n as u32);
    lemma_timestamp_comparisons(made, prefix, r, v);
}

proof fn lemma_timestamp_comparisons<E>(
    made: spec_fn(int) -> Made<E>,
    prefix: Seq<char>,
    r: TimestampRules,
    v: Timestamp,
)
    requires
        made == (|n: int| rule_checks::<E>(prefix, RulesType::Timestamp(r), n as u32)),
    ensures
        comparisons_hold(made, 1, prefix, timestamp_bounds_of(r), v),
{
    lemma_comparisons(made, 1, prefix, timestamp_bounds_of(r), v);
}

/// The rule of truth values.
pub proof fn law_bool_rules<F: Formats, E>(
    formats: F,
    now: int,
    prefix: Seq<char>,
    r: BoolRules,
    v: bool,
    number: u32,
)
    ensures
        ({
            let rules = RulesType::Bool(r);
            let one = rule_checks::<E>(prefix, rules, 1);
            &&& r.constant is None ==> no_check(one)
            &&& r.constant matches Some(c) ==> one_check(
                one,
                prefix,
                "const"@,
                "must equal "@ + (if c {
                    "true"@
                } else {
                    "false"@
                }),
            ) && breaks_on::<F, E>(formats, now, one, ValV::Bool(v), v != c)
            &&& number != 1 ==> no_check(rule_checks::<E>(prefix, rules, number))
        }),
{
}

/// The rules of enums, which go by the numbers.
pub proof fn law_enum_rules<F: Formats, E>(
    formats: F,
    now: int,
    prefix: Seq<char>,
    r: EnumRules,
    v: i32,
    number: u32,
)
    ensures
        ({
            let rules = RulesType::Enum(r);
            let one = rule_checks::<E>(prefix, rules, 1);
            let three = rule_checks::<E>(prefix, rules, 3);
            let four = rule_checks::<E>(prefix, rules, 4);
            let value = ValV::<E>::Enum(v);
            &&& r.constant is None ==> no_check(one)
            &&& r.constant matches Some(c) ==> one_check(
                one,
                prefix,
                "const"@,
                "must equal "@ + signed_decimal(c as int),
            ) && breaks_on::<F, E>(formats, now, one, value, v != c)
            &&& one_check(
                three,
                prefix,
                "in"@,
                "must be in list "@ + listed(
                    r.in_list@.map_values(|x: i32| signed_decimal(x as int)),
                ),
            )
            &&& breaks_on::<F, E>(
                formats,
                now,
                three,
                value,
                forall|i: int| 0 <= i < r.in_list@.len() ==> #[trigger] r.in_list@[i] != v,
            )
            &&& one_check(
                four,
                prefix,
                "not_in"@,
                "must not be in list "@ + listed(
                    r.not_in@.map_values(|x: i32| signed_decimal(x as int)),
                ),
            )
            &&& breaks_on::<F, E>(
                formats,
                now,
                four,
                value,
                exists|i: int| 0 <= i < r.not_in@.len() && #[trigger] r.not_in@[i] == v,
            )
            &&& number != 1 && number != 3 && number != 4 ==> no_check(
                rule_checks::<E>(prefix, rules, number),
            )
        }),
{
    let inside = wide_numbers(r.in_list@);
    let outside = wide_numbers(r.not_in@);
    law_signed_comparisons(v as i64, 0, inside);
    law_signed_comparisons(v as i64, 0, outside);
    assert forall|i: int| 0 <= i < r.in_list@.len() implies (inside[i] == v as i64 <==> (
    #[trigger] r.in_list@[i]) == v) by {}
    assert forall|i: int| 0 <= i < r.not_in@.len() implies (outside[i] == v as i64 <==> (
    #[trigger] r.not_in@[i]) == v) by {}
    if exists|i: int| 0 <= i < r.not_in@.len() && #[trigger] r.not_in@[i] == v {
        let i = choose|i: int| 0 <= i < r.not_in@.len() && #[trigger] r.not_in@[i] == v;
        assert(outside[i] == v as i64);
    }
    if exists|i: int| 0 <= i < outside.len() && #[trigger] outside[i] == v as i64 {
        let i = choose|i: int| 0 <= i < outside.len() && #[trigger] outside[i] == v as i64;
        assert(r.not_in@[i] == v);
    }
    if exists|i: int| 0 <= i < r.in_list@.len() && #[trigger] r.in_list@[i] == v {
        let i = choose|i: int| 0 <= i < r.in_list@.len() && #[trigger] r.in_list@[i] == v;
        assert(inside[i] == v as i64);
    }
    if exists|i: int| 0 <= i < inside.len() && #[trigger] inside[i] == v as i64 {
        let i = choose|i: int| 0 <= i < inside.len() && #[trigger] inside[i] == v as i64;
        assert(r.in_list@[i] == v);
    }
    assert(number_texts(r.in_list@) =~= r.in_list@.map_values(
        |x: i32| signed_decimal(x as int),
    ));
    assert(number_texts(r.not_in@) =~= r.not_in@.map_values(
        |x: i32| signed_decimal(x as int),
    ));
}

/// The rules of lists.
pub proof fn law_repeated_rules<E>(prefix: Seq<char>, r: RepeatedRules, number: u32)
    ensures
        ({
            let rules = RulesType::Repeated(r);
            let one = rule_checks::<E>(prefix, rules, 1);
            let two = rule_checks::<E>(prefix, rules, 2);
            let three = rule_checks::<E>(prefix, rules, 3);
            &&& r.min_items matches Some(n) ==> one_check(
                one,
                prefix,
                "min_items"@,
                "must contain at least "@ + decimal(n as nat) + " item(s)"@,
            ) && one->Ok_0[0].test == TestV::List(ListTest::MinItems(n))
            &&& r.max_items matches Some(n) ==> one_check(
                two,
                prefix,
                "max_items"@,
                "must contain no more than "@ + decimal(n as nat) + " item(s)"@,
            ) && two->Ok_0[0].test == TestV::List(ListTest::MaxItems(n))
            &&& r.unique == Some(true) ==> one_check(
                three,
                prefix,
                "unique"@,
                "repeated value must contain unique items"@,
            ) && three->Ok_0[0].test == TestV::List(ListTest::Unique)
            &&& r.unique != Some(true) ==> no_check(three)
            &&& number == 0 || number > 3 ==> no_check(rule_checks::<E>(prefix, rules, number))
        }),
{
}

/// The rules of maps.
pub proof fn law_map_rules_check_sizes<E>(prefix: Seq<char>, r: MapRules, number: u32)
    ensures
        ({
            let rules = RulesType::Mapping(r);
            let one = rule_checks::<E>(prefix, rules, 1);
            let two = rule_checks::<E>(prefix, rules, 2);
            &&& r.min_pairs matches Some(n) ==> one_check(
                one,
                prefix,
                "min_pairs"@,
                "map must be at least "@ + decimal(n as nat) + " entries"@,
            ) && one->Ok_0[0].test == TestV::Mapping(MapTest::MinPairs(n))
            &&& r.max_pairs matches Some(n) ==> one_check(
                two,
                prefix,
                "max_pairs"@,
                "map must be at most "@ + decimal(n as nat) + " entries"@,
            ) && two->Ok_0[0].test == TestV::Mapping(MapTest::MaxPairs(n))
            &&& number == 0 || number > 2 ==> no_check(rule_checks::<E>(prefix, rules, number))
        }),
{
}

/// The rules of field masks.
pub proof fn law_field_mask_rules_check_paths<E>(prefix: Seq<char>, r: FieldMaskRules, number: u32)
    ensures
        ({
            let rules = RulesType::FieldMask(r);
            let one = rule_checks::<E>(prefix, rules, 1);
            let two = rule_checks::<E>(prefix, rules, 2);
            let three = rule_checks::<E>(prefix, rules, 3);
            let inside = r.in_list@.map_values(|x: String| x@);
            let outside = r.not_in@.map_values(|x: String| x@);
            &&& r.constant is None ==> no_check(one)
            &&& r.constant matches Some(c) ==> {
                let paths = c@.map_values(|x: String| x@);
                one_check(one, prefix, "const"@, "must equal paths "@ + listed(paths))
                    && one->Ok_0[0].test == TestV::FieldMask(FieldMaskTestV::Const(paths))
            }
            &&& one_check(two, prefix, "in"@, "must only contain paths in "@ + listed(inside))
            &&& two->Ok_0[0].test == TestV::FieldMask(FieldMaskTestV::In(inside))
            &&& one_check(
                three,
                prefix,
                "not_in"@,
                "must not contain any paths in "@ + listed(outside),
            )
            &&& three->Ok_0[0].test == TestV::FieldMask(FieldMaskTestV::NotIn(outside))
            &&& number == 0 || number > 3 ==> no_check(rule_checks::<E>(prefix, rules, number))
        }),
{
    assert(texts(r.in_list@) =~= r.in_list@.map_values(|x: String| x@));
    assert(texts(r.not_in@) =~= r.not_in@.map_values(|x: String| x@));
    if let Some(c) = r.constant {
        assert(texts(c@) =~= c@.map_values(|x: String| x@));
    }
}

/// The rules of an `Any` make no checks: they are tried on the type URL.
pub proof fn law_any_rules_make_no_checks<E>(
    prefix: Seq<char>,
    r: AnyRules,
    number: u32,
)
    ensures
        no_check(rule_checks::<E>(prefix, RulesType::Any(r), number)),
{
}

/// The length rules of strings.
pub proof fn law_string_length_rules<F: Formats, E>(
    formats: F,
    now: int,
    prefix: Seq<char>,
    r: StringRules,
    s: Seq<char>,
    n: u64,
)
    ensures
        r.min_len == Some(n) ==> {
            let made = rule_checks::<E>(prefix, RulesType::String(r), 2);
            &&& one_check(made, prefix, "min_len"@, "must be at least "@ + decimal(n as nat) + " characters"@)
            &&& breaks_on::<F, E>(formats, now, made, ValV::String(s), s.len() < n)
        },
        r.max_len == Some(n) ==> {
            let made = rule_checks::<E>(prefix, RulesType::String(r), 3);
            &&& one_check(made, prefix, "max_len"@, "must be at most "@ + decimal(n as nat) + " characters"@)
            &&& breaks_on::<F, E>(formats, now, made, ValV::String(s), s.len() > n)
        },
        r.min_bytes == Some(n) ==> {
            let made = rule_checks::<E>(prefix, RulesType::String(r), 4);
            &&& one_check(made, prefix, "min_bytes"@, "must be at least "@ + decimal(n as nat) + " bytes"@)
            &&& breaks_on::<F, E>(formats, now, made, ValV::String(s), encode_utf8(s).len() < n)
        },
        r.max_bytes == Some(n) ==> {
            let made = rule_checks::<E>(prefix, RulesType::String(r), 5);
            &&& one_check(made, prefix, "max_bytes"@, "must be at most "@ + decimal(n as nat) + " bytes"@)
            &&& breaks_on::<F, E>(formats, now, made, ValV::String(s), encode_utf8(s).len() > n)
        },
        r.len == Some(n) ==> {
            let made = rule_checks::<E>(prefix, RulesType::String(r), 19);
            &&& one_check(made, prefix, "len"@, "must be "@ + decimal(n as nat) + " characters"@)
            &&& breaks_on::<F, E>(formats, now, made, ValV::String(s), s.len() != n)
        },
        r.len_bytes == Some(n) ==> {
            let made = rule_checks::<E>(prefix, RulesType::String(r), 20);
            &&& one_check(made, prefix, "len_bytes"@, "must be "@ + decimal(n as nat) + " bytes"@)
            &&& breaks_on::<F, E>(formats, now, made, ValV::String(s), encode_utf8(s).len() != n)
        },
{
}

/// The rules of strings that name a part of the string.
pub proof fn law_string_part_rules<F: Formats, E>(
    formats: F,
    now: int,
    prefix: Seq<char>,
    r: StringRules,
    s: Seq<char>,
    p: String,
)
    ensures
        r.prefix == Some(p) ==> {
            let made = rule_checks::<E>(prefix, RulesType::String(r), 7);
            &&& one_check(made, prefix, "prefix"@, "does not have prefix `"@ + p@ + "`"@)
            &&& breaks_on::<F, E>(
                formats,
                now,
                made,
                ValV::String(s),
                !exists|rest: Seq<char>| s == #[trigger] (p@ + rest),
            )
        },
        r.suffix == Some(p) ==> {
            let made = rule_checks::<E>(prefix, RulesType::String(r), 8);
            &&& one_check(made, prefix, "suffix"@, "does not have suffix `"@ + p@ + "`"@)
            &&& breaks_on::<F, E>(
                formats,
                now,
                made,
                ValV::String(s),
                !exists|front: Seq<char>| s == #[trigger] (front + p@),
            )
        },
        r.contains == Some(p) ==> {
            let made = rule_checks::<E>(prefix, RulesType::String(r), 9);
            &&& one_check(made, prefix, "contains"@, "does not contain substring `"@ + p@ + "`"@)
            &&& breaks_on::<F, E>(
                formats,
                now,
                made,
                ValV::String(s),
                !exists|front: Seq<char>, rest: Seq<char>| s == #[trigger] (front + p@ + rest),
            )
        },
        r.not_contains == Some(p) ==> {
            let made = rule_checks::<E>(prefix, RulesType::String(r), 23);
            &&& one_check(made, prefix, "not_contains"@, "contains substring `"@ + p@ + "`"@)
            &&& breaks_on::<F, E>(
                formats,
                now,
                made,
                ValV::String(s),
                exists|front: Seq<char>, rest: Seq<char>| s == #[trigger] (front + p@ + rest),
            )
        },
        r.constant == Some(p) ==> {
            let made = rule_checks::<E>(prefix, RulesType::String(r), 1);
            &&& one_check(made, prefix, "const"@, "must equal `"@ + p@ + "`"@)
            &&& breaks_on::<F, E>(
                formats,
                now,
                made,
                ValV::String(s),
                s != p@,
            )
        },
{
    law_substring_rules(formats, p@, s);
}

/// The list rules of strings.
pub proof fn law_string_list_rules<F: Formats, E>(
    formats: F,
    now: int,
    prefix: Seq<char>,
    r: StringRules,
    s: Seq<char>,
)
    ensures
        ({
            let ten = rule_checks::<E>(prefix, RulesType::String(r), 10);
            let eleven = rule_checks::<E>(prefix, RulesType::String(r), 11);
            &&& one_check(
                ten,
                prefix,
                "in"@,
                "must be in list "@ + listed(r.in_list@.map_values(|x: String| x@)),
            )
            &&& breaks_on::<F, E>(
                formats,
                now,
                ten,
                ValV::String(s),
                forall|i: int| 0 <= i < r.in_list@.len() ==> (#[trigger] r.in_list@[i])@ != s,
            )
            &&& one_check(
                eleven,
                prefix,
                "not_in"@,
                "must not be in list "@ + listed(r.not_in@.map_values(|x: String| x@)),
            )
            &&& breaks_on::<F, E>(
                formats,
                now,
                eleven,
                ValV::String(s),
                exists|i: int| 0 <= i < r.not_in@.len() && (#[trigger] r.not_in@[i])@ == s,
            )
        }),
{
    law_held_string_lists_are_exact(formats, r.in_list, s);
    law_held_string_lists_are_exact(formats, r.not_in, s);
    assert(texts(r.in_list@) =~= r.in_list@.map_values(|x: String| x@));
    assert(texts(r.not_in@) =~= r.not_in@.map_values(|x: String| x@));
}

/// The pattern rules of strings and bytes: a pattern that compiles is what
/// values are matched with, and one that does not is reported.
pub proof fn law_pattern_rules<F: Formats, E>(
    formats: F,
    now: int,
    prefix: Seq<char>,
    r: StringRules,
    b: BytesRules,
    s: Seq<char>,
    p: String,
)
    requires
        r.pattern == Some(p),
        b.pattern == Some(p),
    ensures
        ({
            let six = rule_checks::<E>(prefix, RulesType::String(r), 6);
            let four = rule_checks::<E>(prefix, RulesType::Bytes(b), 4);
            match regex_in(p@) {
                Ok(regex) => {
                    &&& one_check(
                        six,
                        prefix,
                        "pattern"@,
                        "does not match regex pattern `"@ + p@ + "`"@,
                    )
                    &&& breaks_on::<F, E>(
                        formats,
                        now,
                        six,
                        ValV::String(s),
                        !regex_matches(regex, s),
                    )
                    &&& one_check(
                        four,
                        prefix,
                        "pattern"@,
                        "must match regex pattern `"@ + p@ + "`"@,
                    )
                    &&& breaks_on::<F, E>(
                        formats,
                        now,
                        four,
                        ValV::Bytes(encode_utf8(s)),
                        !regex_matches(regex, s),
                    )
                },
                Err(error) => {
                    let reported = Err::<Seq<NativeV>, ErrorV<E>>(
                        ErrorV::Compilation("invalid regex pattern `"@ + p@ + "`: "@ + error),
                    );
                    six == reported && four == reported
                },
            }
        }),
{
    if let Ok(regex) = regex_in(p@) {
        law_bytes_patterns_go_by_the_string::<F, E>(
            formats,
            regex,
            s,
            encode_utf8(s),
        );
    }
}

/// Whether a format rule makes the check of its format and, where `empty`
/// names what an empty string is not, the `_empty` check beside it.
pub open spec fn format_holds<E>(
    made: Made<E>,
    prefix: Seq<char>,
    name: Seq<char>,
    what: Seq<char>,
    known: WellKnown,
    empty: Option<Seq<char>>,
) -> bool {
    &&& made is Ok
    &&& made->Ok_0.len() == (if empty is Some {
        2nat
    } else {
        1nat
    })
    &&& made->Ok_0[0].id == prefix + "."@ + name
    &&& made->Ok_0[0].message == "must be a valid "@ + what
    &&& made->Ok_0[0].test == TestV::Str(StrTestV::WellKnown(known))
    &&& empty matches Some(empty) ==> {
        &&& made->Ok_0[1].id == prefix + "."@ + (name + "_empty"@)
        &&& made->Ok_0[1].message == "value is empty, which is not a valid "@ + empty
        &&& made->Ok_0[1].test == TestV::Str(StrTestV::Empty)
    }
}

/// Whether a number is that of a rule field of strings that is no well-known
/// format.
pub open spec fn plain_string_rule(number: u32) -> bool {
    1 <= number <= 11 || number == 19 || number == 20 || number == 23
}

/// Whether a rule makes the checks of the well-known format that it names,
/// with an `_empty` check beside it for all but references to URIs.
pub open spec fn named_format_holds<E>(
    made: Made<E>,
    prefix: Seq<char>,
    rule: StringFormat,
) -> bool {
    match rule {
        StringFormat::Email(_) => format_holds(
            made,
            prefix,
            "email"@,
            "email address"@,
            WellKnown::Email,
            Some("email address"@),
        ),
        StringFormat::Hostname(_) => format_holds(
            made,
            prefix,
            "hostname"@,
            "hostname"@,
            WellKnown::Hostname,
            Some("hostname"@),
        ),
        StringFormat::Ip(_) => format_holds(
            made,
            prefix,
            "ip"@,
            "IP address"@,
            WellKnown::Ip,
            Some("IP address"@),
        ),
        StringFormat::Ipv4(_) => format_holds(
            made,
            prefix,
            "ipv4"@,
            "IPv4 address"@,
            WellKnown::Ipv4,
            Some("IPv4 address"@),
        ),
        StringFormat::Ipv6(_) => format_holds(
            made,
            prefix,
            "ipv6"@,
            "IPv6 address"@,
            WellKnown::Ipv6,
            Some("IPv6 address"@),
        ),
        StringFormat::Uri(_) => format_holds(
            made,
            prefix,
            "uri"@,
            "URI"@,
            WellKnown::Uri,
            Some("URI"@),
        ),
        StringFormat::UriRef(_) => format_holds(
            made,
            prefix,
            "uri_ref"@,
            "URI Reference"@,
            WellKnown::UriRef,
            None,
        ),
        StringFormat::Address(_) => format_holds(
            made,
            prefix,
            "address"@,
            "hostname, or ip address"@,
            WellKnown::Address,
            Some("hostname, or ip address"@),
        ),
        StringFormat::Uuid(_) => format_holds(
            made,
            prefix,
            "uuid"@,
            "UUID"@,
            WellKnown::Uuid,
            Some("UUID"@),
        ),
        StringFormat::Tuuid(_) => format_holds(
            made,
            prefix,
            "tuuid"@,
            "trimmed UUID"@,
            WellKnown::Tuuid,
            Some("trimmed UUID"@),
        ),
        StringFormat::IpWithPrefixlen(_) => format_holds(
            made,
            prefix,
            "ip_with_prefixlen"@,
            "IP prefix"@,
            WellKnown::IpWithPrefixlen,
            Some("IP prefix"@),
        ),
        StringFormat::Ipv4WithPrefixlen(_) => format_holds(
            made,
            prefix,
            "ipv4_with_prefixlen"@,
            "IPv4 address with prefix length"@,
            WellKnown::Ipv4WithPrefixlen,
            Some("IPv4 address with prefix length"@),
        ),
        StringFormat::Ipv6WithPrefixlen(_) => format_holds(
            made,
            prefix,
            "ipv6_with_prefixlen"@,
            "IPv6 address with prefix length"@,
            WellKnown::Ipv6WithPrefixlen,
            Some("IPv6 address with prefix length"@),
        ),
        StringFormat::IpPrefix(_) => format_holds(
            made,
            prefix,
            "ip_prefix"@,
            "IP prefix"@,
            WellKnown::IpPrefix,
            Some("IP prefix"@),
        ),
        StringFormat::Ipv4Prefix(_) => format_holds(
            made,
            prefix,
            "ipv4_prefix"@,
            "IPv4 prefix"@,
            WellKnown::Ipv4Prefix,
            Some("IPv4 prefix"@),
        ),
        StringFormat::Ipv6Prefix(_) => format_holds(
            made,
            prefix,
            "ipv6_prefix"@,
            "IPv6 prefix"@,
            WellKnown::Ipv6Prefix,
            Some("IPv6 prefix"@),
        ),
        StringFormat::HostAndPort(_) => format_holds(
            made,
            prefix,
            "host_and_port"@,
            "host (hostname or IP address) and port pair"@,
            WellKnown::HostAndPort,
            Some("host and port pair"@),
        ),
        StringFormat::Ulid(_) => format_holds(
            made,
            prefix,
            "ulid"@,
            "ULID"@,
            WellKnown::Ulid,
            Some("ULID"@),
        ),
        StringFormat::ProtobufFqn(_) => format_holds(
            made,
            prefix,
            "protobuf_fqn"@,
            "fully-qualified Protobuf name"@,
            WellKnown::ProtobufFqn,
            Some("fully-qualified Protobuf name"@),
        ),
        StringFormat::ProtobufDotFqn(_) => format_holds(
            made,
            prefix,
            "protobuf_dot_fqn"@,
            "fully-qualified Protobuf name with a leading dot"@,
            WellKnown::ProtobufDotFqn,
            Some("fully-qualified Protobuf name with a leading dot"@),
        ),
        StringFormat::WellKnownRegex(_) => no_check(made),
    }
}

/// Whether a rule is set to true.
pub open spec fn is_on(rule: StringFormat) -> bool {
    match rule {
        StringFormat::Email(set)
        | StringFormat::Hostname(set)
        | StringFormat::Ip(set)
        | StringFormat::Ipv4(set)
        | StringFormat::Ipv6(set)
        | StringFormat::Uri(set)
        | StringFormat::UriRef(set)
        | StringFormat::Address(set)
        | StringFormat::Uuid(set)
        | StringFormat::Tuuid(set)
        | StringFormat::IpWithPrefixlen(set)
        | StringFormat::Ipv4WithPrefixlen(set)
        | StringFormat::Ipv6WithPrefixlen(set)
        | StringFormat::IpPrefix(set)
        | StringFormat::Ipv4Prefix(set)
        | StringFormat::Ipv6Prefix(set)
        | StringFormat::HostAndPort(set)
        | StringFormat::Ulid(set)
        | StringFormat::ProtobufFqn(set)
        | StringFormat::ProtobufDotFqn(set) => set,
        StringFormat::WellKnownRegex(_) => false,
    }
}

proof fn lemma_format_pair<E>(
    prefix: Seq<char>,
    name: Seq<char>,
    what: Seq<char>,
    known: WellKnown,
    empty: Option<Seq<char>>,
)
    ensures
        format_holds(
            Ok::<Seq<NativeV>, ErrorV<E>>(format_pair(prefix, name, what, known, empty)),
            prefix,
            name,
            what,
            known,
            empty,
        ),
{
}

proof fn lemma_named_formats<E>(prefix: Seq<char>, rule: StringFormat, strict: bool)
    requires
        !(rule is WellKnownRegex),
    ensures
        named_format_holds(
            Ok::<Seq<NativeV>, ErrorV<E>>(format_rules(prefix, rule, strict)),
            prefix,
            rule,
        ),
{
    match rule {
        StringFormat::Email(_) => {
            lemma_format_pair::<E>(
                prefix,
                "email"@,
                "email address"@,
                WellKnown::Email,
                Some("email address"@),
            );
        },
        StringFormat::Hostname(_) => {
            lemma_format_pair::<E>(
                prefix,
                "hostname"@,
                "hostname"@,
                WellKnown::Hostname,
                Some("hostname"@),
            );
        },
        StringFormat::Ip(_) => {
            lemma_format_pair::<E>(
                prefix,
                "ip"@,
                "IP address"@,
                WellKnown::Ip,
                Some("IP address"@),
            );
        },
        StringFormat::Ipv4(_) => {
            lemma_format_pair::<E>(
                prefix,
                "ipv4"@,
                "IPv4 address"@,
                WellKnown::Ipv4,
                Some("IPv4 address"@),
            );
        },
        StringFormat::Ipv6(_) => {
            lemma_format_pair::<E>(
                prefix,
                "ipv6"@,
                "IPv6 address"@,
                WellKnown::Ipv6,
                Some("IPv6 address"@),
            );
        },
        StringFormat::Uri(_) => {
            lemma_format_pair::<E>(
                prefix,
                "uri"@,
                "URI"@,
                WellKnown::Uri,
                Some("URI"@),
            );
        },
        StringFormat::UriRef(_) => {
            lemma_format_pair::<E>(
                prefix,
                "uri_ref"@,
                "URI Reference"@,
                WellKnown::UriRef,
                None,
            );
        },
        StringFormat::Address(_) => {
            lemma_format_pair::<E>(
                prefix,
                "address"@,
                "hostname, or ip address"@,
                WellKnown::Address,
                Some("hostname, or ip address"@),
            );
        },
        StringFormat::Uuid(_) => {
            lemma_format_pair::<E>(
                prefix,
                "uuid"@,
                "UUID"@,
                WellKnown::Uuid,
                Some("UUID"@),
            );
        },
        StringFormat::Tuuid(_) => {
            lemma_format_pair::<E>(
                prefix,
                "tuuid"@,
                "trimmed UUID"@,
                WellKnown::Tuuid,
                Some("trimmed UUID"@),
            );
        },
        StringFormat::IpWithPrefixlen(_) => {
            lemma_format_pair::<E>(
                prefix,
                "ip_with_prefixlen"@,
                "IP prefix"@,
                WellKnown::IpWithPrefixlen,
                Some("IP prefix"@),
            );
        },
        StringFormat::Ipv4WithPrefixlen(_) => {
            lemma_format_pair::<E>(
                prefix,
                "ipv4_with_prefixlen"@,
                "IPv4 address with prefix length"@,
                WellKnown::Ipv4WithPrefixlen,
                Some("IPv4 address with prefix length"@),
            );
        },
        StringFormat::Ipv6WithPrefixlen(_) => {
            lemma_format_pair::<E>(
                prefix,
                "ipv6_with_prefixlen"@,
                "IPv6 address with prefix length"@,
                WellKnown::Ipv6WithPrefixlen,
                Some("IPv6 address with prefix length"@),
            );
        },
        StringFormat::IpPrefix(_) => {
            lemma_format_pair::<E>(
                prefix,
                "ip_prefix"@,
                "IP prefix"@,
                WellKnown::IpPrefix,
                Some("IP prefix"@),
            );
        },
        StringFormat::Ipv4Prefix(_) => {
            lemma_format_pair::<E>(
                prefix,
                "ipv4_prefix"@,
                "IPv4 prefix"@,
                WellKnown::Ipv4Prefix,
                Some("IPv4 prefix"@),
            );
        },
        StringFormat::Ipv6Prefix(_) => {
            lemma_format_pair::<E>(
                prefix,
                "ipv6_prefix"@,
                "IPv6 prefix"@,
                WellKnown::Ipv6Prefix,
                Some("IPv6 prefix"@),
            );
        },
        StringFormat::HostAndPort(_) => {
            lemma_format_pair::<E>(
                prefix,
                "host_and_port"@,
                "host (hostname or IP address) and port pair"@,
                WellKnown::HostAndPort,
                Some("host and port pair"@),
            );
        },
        StringFormat::Ulid(_) => {
            lemma_format_pair::<E>(
                prefix,
                "ulid"@,
                "ULID"@,
                WellKnown::Ulid,
                Some("ULID"@),
            );
        },
        StringFormat::ProtobufFqn(_) => {
            lemma_format_pair::<E>(
                prefix,
                "protobuf_fqn"@,
                "fully-qualified Protobuf name"@,
                WellKnown::ProtobufFqn,
                Some("fully-qualified Protobuf name"@),
            );
        },
        StringFormat::ProtobufDotFqn(_) => {
            lemma_format_pair::<E>(
                prefix,
                "protobuf_dot_fqn"@,
                "fully-qualified Protobuf name with a leading dot"@,
                WellKnown::ProtobufDotFqn,
                Some("fully-qualified Protobuf name with a leading dot"@),
            );
        },
        StringFormat::WellKnownRegex(_) => {},
    }
}

/// The well-known formats of strings: each rule that is set to true makes the
/// check of the format of its name, with its `_empty` check; one that is set
/// to false makes none.
pub proof fn law_string_format_rules<E>(
    prefix: Seq<char>,
    r: StringRules,
    number: u32,
    rule: StringFormat,
)
    requires
        r.well_known == Some(rule),
        !plain_string_rule(number),
        number != 24,
    ensures
        is_on(rule) ==> named_format_holds(
            rule_checks::<E>(prefix, RulesType::String(r), number),
            prefix,
            rule,
        ),
        !is_on(rule) ==> no_check(rule_checks::<E>(prefix, RulesType::String(r), number)),
{
    let strict = r.strict != Some(false);
    assert(format_in_force(rule, number) == is_on(rule));
    if is_on(rule) {
        lemma_named_formats::<E>(prefix, rule, strict);
        assert(rule_checks::<E>(prefix, RulesType::String(r), number) == Ok::<
            Seq<NativeV>,
            ErrorV<E>,
        >(format_rules(prefix, rule, strict)));
    }
}

/// The well-known regex rules of strings, which are strict unless told not to
/// be.
pub proof fn law_known_regex_rules<E>(
    prefix: Seq<char>,
    r: StringRules,
    strict: bool,
)
    requires
        strict <==> r.strict != Some(false),
    ensures
        ({
            let made = rule_checks::<E>(prefix, RulesType::String(r), 24);
            &&& r.well_known == Some(StringFormat::WellKnownRegex(KnownRegex::HttpHeaderName))
                ==> format_holds(
                made,
                prefix,
                "well_known_regex.header_name"@,
                "HTTP header name"@,
                WellKnown::HeaderName { strict },
                Some("HTTP header name"@),
            )
            &&& r.well_known == Some(StringFormat::WellKnownRegex(KnownRegex::HttpHeaderValue))
                ==> format_holds(
                made,
                prefix,
                "well_known_regex.header_value"@,
                "HTTP header value"@,
                WellKnown::HeaderValue { strict },
                None,
            )
            &&& r.well_known == Some(StringFormat::WellKnownRegex(KnownRegex::Unspecified))
                ==> no_check(made)
            &&& r.well_known is None ==> no_check(made)
        }),
{
}

/// The length rules of bytes.
pub proof fn law_bytes_length_rules<F: Formats, E>(
    formats: F,
    now: int,
    prefix: Seq<char>,
    r: BytesRules,
    b: Seq<u8>,
    n: u64,
)
    ensures
        r.min_len == Some(n) ==> {
            let made = rule_checks::<E>(prefix, RulesType::Bytes(r), 2);
            &&& one_check(made, prefix, "min_len"@, "must be at least "@ + decimal(n as nat) + " bytes"@)
            &&& breaks_on::<F, E>(formats, now, made, ValV::Bytes(b), b.len() < n)
        },
        r.max_len == Some(n) ==> {
            let made = rule_checks::<E>(prefix, RulesType::Bytes(r), 3);
            &&& one_check(made, prefix, "max_len"@, "must be at most "@ + decimal(n as nat) + " bytes"@)
            &&& breaks_on::<F, E>(formats, now, made, ValV::Bytes(b), b.len() > n)
        },
        r.len == Some(n) ==> {
            let made = rule_checks::<E>(prefix, RulesType::Bytes(r), 13);
            &&& one_check(made, prefix, "len"@, "must be "@ + decimal(n as nat) + " bytes"@)
            &&& breaks_on::<F, E>(formats, now, made, ValV::Bytes(b), b.len() != n)
        },
{
}

/// The rules of bytes that name a part of the bytes.
pub proof fn law_bytes_part_rules<F: Formats, E>(
    formats: F,
    now: int,
    prefix: Seq<char>,
    r: BytesRules,
    b: Seq<u8>,
    p: Vec<u8>,
)
    ensures
        r.prefix == Some(p) ==> {
            let made = rule_checks::<E>(prefix, RulesType::Bytes(r), 5);
            &&& one_check(made, prefix, "prefix"@, "does not have prefix "@ + hexadecimal(p@))
            &&& breaks_on::<F, E>(
                formats,
                now,
                made,
                ValV::Bytes(b),
                !exists|rest: Seq<u8>| b == #[trigger] (p@ + rest),
            )
        },
        r.suffix == Some(p) ==> {
            let made = rule_checks::<E>(prefix, RulesType::Bytes(r), 6);
            &&& one_check(made, prefix, "suffix"@, "does not have suffix "@ + hexadecimal(p@))
            &&& breaks_on::<F, E>(
                formats,
                now,
                made,
                ValV::Bytes(b),
                !exists|front: Seq<u8>| b == #[trigger] (front + p@),
            )
        },
        r.contains == Some(p) ==> {
            let made = rule_checks::<E>(prefix, RulesType::Bytes(r), 7);
            &&& one_check(made, prefix, "contains"@, "does not contain "@ + hexadecimal(p@))
            &&& breaks_on::<F, E>(
                formats,
                now,
                made,
                ValV::Bytes(b),
                !exists|front: Seq<u8>, rest: Seq<u8>| b == #[trigger] (front + p@ + rest),
            )
        },
        r.constant == Some(p) ==> {
            let made = rule_checks::<E>(prefix, RulesType::Bytes(r), 1);
            &&& one_check(made, prefix, "const"@, "must be "@ + hexadecimal(p@))
            &&& breaks_on::<F, E>(
                formats,
                now,
                made,
                ValV::Bytes(b),
                b != p@,
            )
        },
{
    law_subsequence_rules::<E>(p@, b);
}

/// The list rules of bytes.
pub proof fn law_bytes_list_rules<F: Formats, E>(
    formats: F,
    now: int,
    prefix: Seq<char>,
    r: BytesRules,
    b: Seq<u8>,
)
    ensures
        ({
            let eight = rule_checks::<E>(prefix, RulesType::Bytes(r), 8);
            let nine = rule_checks::<E>(prefix, RulesType::Bytes(r), 9);
            &&& one_check(
                eight,
                prefix,
                "in"@,
                "must be in list "@ + listed(r.in_list@.map_values(|x: Shown<Vec<u8>>| x.text@)),
            )
            &&& breaks_on::<F, E>(
                formats,
                now,
                eight,
                ValV::Bytes(b),
                forall|i: int|
                    0 <= i < r.in_list@.len() ==> (#[trigger] r.in_list@[i]).value@ != b,
            )
            &&& one_check(
                nine,
                prefix,
                "not_in"@,
                "must not be in list "@ + listed(
                    r.not_in@.map_values(|x: Shown<Vec<u8>>| x.text@),
                ),
            )
            &&& breaks_on::<F, E>(
                formats,
                now,
                nine,
                ValV::Bytes(b),
                exists|i: int| 0 <= i < r.not_in@.len() && (#[trigger] r.not_in@[i]).value@ == b,
            )
        }),
{
    let inside = shown_bytes(r.in_list@);
    let outside = shown_bytes(r.not_in@);
    law_bytes_lists_are_exact::<E>(inside, b);
    law_bytes_lists_are_exact::<E>(outside, b);
    if exists|i: int| 0 <= i < r.not_in@.len() && (#[trigger] r.not_in@[i]).value@ == b {
        let i = choose|i: int| 0 <= i < r.not_in@.len() && (#[trigger] r.not_in@[i]).value@ == b;
        assert(outside[i] == b);
    }
    if exists|i: int| 0 <= i < outside.len() && #[trigger] outside[i] == b {
        let i = choose|i: int| 0 <= i < outside.len() && #[trigger] outside[i] == b;
        assert(r.not_in@[i].value@ == b);
    }
    if exists|i: int| 0 <= i < r.in_list@.len() && (#[trigger] r.in_list@[i]).value@ == b {
        let i = choose|i: int| 0 <= i < r.in_list@.len() && (#[trigger] r.in_list@[i]).value@ == b;
        assert(inside[i] == b);
    }
    if exists|i: int| 0 <= i < inside.len() && #[trigger] inside[i] == b {
        let i = choose|i: int| 0 <= i < inside.len() && #[trigger] inside[i] == b;
        assert(r.in_list@[i].value@ == b);
    }
    assert(shown_texts(r.in_list@) =~= r.in_list@.map_values(
        |x: Shown<Vec<u8>>| x.text@,
    ));
    assert(shown_texts(r.not_in@) =~= r.not_in@.map_values(
        |x: Shown<Vec<u8>>| x.text@,
    ));
}

/// Whether a format rule of bytes makes the check of its format and the
/// `_empty` check beside it.
pub open spec fn bytes_format_holds<E>(
    made: Made<E>,
    prefix: Seq<char>,
    name: Seq<char>,
    what: Seq<char>,
    test: BytesTestV,
) -> bool {
    &&& made is Ok
    &&& made->Ok_0.len() == 2
    &&& made->Ok_0[0].id == prefix + "."@ + name
    &&& made->Ok_0[0].message == "must be a valid "@ + what
    &&& made->Ok_0[0].test == TestV::Bytes(test)
    &&& made->Ok_0[1].id == prefix + "."@ + (name + "_empty"@)
    &&& made->Ok_0[1].message == "value is empty, which is not a valid "@ + what
    &&& made->Ok_0[1].test == TestV::Bytes(BytesTestV::Empty)
}

/// The well-known formats of bytes: the rule that is set to true makes its
/// checks, and no other does.
pub proof fn law_bytes_format_rules<E>(prefix: Seq<char>, r: BytesRules, number: u32)
    requires
        number >= 10,
        number != 13,
    ensures
        ({
            let made = rule_checks::<E>(prefix, RulesType::Bytes(r), number);
            if number == 10 && r.well_known == Some(BytesFormat::Ip(true)) {
                bytes_format_holds(made, prefix, "ip"@, "IP address"@, BytesTestV::Ip)
            } else if number == 11 && r.well_known == Some(BytesFormat::Ipv4(true)) {
                bytes_format_holds(made, prefix, "ipv4"@, "IPv4 address"@, BytesTestV::Ipv4)
            } else if number == 12 && r.well_known == Some(BytesFormat::Ipv6(true)) {
                bytes_format_holds(made, prefix, "ipv6"@, "IPv6 address"@, BytesTestV::Ipv6)
            } else if number == 15 && r.well_known == Some(BytesFormat::Uuid(true)) {
                bytes_format_holds(made, prefix, "uuid"@, "UUID"@, BytesTestV::Uuid)
            } else {
                no_check(made)
            }
        }),
{
}

/// A rule whose value is left out goes by the zero of its type.
pub proof fn law_values_left_out_are_zero<F: Formats, E>(
    formats: F,
    now: int,
    prefix: Seq<char>,
    r: StringRules,
    b: BytesRules,
    s: Seq<char>,
    bytes: Seq<u8>,
)
    ensures
        r.min_len is None ==> breaks_on::<F, E>(
            formats,
            now,
            rule_checks::<E>(prefix, RulesType::String(r), 2),
            ValV::String(s),
            false,
        ),
        r.max_len is None ==> breaks_on::<F, E>(
            formats,
            now,
            rule_checks::<E>(prefix, RulesType::String(r), 3),
            ValV::String(s),
            s.len() > 0,
        ),
        r.constant is None ==> breaks_on::<F, E>(
            formats,
            now,
            rule_checks::<E>(prefix, RulesType::String(r), 1),
            ValV::String(s),
            s.len() > 0,
        ),
        b.max_len is None ==> breaks_on::<F, E>(
            formats,
            now,
            rule_checks::<E>(prefix, RulesType::Bytes(b), 3),
            ValV::Bytes(bytes),
            bytes.len() > 0,
        ),
        b.constant is None ==> breaks_on::<F, E>(
            formats,
            now,
            rule_checks::<E>(prefix, RulesType::Bytes(b), 1),
            ValV::Bytes(bytes),
            bytes.len() > 0,
        ),
{
    if s.len() == 0 {
        assert(s =~= Seq::empty());
    }
    if bytes.len() == 0 {
        assert(bytes =~= Seq::empty());
    }
}

} // verus!
