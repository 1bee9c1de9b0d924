//! The order of calendar dates whose year, month and day may each be unknown.
//! The date types of `anime_data`, `api_calls` and `user_data` all compare by
//! `date_order`.
//!
//! A missing year sorts before a known one.  For the month and the day, a
//! missing value on the left sorts before a known one on the right, but a known
//! value on the left against a missing one on the right decides nothing and the
//! comparison moves on to the next field.  The order is therefore not total:
//! the laws below state exactly on which pairs swapping the dates flips the
//! order and when two dates compare equal, and that the order is transitive
//! wherever it flips.

use vstd::prelude::*;
use core::cmp::Ordering;

verus! {

/// How the years of two dates decide their order, if they do.
pub open spec fn year_decides(a: Option<i32>, b: Option<i32>) -> Option<Ordering> {
    match (a, b) {
        (None, Some(_)) => Some(Ordering::Less),
        (Some(_), None) => Some(Ordering::Greater),
        (Some(x), Some(y)) => if x < y {
            Some(Ordering::Less)
        } else if x > y {
            Some(Ordering::Greater)
        } else {
            None
        },
        (None, None) => None,
    }
}

/// How the months, or the days, of two dates decide their order, if they do.
pub open spec fn part_decides(a: Option<i32>, b: Option<i32>) -> Option<Ordering> {
    match (a, b) {
        (None, Some(_)) => Some(Ordering::Less),
        (Some(x), Some(y)) => if x < y {
            Some(Ordering::Less)
        } else if x > y {
            Some(Ordering::Greater)
        } else {
            None
        },
        _ => None,
    }
}

/// The order of the date `(y1, m1, d1)` against the date `(y2, m2, d2)`.
pub open spec fn date_order(
    y1: Option<i32>,
    m1: Option<i32>,
    d1: Option<i32>,
    y2: Option<i32>,
    m2: Option<i32>,
    d2: Option<i32>,
) -> Ordering {
    match year_decides(y1, y2) {
        Some(o) => o,
        None => match part_decides(m1, m2) {
            Some(o) => o,
            None => match part_decides(d1, d2) {
                Some(o) => o,
                None => Ordering::Equal,
            },
        },
    }
}

/// The order seen from the other side.
pub open spec fn flipped(o: Ordering) -> Ordering {
    match o {
        Ordering::Less => Ordering::Greater,
        Ordering::Equal => Ordering::Equal,
        Ordering::Greater => Ordering::Less,
    }
}

/// Swapping the dates `(y1, m1, d1)` and `(y2, m2, d2)` flips their order:
/// the years decide, or the months both known and different decide, or the two
/// dates know the same of their month and of their day, or, where only one of
/// them knows its month, both know their day and that one's day is the later.
pub open spec fn order_flips(
    y1: Option<i32>,
    m1: Option<i32>,
    d1: Option<i32>,
    y2: Option<i32>,
    m2: Option<i32>,
    d2: Option<i32>,
) -> bool {
    match year_decides(y1, y2) {
        Some(_) => true,
        None => match (m1, m2) {
            (Some(x), Some(y)) => x != y || d1.is_some() == d2.is_some(),
            (None, None) => d1.is_some() == d2.is_some(),
            (None, Some(_)) => match (d1, d2) {
                (Some(x), Some(y)) => x < y,
                _ => false,
            },
            (Some(_), None) => match (d1, d2) {
                (Some(x), Some(y)) => x > y,
                _ => false,
            },
        },
    }
}

/// The comparison finds the dates equal although they differ: their years are
/// equal and each month and day is either equal or known on the left only.
pub open spec fn equal_but_unlike(
    y1: Option<i32>,
    m1: Option<i32>,
    d1: Option<i32>,
    y2: Option<i32>,
    m2: Option<i32>,
    d2: Option<i32>,
) -> bool {
    &&& y1 == y2
    &&& part_decides(m1, m2) is None
    &&& part_decides(d1, d2) is None
    &&& (m1 != m2 || d1 != d2)
}

/// The comparison in `date_order` takes the date's fields as it finds them.
pub fn order_of_dates(
    y1: Option<i32>,
    m1: Option<i32>,
    d1: Option<i32>,
    y2: Option<i32>,
    m2: Option<i32>,
    d2: Option<i32>,
) -> (r: Ordering)
    ensures
        r == date_order(y1, m1, d1, y2, m2, d2),
{
    if y1.is_none() && y2.is_some() {
        return Ordering::Less;
    }
    if y1.is_some() && y2.is_none() {
        return Ordering::Greater;
    }
    if let (Some(x), Some(y)) = (y1, y2) {
        if x < y {
            return Ordering::Less;
        }
        if x > y {
            return Ordering::Greater;
        }
    }
    if m1.is_none() && m2.is_some() {
        return Ordering::Less;
    }
    if let (Some(x), Some(y)) = (m1, m2) {
        if x < y {
            return Ordering::Less;
        }
        if x > y {
            return Ordering::Greater;
        }
    }
    if d1.is_none() && d2.is_some() {
        return Ordering::Less;
    }
    if let (Some(x), Some(y)) = (d1, d2) {
        if x < y {
            return Ordering::Less;
        }
        if x > y {
            return Ordering::Greater;
        }
    }
    Ordering::Equal
}

/// Dates compare by year first: a date without a year comes before one with
/// a year, and the earlier year first.  Within a year the month decides: a
/// missing month on the left comes before a known one, and the earlier month
/// first; a known month against a missing one decides nothing.  The day
/// decides in the same way after that, and when nothing decides the dates
/// compare equal.
pub proof fn law_date_order_by_year_month_day(
    y1: Option<i32>,
    m1: Option<i32>,
    d1: Option<i32>,
    y2: Option<i32>,
    m2: Option<i32>,
    d2: Option<i32>,
)
    ensures
        y1 is None && y2 is Some ==> date_order(y1, m1, d1, y2, m2, d2) == Ordering::Less,
        y1 is Some && y2 is None ==> date_order(y1, m1, d1, y2, m2, d2) == Ordering::Greater,
        y1 is Some && y2 is Some && y1->0 < y2->0 ==> date_order(y1, m1, d1, y2, m2, d2) == Ordering::Less,
        y1 is Some && y2 is Some && y1->0 > y2->0 ==> date_order(y1, m1, d1, y2, m2, d2) == Ordering::Greater,
        y1 == y2 && m1 is None && m2 is Some ==> date_order(y1, m1, d1, y2, m2, d2) == Ordering::Less,
        y1 == y2 && m1 is Some && m2 is Some && m1->0 < m2->0 ==> date_order(y1, m1, d1, y2, m2, d2)
            == Ordering::Less,
        y1 == y2 && m1 is Some && m2 is Some && m1->0 > m2->0 ==> date_order(y1, m1, d1, y2, m2, d2)
            == Ordering::Greater,
        y1 == y2 && (m1 == m2 || (m1 is Some && m2 is None)) ==> date_order(y1, m1, d1, y2, m2, d2) == (
        if d1 is None && d2 is Some {
            Ordering::Less
        } else if d1 is Some && d2 is Some && d1->0 < d2->0 {
            Ordering::Less
        } else if d1 is Some && d2 is Some && d1->0 > d2->0 {
            Ordering::Greater
        } else {
            Ordering::Equal
        }),
{
}

/// Every date is equal to itself.
pub proof fn law_date_order_reflexive(y: Option<i32>, m: Option<i32>, d: Option<i32>)
    ensures
        date_order(y, m, d, y, m, d) == Ordering::Equal,
{
}

/// Swapping two dates flips their order exactly on the pairs `order_flips`
/// names.  For instance the dates (2020, -, 1) and (2020, March, -) each sort
/// before the other.
pub proof fn law_date_order_antisymmetric(
    y1: Option<i32>,
    m1: Option<i32>,
    d1: Option<i32>,
    y2: Option<i32>,
    m2: Option<i32>,
    d2: Option<i32>,
)
    ensures
        (date_order(y2, m2, d2, y1, m1, d1) == flipped(date_order(y1, m1, d1, y2, m2, d2)))
            <==> order_flips(y1, m1, d1, y2, m2, d2),
{
}

/// Where swapping flips the order of `a` and `b` and of `b` and `c`, the order
/// is transitive: if `a` is not after `b` and `b` is not after `c`, then `a` is
/// not after `c`, and strictly before when either step is strict.  Dates whose
/// years differ always flip, so this holds whenever the years decide.
pub proof fn law_date_order_transitive(
    a: (Option<i32>, Option<i32>, Option<i32>),
    b: (Option<i32>, Option<i32>, Option<i32>),
    c: (Option<i32>, Option<i32>, Option<i32>),
)
    requires
        order_flips(a.0, a.1, a.2, b.0, b.1, b.2),
        order_flips(b.0, b.1, b.2, c.0, c.1, c.2),
        date_order(a.0, a.1, a.2, b.0, b.1, b.2) != Ordering::Greater,
        date_order(b.0, b.1, b.2, c.0, c.1, c.2) != Ordering::Greater,
    ensures
        date_order(a.0, a.1, a.2, c.0, c.1, c.2) != Ordering::Greater,
        (date_order(a.0, a.1, a.2, b.0, b.1, b.2) == Ordering::Less || date_order(
            b.0,
            b.1,
            b.2,
            c.0,
            c.1,
            c.2,
        ) == Ordering::Less) ==> date_order(a.0, a.1, a.2, c.0, c.1, c.2) == Ordering::Less,
{
}

/// The comparison finds two dates equal exactly when all their fields are
/// equal or `equal_but_unlike` holds, which needs a month or a day known on the
/// left and missing on the right; on every other pair, equal means the same.
pub proof fn law_date_order_equal_means_same(
    y1: Option<i32>,
    m1: Option<i32>,
    d1: Option<i32>,
    y2: Option<i32>,
    m2: Option<i32>,
    d2: Option<i32>,
)
    ensures
        (date_order(y1, m1, d1, y2, m2, d2) == Ordering::Equal) <==> ((y1 == y2 && m1 == m2 && d1
            == d2) || equal_but_unlike(y1, m1, d1, y2, m2, d2)),
        equal_but_unlike(y1, m1, d1, y2, m2, d2) ==> (m1 is Some && m2 is None) || (d1 is Some && d2
            is None),
        !equal_but_unlike(y1, m1, d1, y2, m2, d2) ==> ((date_order(y1, m1, d1, y2, m2, d2)
            == Ordering::Equal) <==> (y1 == y2 && m1 == m2 && d1 == d2)),
{
}

} // verus!
