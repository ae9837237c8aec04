use vstd::prelude::*;

use crate::calendar::CalendarState;
use crate::date::{MAX_DAY, MIN_DAY};

verus! {

/// Counting over `[lo, hi)` splits at any `mid` between.
pub proof fn lemma_count_split(cal: CalendarState, lo: int, mid: int, hi: int)
    requires
        lo <= mid <= hi,
    ensures
        cal.business_count(lo, hi) == cal.business_count(lo, mid) + cal.business_count(mid, hi),
    decreases hi - mid,
{
    if mid < hi {
        lemma_count_split(cal, lo, mid, hi - 1);
    }
}

/// Counting over `[lo, hi)` takes `lo` and then `[lo + 1, hi)`.
pub proof fn lemma_count_front(cal: CalendarState, lo: int, hi: int)
    requires
        lo < hi,
    ensures
        cal.business_count(lo, hi) == cal.business_count(lo + 1, hi) + if cal.is_business(lo) {
            1nat
        } else {
            0nat
        },
{
    lemma_count_split(cal, lo, lo + 1, hi);
    assert(cal.business_count(lo, lo) == 0);
}

/// `[lo, hi)` counts no business day exactly when it holds none.
pub proof fn lemma_count_zero(cal: CalendarState, lo: int, hi: int)
    ensures
        cal.business_count(lo, hi) == 0 <==> forall|k: int|
            lo <= k < hi ==> !#[trigger] cal.is_business(k),
    decreases hi - lo,
{
    if lo < hi {
        lemma_count_zero(cal, lo, hi - 1);
    }
}

/// Between `d` and a business day `e` lies a first business day on or after `d`.
pub proof fn lemma_first_exists(cal: CalendarState, d: int, e: int)
    requires
        d <= e <= MAX_DAY,
        cal.is_business(e),
    ensures
        exists|f: int| f <= e && #[trigger] cal.is_first_business_from(d, f),
    decreases e - d,
{
    if cal.is_business(d) {
        assert(cal.is_first_business_from(d, d));
    } else {
        lemma_first_exists(cal, d + 1, e);
        let f = choose|f: int| f <= e && #[trigger] cal.is_first_business_from(d + 1, f);
        assert(cal.is_first_business_from(d, f));
    }
}

/// The first business day on or after `d` is what rolling forward finds.
pub proof fn lemma_roll_forward_is(cal: CalendarState, d: int, e: int)
    requires
        cal.is_first_business_from(d, e),
    ensures
        cal.spec_roll_forward(d) == Some(e),
{
    let f = choose|f: int| cal.is_first_business_from(d, f);
    if f < e {
        assert(!cal.is_business(f));
    }
    if e < f {
        assert(!cal.is_business(e));
    }
}

/// Rolling forward finds nothing when no business day lies from `d` to the end.
pub proof fn lemma_roll_forward_none(cal: CalendarState, d: int)
    requires
        forall|k: int| d <= k <= MAX_DAY ==> !cal.is_business(k),
    ensures
        cal.spec_roll_forward(d) is None,
{
    if exists|e: int| cal.is_first_business_from(d, e) {
        let e = choose|e: int| cal.is_first_business_from(d, e);
        assert(!cal.is_business(e));
    }
}

/// Two dates `n` business days from `d` are the same date.
pub proof fn lemma_nth_unique(cal: CalendarState, d: int, n: int, e1: int, e2: int)
    requires
        cal.is_nth_business_from(d, n, e1),
        cal.is_nth_business_from(d, n, e2),
        e1 <= e2,
    ensures
        e1 == e2,
{
    if e1 < e2 {
        if n >= 0 {
            lemma_count_split(cal, d, e1 + 1, e2 + 1);
            assert(cal.business_count(e1 + 1, e2 + 1) > 0);
        } else {
            lemma_count_split(cal, e1, e2, d);
            lemma_count_front(cal, e1, e2);
        }
    }
}

/// A date `n` business days from `d` is what adding business days finds.
pub proof fn lemma_add_is(cal: CalendarState, d: int, n: int, e: int)
    requires
        cal.is_nth_business_from(d, n, e),
    ensures
        cal.spec_add_business_days(d, n) == Some(e),
{
    let f = choose|f: int| cal.is_nth_business_from(d, n, f);
    if f <= e {
        lemma_nth_unique(cal, d, n, f, e);
    } else {
        lemma_nth_unique(cal, d, n, e, f);
    }
}

/// Adding business days finds nothing when chrono's range holds too few of them.
pub proof fn lemma_add_none(cal: CalendarState, d: int, n: int)
    requires
        MIN_DAY <= d <= MAX_DAY,
        n >= 0 ==> cal.business_count(d, MAX_DAY + 1) <= n,
        n < 0 ==> cal.business_count(MIN_DAY as int, d) < -n,
    ensures
        cal.spec_add_business_days(d, n) is None,
{
    if exists|e: int| cal.is_nth_business_from(d, n, e) {
        let e = choose|e: int| cal.is_nth_business_from(d, n, e);
        if n >= 0 {
            lemma_count_split(cal, d, e + 1, MAX_DAY + 1);
        } else {
            lemma_count_split(cal, MIN_DAY as int, e, d);
        }
    }
}

/// A business day rolls forward to itself.
pub proof fn lemma_roll_forward_keeps_business_day(cal: CalendarState, d: int)
    requires
        MIN_DAY <= d <= MAX_DAY,
        cal.is_business(d),
    ensures
        cal.spec_roll_forward(d) == Some(d),
{
    lemma_roll_forward_is(cal, d, d);
}

/// Rolling forward twice lands where rolling once does.
pub proof fn lemma_roll_forward_idempotent(cal: CalendarState, d: int)
    requires
        MIN_DAY <= d <= MAX_DAY,
    ensures
        cal.spec_roll_forward(d) matches Some(r) ==> cal.spec_roll_forward(r) == Some(r),
{
    if let Some(r) = cal.spec_roll_forward(d) {
        lemma_roll_forward_is(cal, r, r);
    }
}

/// Adding zero business days is rolling forward.
pub proof fn lemma_add_zero_is_roll_forward(cal: CalendarState, d: int)
    requires
        MIN_DAY <= d <= MAX_DAY,
    ensures
        cal.spec_add_business_days(d, 0) == cal.spec_roll_forward(d),
{
    if exists|e: int| cal.is_first_business_from(d, e) {
        let e = choose|e: int| cal.is_first_business_from(d, e);
        lemma_roll_forward_is(cal, d, e);
        lemma_count_zero(cal, d, e);
        lemma_add_is(cal, d, 0, e);
    } else if exists|e: int| cal.is_nth_business_from(d, 0, e) {
        let e = choose|e: int| cal.is_nth_business_from(d, 0, e);
        lemma_count_zero(cal, d, e);
        assert(cal.is_first_business_from(d, e));
    }
}

/// Adding `n > 0` business days lands on a business day, with exactly `n`
/// business days after the rolled-forward start, up to and including it.
pub proof fn lemma_add_counts_after_roll_forward(cal: CalendarState, d: int, n: int)
    requires
        MIN_DAY <= d <= MAX_DAY,
        n > 0,
        cal.spec_add_business_days(d, n) is Some,
    ensures
        cal.spec_roll_forward(d) is Some,
        cal.is_business(cal.spec_add_business_days(d, n).unwrap()),
        cal.business_count(
            cal.spec_roll_forward(d).unwrap() + 1,
            cal.spec_add_business_days(d, n).unwrap() + 1,
        ) == n,
{
    let e = cal.spec_add_business_days(d, n).unwrap();
    assert(cal.is_nth_business_from(d, n, e));
    lemma_first_exists(cal, d, e);
    let r = cal.spec_roll_forward(d).unwrap();
    assert(cal.is_first_business_from(d, r));
    assert(r <= e) by {
        if e < r {
            assert(!cal.is_business(e));
        }
    }
    lemma_count_zero(cal, d, r);
    lemma_count_split(cal, d, r, e + 1);
    lemma_count_front(cal, r, e + 1);
}

} // verus!
