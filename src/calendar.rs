use vstd::prelude::*;

use crate::date::{iso_parse, weekday_index, Date, MAX_DAY, MIN_DAY};
use crate::error::CalendarError;
use crate::laws::{
    lemma_add_is, lemma_add_none, lemma_count_front, lemma_count_zero, lemma_roll_forward_is,
    lemma_roll_forward_none,
};
use crate::weekday::Weekday;

verus! {

/// The working week used when a configuration names no working day.
pub open spec fn default_week() -> Seq<Weekday> {
    seq![Weekday::Mon, Weekday::Tue, Weekday::Wed, Weekday::Thu, Weekday::Fri]
}

/// The day numbers of a sequence of dates.
pub open spec fn day_numbers(s: Seq<Date>) -> Seq<int> {
    s.map_values(|d: Date| d@)
}

/// `names` spells out `days`, one abbreviation each, in order.
pub open spec fn names_weekdays(names: Seq<String>, days: Seq<Weekday>) -> bool {
    names.len() == days.len() && forall|i: int|
        0 <= i < days.len() ==> #[trigger] days[i].spec_name() == names[i]@
}

/// `texts` are `YYYY-MM-DD` spellings of `days`, one each, in order.
pub open spec fn parses_to(texts: Seq<String>, days: Seq<int>) -> bool {
    texts.len() == days.len() && forall|i: int|
        0 <= i < days.len() ==> iso_parse(#[trigger] texts[i]@) == Some(days[i])
}

/// Some weekday is abbreviated as `s`.
pub open spec fn is_weekday_name(s: Seq<char>) -> bool {
    exists|w: Weekday| w.spec_name() == s
}

/// Every text in `texts` reads as a date.
pub open spec fn all_parse(texts: Seq<String>) -> bool {
    forall|i: int| 0 <= i < texts.len() ==> iso_parse(#[trigger] texts[i]@) is Some
}

/// The day number that an optional date holds.
pub open spec fn day_of(r: Option<Date>) -> Option<int> {
    match r {
        Some(d) => Some(d@),
        None => None,
    }
}

/// Which dates are business days: the working weekdays, less the holidays, plus
/// the extra working dates. Fixed once built.
pub struct CalendarState {
    working_days: Vec<Weekday>,
    holidays: Vec<Date>,
    extra_working_dates: Vec<Date>,
}

fn holds_date(dates: &Vec<Date>, d: &Date) -> (r: bool)
    ensures
        r == day_numbers(dates@).contains(d@),
{
    let n = d.day_number();
    let mut i: usize = 0;
    while i < dates.len()
        invariant
            0 <= i <= dates@.len(),
            n == d@,
            forall|j: int| 0 <= j < i ==> dates@[j]@ != d@,
        decreases dates@.len() - i,
    {
        let m = dates[i].day_number();
        if m == n {
            assert(day_numbers(dates@)[i as int] == d@);
            return true;
        }
        i = i + 1;
    }
    proof {
        if day_numbers(dates@).contains(d@) {
            let j = choose|j: int| 0 <= j < dates@.len() && day_numbers(dates@)[j] == d@;
            assert(dates@[j]@ == d@);
        }
    }
    false
}

fn holds_weekday(days: &Vec<Weekday>, w: u32) -> (r: bool)
    ensures
        r == exists|i: int| 0 <= i < days@.len() && #[trigger] days@[i].index() == w,
{
    let mut i: usize = 0;
    while i < days.len()
        invariant
            0 <= i <= days@.len(),
            forall|j: int| 0 <= j < i ==> days@[j].index() != w,
        decreases days@.len() - i,
    {
        let hit = match days[i] {
            Weekday::Mon => w == 0,
            Weekday::Tue => w == 1,
            Weekday::Wed => w == 2,
            Weekday::Thu => w == 3,
            Weekday::Fri => w == 4,
            Weekday::Sat => w == 5,
            Weekday::Sun => w == 6,
        };
        if hit {
            assert(days@[i as int].index() == w);
            return true;
        }
        i = i + 1;
    }
    false
}

fn default_week_vec() -> (r: Vec<Weekday>)
    ensures
        r@ == default_week(),
{
    let r = vec![Weekday::Mon, Weekday::Tue, Weekday::Wed, Weekday::Thu, Weekday::Fri];
    assert(r@ =~= default_week());
    r
}

fn names_of(days: &Vec<Weekday>) -> (r: Vec<String>)
    ensures
        names_weekdays(r@, days@),
{
    let mut r: Vec<String> = Vec::new();
    let mut i: usize = 0;
    while i < days.len()
        invariant
            0 <= i <= days@.len(),
            names_weekdays(r@, days@.subrange(0, i as int)),
        decreases days@.len() - i,
    {
        r.push(days[i].name());
        i = i + 1;
    }
    assert(days@.subrange(0, days@.len() as int) =~= days@);
    r
}

fn parse_all(texts: &Vec<String>) -> (r: Result<Vec<Date>, CalendarError>)
    ensures
        match r {
            Ok(v) => parses_to(texts@, day_numbers(v@)),
            Err(e) => e == CalendarError::ParseError && !all_parse(texts@),
        },
{
    let mut v: Vec<Date> = Vec::new();
    let mut i: usize = 0;
    while i < texts.len()
        invariant
            0 <= i <= texts@.len(),
            parses_to(texts@.subrange(0, i as int), day_numbers(v@)),
        decreases texts@.len() - i,
    {
        match Date::parse(texts[i].as_str()) {
            Ok(d) => v.push(d),
            Err(e) => {
                return Err(e);
            },
        }
        i = i + 1;
    }
    assert(texts@.subrange(0, texts@.len() as int) =~= texts@);
    Ok(v)
}

fn weekdays_from_names(names: &Vec<String>) -> (r: Result<Vec<Weekday>, CalendarError>)
    ensures
        match r {
            Ok(v) => names_weekdays(names@, v@),
            Err(e) => e == CalendarError::InvalidInput && exists|i: int|
                0 <= i < names@.len() && !is_weekday_name(#[trigger] names@[i]@),
        },
{
    let mut v: Vec<Weekday> = Vec::new();
    let mut i: usize = 0;
    while i < names.len()
        invariant
            0 <= i <= names@.len(),
            names_weekdays(names@.subrange(0, i as int), v@),
        decreases names@.len() - i,
    {
        match Weekday::from_name(&names[i]) {
            Some(w) => v.push(w),
            None => {
                assert(!is_weekday_name(names@[i as int]@));
                return Err(CalendarError::InvalidInput);
            },
        }
        i = i + 1;
    }
    assert(names@.subrange(0, names@.len() as int) =~= names@);
    Ok(v)
}

impl CalendarState {
    #[verifier::type_invariant]
    spec fn has_working_day(self) -> bool {
        self.working_days@.len() > 0
    }

    /// The working weekdays, in the order configured.
    pub closed spec fn spec_working_days(self) -> Seq<Weekday> {
        self.working_days@
    }

    /// The holidays, as day numbers, in the order configured.
    pub closed spec fn spec_holidays(self) -> Seq<int> {
        day_numbers(self.holidays@)
    }

    /// The extra working dates, as day numbers, in the order configured.
    pub closed spec fn spec_extra_working_dates(self) -> Seq<int> {
        day_numbers(self.extra_working_dates@)
    }

    /// The weekday with index `w` is a working weekday.
    pub open spec fn works_on(self, w: int) -> bool {
        exists|i: int|
            0 <= i < self.spec_working_days().len() && #[trigger] self.spec_working_days()[i].index()
                == w
    }

    /// Day `d` is a business day: an extra working date, or a working weekday that
    /// is no holiday.
    pub open spec fn is_business(self, d: int) -> bool {
        self.spec_extra_working_dates().contains(d) || (self.works_on(weekday_index(d))
            && !self.spec_holidays().contains(d))
    }

    /// Number of business days in `[lo, hi)`.
    pub open spec fn business_count(self, lo: int, hi: int) -> nat
        decreases hi - lo,
    {
        if hi <= lo {
            0
        } else {
            self.business_count(lo, hi - 1) + if self.is_business(hi - 1) {
                1nat
            } else {
                0nat
            }
        }
    }

    /// `e` is the first business day on or after `d`.
    pub open spec fn is_first_business_from(self, d: int, e: int) -> bool {
        &&& d <= e <= MAX_DAY
        &&& self.is_business(e)
        &&& forall|k: int| d <= k < e ==> !self.is_business(k)
    }

    /// The first business day on or after `d`, if chrono's range holds one.
    pub open spec fn spec_roll_forward(self, d: int) -> Option<int> {
        if exists|e: int| self.is_first_business_from(d, e) {
            Some(choose|e: int| self.is_first_business_from(d, e))
        } else {
            None
        }
    }

    /// `e` lies `n` business days from `d`. For `n >= 0`, `e` is a business day and
    /// `[d, e]` holds `n + 1` business days: counting starts at the first business
    /// day on or after `d`. For `n < 0`, `e` is a business day before `d` and
    /// `[e, d)` holds `-n` business days.
    pub open spec fn is_nth_business_from(self, d: int, n: int, e: int) -> bool {
        &&& MIN_DAY <= e <= MAX_DAY
        &&& self.is_business(e)
        &&& if n >= 0 {
            d <= e && self.business_count(d, e + 1) == n + 1
        } else {
            e < d && self.business_count(e, d) == -n
        }
    }

    /// The date `n` business days from `d`, if chrono's range holds it.
    pub open spec fn spec_add_business_days(self, d: int, n: int) -> Option<int> {
        if exists|e: int| self.is_nth_business_from(d, n, e) {
            Some(choose|e: int| self.is_nth_business_from(d, n, e))
        } else {
            None
        }
    }

    /// Builds a calendar; an empty list of working days stands for Monday to Friday.
    pub fn new(extra_working_dates: Vec<Date>, working_days: Vec<Weekday>, holidays: Vec<Date>) -> (r: Self)
        ensures
            r.spec_working_days() == (if working_days@.len() == 0 {
                default_week()
            } else {
                working_days@
            }),
            r.spec_holidays() == day_numbers(holidays@),
            r.spec_extra_working_dates() == day_numbers(extra_working_dates@),
            r.spec_working_days().len() > 0,
    {
        let working_days = if working_days.len() == 0 {
            default_week_vec()
        } else {
            working_days
        };
        CalendarState { working_days, holidays, extra_working_dates }
    }

    /// Builds a calendar from weekday abbreviations and `YYYY-MM-DD` texts. Refuses
    /// an unknown weekday first, then a date that does not read.
    pub fn from_config(
        working_days: &Vec<String>,
        holidays: &Vec<String>,
        extra_working_dates: &Vec<String>,
    ) -> (r: Result<Self, CalendarError>)
        ensures
            r == Err::<Self, CalendarError>(CalendarError::InvalidInput) <==> exists|i: int|
                0 <= i < working_days@.len() && !is_weekday_name(#[trigger] working_days@[i]@),
            r == Err::<Self, CalendarError>(CalendarError::ParseError) <==> (forall|i: int|
                0 <= i < working_days@.len() ==> is_weekday_name(#[trigger] working_days@[i]@))
                && !(all_parse(holidays@) && all_parse(extra_working_dates@)),
            r matches Ok(c) ==> {
                &&& working_days@.len() == 0 ==> c.spec_working_days() == default_week()
                &&& working_days@.len() > 0 ==> names_weekdays(
                    working_days@,
                    c.spec_working_days(),
                )
                &&& parses_to(holidays@, c.spec_holidays())
                &&& parses_to(extra_working_dates@, c.spec_extra_working_dates())
            },
    {
        let days = match weekdays_from_names(working_days) {
            Ok(v) => v,
            Err(e) => {
                return Err(e);
            },
        };
        proof {
            assert forall|i: int| 0 <= i < working_days@.len() implies is_weekday_name(
                #[trigger] working_days@[i]@,
            ) by {
                assert(days@[i].spec_name() == working_days@[i]@);
            }
        }
        let hs = match parse_all(holidays) {
            Ok(v) => v,
            Err(e) => {
                return Err(e);
            },
        };
        let xs = match parse_all(extra_working_dates) {
            Ok(v) => v,
            Err(e) => {
                return Err(e);
            },
        };
        Ok(CalendarState::new(xs, days, hs))
    }

    /// Whether `date` is a business day.
    pub fn is_business_day(&self, date: &Date) -> (r: bool)
        ensures
            r == self.is_business(date@),
    {
        if holds_date(&self.extra_working_dates, date) {
            return true;
        }
        let w = date.weekday();
        let works = holds_weekday(&self.working_days, w);
        proof {
            if works {
                let i = choose|i: int|
                    0 <= i < self.working_days@.len() && #[trigger] self.working_days@[i].index() == w;
                assert(self.spec_working_days()[i].index() == w);
            }
            if self.works_on(weekday_index(date@)) {
                let i = choose|i: int|
                    0 <= i < self.spec_working_days().len() && #[trigger] self.spec_working_days()[i].index()
                        == weekday_index(date@);
                assert(self.working_days@[i].index() == w);
            }
        }
        if !works {
            return false;
        }
        !holds_date(&self.holidays, date)
    }

    /// The first business day on or after `date`; `None` when none lies between
    /// `date` and the last date chrono represents.
    pub fn roll_forward(&self, date: &Date) -> (r: Option<Date>)
        ensures
            match r {
                Some(e) => self.is_first_business_from(date@, e@),
                None => forall|k: int| date@ <= k <= MAX_DAY ==> !self.is_business(k),
            },
            day_of(r) == self.spec_roll_forward(date@),
    {
        // The call brings the date's range into the proof.
        let _ = date.day_number();
        let mut cur = *date;
        loop
            invariant
                date@ <= cur@ <= MAX_DAY,
                forall|k: int| date@ <= k < cur@ ==> !self.is_business(k),
            decreases MAX_DAY - cur@,
        {
            if self.is_business_day(&cur) {
                proof {
                    lemma_roll_forward_is(*self, date@, cur@);
                }
                return Some(cur);
            }
            match cur.next() {
                Some(n) => cur = n,
                None => {
                    proof {
                        lemma_roll_forward_none(*self, date@);
                    }
                    return None;
                },
            }
        }
    }

    /// The date `delta` business days from `date`. Counting forward starts at the
    /// first business day on or after `date`, which is `delta == 0`; counting
    /// backward steps to earlier business days, `-delta` of them. `None` when the
    /// result would fall outside chrono's range.
    pub fn add_business_days(&self, date: &Date, delta: i32) -> (r: Option<Date>)
        ensures
            match r {
                Some(e) => self.is_nth_business_from(date@, delta as int, e@),
                None => if delta >= 0 {
                    self.business_count(date@, MAX_DAY + 1) <= delta
                } else {
                    self.business_count(MIN_DAY as int, date@) < -delta
                },
            },
            day_of(r) == self.spec_add_business_days(date@, delta as int),
    {
        // The call brings the date's range into the proof.
        let _ = date.day_number();
        if delta >= 0 {
            let mut cur = match self.roll_forward(date) {
                Some(s) => s,
                None => {
                    proof {
                        lemma_count_zero(*self, date@, MAX_DAY + 1);
                        lemma_add_none(*self, date@, delta as int);
                    }
                    return None;
                },
            };
            proof {
                lemma_count_zero(*self, date@, cur@);
            }
            let mut done: i32 = 0;
            while done < delta
                invariant
                    0 <= done <= delta,
                    MIN_DAY <= date@ <= cur@ <= MAX_DAY,
                    self.is_business(cur@),
                    self.business_count(date@, cur@ + 1) == done + 1,
                decreases delta - done,
            {
                loop
                    invariant_except_break
                        self.business_count(date@, cur@ + 1) == done + 1,
                    invariant
                        done < delta,
                        MIN_DAY <= date@ <= cur@ <= MAX_DAY,
                    ensures
                        MIN_DAY <= date@ <= cur@ <= MAX_DAY,
                        self.is_business(cur@),
                        self.business_count(date@, cur@ + 1) == done + 2,
                    decreases MAX_DAY - cur@,
                {
                    match cur.next() {
                        Some(n) => cur = n,
                        None => {
                            proof {
                                lemma_add_none(*self, date@, delta as int);
                            }
                            return None;
                        },
                    }
                    if self.is_business_day(&cur) {
                        break;
                    }
                }
                done = done + 1;
            }
            proof {
                lemma_add_is(*self, date@, delta as int, cur@);
            }
            Some(cur)
        } else {
            let target: i64 = -(delta as i64);
            let mut cur = *date;
            let mut done: i64 = 0;
            while done < target
                invariant
                    target == -delta,
                    0 <= done <= target,
                    MIN_DAY <= cur@ <= date@ <= MAX_DAY,
                    self.business_count(cur@, date@) == done,
                    done > 0 ==> self.is_business(cur@) && cur@ < date@,
                decreases target - done,
            {
                loop
                    invariant_except_break
                        self.business_count(cur@, date@) == done,
                    invariant
                        target == -delta,
                        done < target,
                        MIN_DAY <= cur@ <= date@ <= MAX_DAY,
                    ensures
                        MIN_DAY <= cur@ < date@ <= MAX_DAY,
                        self.is_business(cur@),
                        self.business_count(cur@, date@) == done + 1,
                    decreases cur@ - MIN_DAY,
                {
                    match cur.prev() {
                        Some(p) => cur = p,
                        None => {
                            proof {
                                lemma_add_none(*self, date@, delta as int);
                            }
                            return None;
                        },
                    }
                    proof {
                        lemma_count_front(*self, cur@, date@);
                    }
                    if self.is_business_day(&cur) {
                        break;
                    }
                }
                done = done + 1;
            }
            proof {
                lemma_add_is(*self, date@, delta as int, cur@);
            }
            Some(cur)
        }
    }

    /// Monday to Friday, the working week of a calendar configured without one.
    pub fn default_working_days() -> (r: Vec<String>)
        ensures
            names_weekdays(r@, default_week()),
    {
        names_of(&default_week_vec())
    }

    pub fn working_days(&self) -> (r: Vec<String>)
        ensures
            names_weekdays(r@, self.spec_working_days()),
    {
        names_of(&self.working_days)
    }

    pub fn holidays(&self) -> (r: Vec<Date>)
        ensures
            day_numbers(r@) == self.spec_holidays(),
    {
        self.holidays.clone()
    }

    pub fn extra_working_dates(&self) -> (r: Vec<Date>)
        ensures
            day_numbers(r@) == self.spec_extra_working_dates(),
    {
        self.extra_working_dates.clone()
    }
}

} // verus!
