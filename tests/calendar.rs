use business::date::{MAX_DAY, MIN_DAY};
use business::{CalendarError, CalendarState, Date, Weekday};

fn d(s: &str) -> Date {
    Date::parse(s).unwrap()
}

fn strings(v: &[&str]) -> Vec<String> {
    v.iter().map(|s| s.to_string()).collect()
}

fn default_calendar() -> CalendarState {
    CalendarState::from_config(&vec![], &vec![], &vec![]).unwrap()
}

#[test]
fn default_configuration() {
    let cal = default_calendar();
    assert_eq!(cal.working_days(), strings(&["mon", "tue", "wed", "thu", "fri"]));
    assert!(!cal.is_business_day(&d("2023-07-08")));
    assert!(cal.is_business_day(&d("2023-07-10")));
}

#[test]
fn default_working_days_constant() {
    assert_eq!(
        CalendarState::default_working_days(),
        strings(&["mon", "tue", "wed", "thu", "fri"])
    );
}

#[test]
fn new_with_empty_working_days_uses_default() {
    let cal = CalendarState::new(vec![], vec![], vec![]);
    assert_eq!(cal.working_days(), strings(&["mon", "tue", "wed", "thu", "fri"]));
    let cal = CalendarState::new(vec![], vec![Weekday::Sat, Weekday::Sun], vec![]);
    assert_eq!(cal.working_days(), strings(&["sat", "sun"]));
    assert!(cal.is_business_day(&d("2023-07-08")));
    assert!(!cal.is_business_day(&d("2023-07-10")));
}

#[test]
fn holiday_override() {
    let cal = CalendarState::from_config(&vec![], &strings(&["2023-12-25"]), &vec![]).unwrap();
    assert!(!cal.is_business_day(&d("2023-12-25")));
    assert!(cal.is_business_day(&d("2023-12-26")));
}

#[test]
fn extra_working_date_override() {
    let cal = CalendarState::from_config(
        &vec![],
        &strings(&["2023-12-25"]),
        &strings(&["2023-12-25"]),
    )
    .unwrap();
    assert!(cal.is_business_day(&d("2023-12-25")));
}

#[test]
fn extra_working_date_on_weekend() {
    let cal = CalendarState::from_config(&vec![], &vec![], &strings(&["2023-07-08"])).unwrap();
    assert!(cal.is_business_day(&d("2023-07-08")));
    assert!(!cal.is_business_day(&d("2023-07-09")));
}

#[test]
fn roll_forward_across_weekend() {
    let cal = default_calendar();
    assert_eq!(cal.roll_forward(&d("2023-07-08")), Some(d("2023-07-10")));
}

#[test]
fn roll_forward_keeps_business_day() {
    let cal = default_calendar();
    assert_eq!(cal.roll_forward(&d("2023-07-12")), Some(d("2023-07-12")));
}

#[test]
fn roll_forward_twice() {
    let cal = CalendarState::from_config(&vec![], &strings(&["2023-07-10"]), &vec![]).unwrap();
    let once = cal.roll_forward(&d("2023-07-08")).unwrap();
    assert_eq!(once, d("2023-07-11"));
    assert_eq!(cal.roll_forward(&once), Some(once));
}

#[test]
fn add_business_days_across_weekend() {
    let cal = default_calendar();
    assert_eq!(cal.add_business_days(&d("2023-07-07"), 1), Some(d("2023-07-10")));
    assert_eq!(cal.add_business_days(&d("2023-07-09"), 1), Some(d("2023-07-11")));
}

#[test]
fn add_zero_business_days_rolls_forward() {
    let cal = default_calendar();
    for s in ["2023-07-07", "2023-07-08", "2023-07-09", "2023-07-10"] {
        assert_eq!(cal.add_business_days(&d(s), 0), cal.roll_forward(&d(s)));
    }
}

#[test]
fn add_business_days_counts_after_start() {
    let cal = CalendarState::from_config(&vec![], &strings(&["2023-07-12"]), &vec![]).unwrap();
    let start = d("2023-07-08");
    let rolled = cal.roll_forward(&start).unwrap();
    let end = cal.add_business_days(&start, 5).unwrap();
    assert_eq!(end, d("2023-07-18"));
    assert!(cal.is_business_day(&end));
    let mut count = 0;
    let mut cur = rolled.next().unwrap();
    while cur.day_number() <= end.day_number() {
        if cal.is_business_day(&cur) {
            count += 1;
        }
        cur = cur.next().unwrap();
    }
    assert_eq!(count, 5);
}

#[test]
fn add_negative_business_days() {
    let cal = default_calendar();
    assert_eq!(cal.add_business_days(&d("2023-07-10"), -1), Some(d("2023-07-07")));
    assert_eq!(cal.add_business_days(&d("2023-07-09"), -1), Some(d("2023-07-07")));
    assert_eq!(cal.add_business_days(&d("2023-07-12"), -3), Some(d("2023-07-07")));
}

#[test]
fn add_business_days_past_range_end() {
    let cal = default_calendar();
    let last = Date::from_day_number(MAX_DAY).unwrap();
    assert!(last.next().is_none());
    let before = Date::from_day_number(MAX_DAY - 1).unwrap();
    assert_eq!(cal.add_business_days(&before, 0), Some(last));
    assert_eq!(cal.add_business_days(&before, 1), None);
    let first = Date::from_day_number(MIN_DAY).unwrap();
    assert!(first.prev().is_none());
    assert_eq!(cal.add_business_days(&first, -1), None);
    assert_eq!(cal.add_business_days(&first, i32::MIN), None);
}

#[test]
fn roll_forward_past_range_end() {
    let cal = CalendarState::from_config(&strings(&["sat"]), &vec![], &vec![]).unwrap();
    let last = Date::from_day_number(MAX_DAY).unwrap();
    assert_eq!(last.weekday(), 0);
    assert_eq!(cal.roll_forward(&last), None);
}

#[test]
fn unknown_weekday_is_invalid_input() {
    let r = CalendarState::from_config(&strings(&["mon", "funday"]), &vec![], &vec![]);
    assert_eq!(r.err(), Some(CalendarError::InvalidInput));
    let r = CalendarState::from_config(&strings(&["Mon"]), &strings(&["bad"]), &vec![]);
    assert_eq!(r.err(), Some(CalendarError::InvalidInput));
}

#[test]
fn malformed_date_is_parse_error() {
    let r = CalendarState::from_config(&vec![], &strings(&["2023-13-01"]), &vec![]);
    assert_eq!(r.err(), Some(CalendarError::ParseError));
    let r = CalendarState::from_config(&vec![], &vec![], &strings(&["2023-02-30"]));
    assert_eq!(r.err(), Some(CalendarError::ParseError));
    assert_eq!(Date::parse("July 8"), Err(CalendarError::ParseError));
}

#[test]
fn configuration_is_kept() {
    let cal = CalendarState::from_config(
        &strings(&["fri", "mon"]),
        &strings(&["2023-12-25", "2024-01-01"]),
        &strings(&["2023-12-30"]),
    )
    .unwrap();
    assert_eq!(cal.working_days(), strings(&["fri", "mon"]));
    let hs: Vec<String> = cal.holidays().iter().map(|x| x.to_iso_string()).collect();
    assert_eq!(hs, strings(&["2023-12-25", "2024-01-01"]));
    let xs: Vec<String> =
        cal.extra_working_dates().iter().map(|x| x.to_iso_string()).collect();
    assert_eq!(xs, strings(&["2023-12-30"]));
}

#[test]
fn date_text_and_weekday() {
    let sat = d("2023-07-08");
    assert_eq!(sat.day_number(), 738709);
    assert_eq!(sat.weekday(), 5);
    assert_eq!(sat.to_iso_string(), "2023-07-08");
    assert_eq!(Date::from_day_number(1).unwrap().to_iso_string(), "0001-01-01");
    assert_eq!(Date::from_day_number(1).unwrap().weekday(), 0);
    assert!(Date::from_day_number(MAX_DAY + 1).is_none());
}

#[test]
fn weekday_names() {
    assert_eq!(Weekday::from_name(&"wed".to_string()), Some(Weekday::Wed));
    assert_eq!(Weekday::from_name(&"WED".to_string()), None);
    assert_eq!(Weekday::Sun.name(), "sun");
}
