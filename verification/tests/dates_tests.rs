use casa::dates::{
    format_day_month_year, leap_year, listing_cutoff, listing_cutoff_for, month_length,
    parse_form_date, previous_day, CalendarDate, UtcDateTime, MIN_YEAR,
};
use casa::models::Reminder;
use chrono::Datelike;

fn date(year: i32, month: u32, day: u32) -> CalendarDate {
    CalendarDate { year, month, day }
}

#[test]
fn leap_years() {
    assert!(leap_year(2024));
    assert!(!leap_year(2023));
    assert!(!leap_year(1900));
    assert!(leap_year(2000));
    assert!(leap_year(0));
    assert!(leap_year(-4));
    assert!(!leap_year(-100));
    assert!(leap_year(-400));
}

#[test]
fn month_lengths() {
    assert_eq!(month_length(2024, 2), 29);
    assert_eq!(month_length(2023, 2), 28);
    assert_eq!(month_length(2023, 4), 30);
    assert_eq!(month_length(2023, 12), 31);
}

#[test]
fn previous_day_within_month() {
    assert_eq!(previous_day(date(2024, 5, 17)), Some(date(2024, 5, 16)));
}

#[test]
fn previous_day_across_month_and_leap_day() {
    assert_eq!(previous_day(date(2024, 3, 1)), Some(date(2024, 2, 29)));
    assert_eq!(previous_day(date(2023, 3, 1)), Some(date(2023, 2, 28)));
    assert_eq!(previous_day(date(2023, 5, 1)), Some(date(2023, 4, 30)));
}

#[test]
fn previous_day_across_year() {
    assert_eq!(previous_day(date(2023, 1, 1)), Some(date(2022, 12, 31)));
}

#[test]
fn previous_day_of_first_supported_day() {
    assert_eq!(previous_day(date(MIN_YEAR, 1, 1)), None);
}

#[test]
fn previous_day_agrees_with_chrono() {
    let mut d = chrono::NaiveDate::from_ymd_opt(1999, 1, 3).unwrap();
    for _ in 0..800 {
        let ours = previous_day(date(d.year(), d.month(), d.day())).unwrap();
        let theirs = d.pred_opt().unwrap();
        assert_eq!(ours, date(theirs.year(), theirs.month(), theirs.day()));
        d = d.succ_opt().unwrap().succ_opt().unwrap();
    }
}

#[test]
fn parse_form_date_accepts_iso_dates() {
    assert_eq!(parse_form_date("2024-02-29"), Some(date(2024, 2, 29)));
    assert_eq!(parse_form_date("1999-12-31"), Some(date(1999, 12, 31)));
}

#[test]
fn parse_form_date_rejects_bad_input() {
    assert_eq!(parse_form_date("2023-02-29"), None);
    assert_eq!(parse_form_date("hello"), None);
    assert_eq!(parse_form_date("2024-13-01"), None);
    assert_eq!(parse_form_date(""), None);
}

#[test]
fn formatted_dates() {
    assert_eq!(format_day_month_year(date(2024, 3, 5)), "05-03-2024");
    assert_eq!(format_day_month_year(date(1999, 12, 31)), "31-12-1999");
    assert_eq!(format_day_month_year(date(5, 1, 9)), "09-01-0005");
    assert_eq!(format_day_month_year(date(-3, 7, 20)), "20-07--0003");
    assert_eq!(format_day_month_year(date(12345, 6, 1)), "01-06-+12345");
}

#[test]
fn formatted_dates_agree_with_chrono() {
    for (y, m, d) in [(2024, 3, 5), (5, 1, 9), (-3, 7, 20), (12345, 6, 1), (-262143, 1, 1), (0, 2, 29)] {
        let ours = format_day_month_year(date(y, m, d));
        let theirs = chrono::NaiveDate::from_ymd_opt(y, m, d).unwrap().format("%d-%m-%Y").to_string();
        assert_eq!(ours, theirs);
    }
}

#[test]
fn reminder_due_date_text() {
    let r = Reminder {
        id: 1,
        title: "ITV".to_string(),
        body: "pasar la ITV".to_string(),
        due_at: UtcDateTime { date: date(2025, 11, 4), hour: 0, minute: 0, second: 0, nanosecond: 0 },
        done: false,
    };
    assert_eq!(r.get_formatted_due_date(), "04-11-2025");
}

#[test]
fn cutoff_is_midnight_of_the_day_before() {
    let c = listing_cutoff_for(date(2024, 3, 1)).unwrap();
    assert_eq!(c, UtcDateTime { date: date(2024, 2, 29), hour: 0, minute: 0, second: 0, nanosecond: 0 });
    assert_eq!(listing_cutoff_for(date(MIN_YEAR, 1, 1)), None);
}

#[test]
fn cutoff_now_is_yesterday_midnight() {
    let c = listing_cutoff().unwrap();
    let yesterday = chrono::Utc::now().date_naive().pred_opt().unwrap();
    let got = chrono::NaiveDate::from_ymd_opt(c.date.year, c.date.month, c.date.day).unwrap();
    // The clock may cross midnight between the two readings.
    assert!(got == yesterday || got.succ_opt() == Some(yesterday));
    assert_eq!((c.hour, c.minute, c.second, c.nanosecond), (0, 0, 0, 0));
}
