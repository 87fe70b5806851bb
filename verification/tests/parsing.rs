use peer_review_by_ai::date::{date_string, Date};
use peer_review_by_ai::quarter::Quarter;
use peer_review_by_ai::record::{parse_file_name, review_from_file_name};

fn q(year: i32, quarter: u8) -> Quarter {
    Quarter {
        year,
        quarter,
        display: format!("{} Q{}", year, quarter),
    }
}

#[test]
fn quarter_membership_boundaries() {
    let q1 = q(2024, 1);
    let q2 = q(2024, 2);
    let q4 = q(2024, 4);
    // month 3 falls in quarter 1
    assert!(q1.contains_date(Date {
        year: 2024,
        month: 3,
        day: 31
    }));
    // month 4 falls in quarter 2
    assert!(!q1.contains_date(Date {
        year: 2024,
        month: 4,
        day: 1
    }));
    assert!(q2.contains_date(Date {
        year: 2024,
        month: 4,
        day: 1
    }));
    // month 12 falls in quarter 4
    assert!(q4.contains_date(Date {
        year: 2024,
        month: 12,
        day: 31
    }));
    assert!(!q4.contains_date(Date {
        year: 2024,
        month: 1,
        day: 1
    }));
    // a different year never matches
    assert!(!q1.contains_date(Date {
        year: 2023,
        month: 2,
        day: 1
    }));
}

#[test]
fn filename_parses_to_record() {
    let r = review_from_file_name("2024-03-15-cowork-Alex", "body text".to_string())
        .expect("well-formed name must parse");
    assert_eq!(
        r.date,
        Date {
            year: 2024,
            month: 3,
            day: 15
        }
    );
    assert_eq!(r.coworker, "Alex");
    assert_eq!(r.content, "body text");
}

#[test]
fn filename_with_wrong_marker_is_skipped() {
    assert!(review_from_file_name("2024-03-15-other-Alex", String::new()).is_none());
}

#[test]
fn filename_with_too_few_tokens_is_skipped() {
    assert!(review_from_file_name("2024-03-15-Alex", String::new()).is_none());
}

#[test]
fn filename_with_invalid_date_is_skipped() {
    assert!(parse_file_name("2024-02-30-cowork-Alex").is_none());
    assert!(parse_file_name("2024-13-01-cowork-Alex").is_none());
    assert!(parse_file_name("2024-00-10-cowork-Alex").is_none());
    assert!(parse_file_name("2024-01-00-cowork-Alex").is_none());
    assert!(parse_file_name("20x4-01-01-cowork-Alex").is_none());
}

#[test]
fn leap_day_parses_only_in_leap_years() {
    assert!(parse_file_name("2024-02-29-cowork-Alex").is_some());
    assert!(parse_file_name("2023-02-29-cowork-Alex").is_none());
    assert!(parse_file_name("2000-02-29-cowork-Alex").is_some());
    assert!(parse_file_name("1900-02-29-cowork-Alex").is_none());
}

#[test]
fn author_is_fifth_token_verbatim() {
    let (d, author) = parse_file_name("2024-03-15-cowork-Alex-extra").expect("must parse");
    assert_eq!(
        d,
        Date {
            year: 2024,
            month: 3,
            day: 15
        }
    );
    assert_eq!(author, "Alex");
    // the author field is not validated further, even when empty
    let (_, empty) = parse_file_name("2024-03-15-cowork-").expect("must parse");
    assert_eq!(empty, "");
}

#[test]
fn date_renders_zero_padded() {
    assert_eq!(
        date_string(Date {
            year: 2024,
            month: 3,
            day: 5
        }),
        "2024-03-05"
    );
    assert_eq!(
        date_string(Date {
            year: 7,
            month: 12,
            day: 31
        }),
        "0007-12-31"
    );
}

#[test]
fn quarters_compare_by_year_and_number_only() {
    let a = Quarter {
        year: 2024,
        quarter: 1,
        display: "2024 Q1".to_string(),
    };
    let b = Quarter {
        year: 2024,
        quarter: 1,
        display: "another label".to_string(),
    };
    let c = q(2024, 2);
    let d = q(2023, 1);
    assert!(a.same_period(&b));
    assert!(!a.same_period(&c));
    assert!(!a.same_period(&d));
}

#[test]
fn quarter_display_label_is_kept() {
    let quarter = q(2025, 2);
    assert_eq!(quarter.display_string(), "2025 Q2");
}
