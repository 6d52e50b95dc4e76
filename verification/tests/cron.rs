use vigyl::trigger::cron::{encode_cron, CronSchedule};
use vigyl::VigylError;

fn cron_error(expr: &str) -> String {
    match CronSchedule::parse(expr) {
        Err(VigylError::InvalidCron(m)) => m,
        other => panic!("expected a cron error, got {:?}", other),
    }
}

#[test]
fn hourly_expands() {
    let s = CronSchedule::parse("0 * * * *").unwrap();
    assert_eq!(s.minutes.len(), 1);
    assert_eq!(s.hours.len(), 24);
    assert!(s.matches(0, 5, 1, 1, 3));
    assert!(!s.matches(1, 5, 1, 1, 3));
}

#[test]
fn every_five_minutes() {
    let s = CronSchedule::parse("*/5 * * * *").unwrap();
    assert_eq!(s.minutes.len(), 12);
    assert!(s.matches(0, 0, 1, 1, 0));
    assert!(s.matches(55, 0, 1, 1, 0));
    assert!(!s.matches(3, 0, 1, 1, 0));
}

#[test]
fn weekday_alias_normalised() {
    let s = CronSchedule::parse("0 9 * * MON-FRI").unwrap();
    assert!(s.matches(0, 9, 1, 1, 1));
    assert!(s.matches(0, 9, 1, 1, 5));
    assert!(!s.matches(0, 9, 1, 1, 6));
}

#[test]
fn seven_normalises_to_sunday() {
    let s = CronSchedule::parse("0 * * * 7").unwrap();
    assert!(s.matches(0, 12, 1, 1, 0));
}

#[test]
fn oversized_expression_rejected() {
    let long = "0 0 1 1 * # some extremely long extra content over budget";
    assert!(CronSchedule::parse(long).is_err());
}

#[test]
fn encoded_length_is_128() {
    let buf = encode_cron("0 * * * *", 0).unwrap();
    assert_eq!(buf.len(), 128);
    assert_eq!(&buf[..9], b"0 * * * *");
}

#[test]
fn empty_expression_messages() {
    assert_eq!(cron_error(""), "empty expression");
    assert_eq!(cron_error(" \t\u{a0}\u{3000} "), "empty expression");
}

#[test]
fn long_expression_message() {
    let long = "0 0 1 1 * # some extremely long extra content over budget";
    assert_eq!(cron_error(long), "expression exceeds 40 characters (on-chain buffer)");
}

#[test]
fn length_limit_counts_utf8_bytes() {
    // 36 ASCII characters plus two 3-byte characters: 38 characters, 42 bytes.
    let expr = format!("0 0 1 1 {}\u{3042}\u{3042}", "0".repeat(28));
    assert_eq!(cron_error(&expr), "expression exceeds 40 characters (on-chain buffer)");
    let fits = format!("0 0 1 1 {}\u{3042}", "0".repeat(29));
    assert_eq!(cron_error(&fits), "invalid number \"00000000000000000000000000000\u{3042}\"");
}

#[test]
fn field_count_message() {
    assert_eq!(cron_error("* * *"), "expected 5 fields, got 3");
    assert_eq!(cron_error("* * * * * * * * * * * *"), "expected 5 fields, got 12");
}

#[test]
fn zero_step_message() {
    assert_eq!(cron_error("*/0 * * * *"), "step must be > 0 at field 1");
    assert_eq!(cron_error("0 0 1 1 1/0"), "step must be > 0 at field 5");
}

#[test]
fn out_of_range_messages() {
    assert_eq!(cron_error("0 24 * * *"), "value out of range at field 2");
    assert_eq!(cron_error("5-3 * * * *"), "value out of range at field 1");
    assert_eq!(cron_error("0 0 0 * *"), "value out of range at field 3");
    assert_eq!(cron_error("0 0 * 13 *"), "value out of range at field 4");
    assert_eq!(cron_error("0 0 * * 8"), "value out of range at field 5");
}

#[test]
fn bad_number_messages() {
    assert_eq!(cron_error("0 9 * * mon-xyz"), "invalid number \"XYZ\"");
    assert_eq!(cron_error("0 0 * * */x"), "invalid number \"x\"");
    assert_eq!(cron_error("1-2-3 * * * *"), "invalid number \"2-3\"");
    assert_eq!(cron_error("-5 * * * *"), "invalid number \"\"");
    assert_eq!(cron_error("300 * * * *"), "invalid number \"300\"");
    assert_eq!(cron_error("0 0 jan * *"), "invalid number \"JAN\"");
}

#[test]
fn first_fault_wins() {
    assert_eq!(cron_error("x 99 * * *"), "invalid number \"X\"");
    assert_eq!(cron_error("0 99 * * x"), "value out of range at field 2");
}

#[test]
fn names_are_case_insensitive() {
    let s = CronSchedule::parse("0 0 * jan-Mar sun,sat").unwrap();
    assert_eq!(s.months.iter().copied().collect::<Vec<u8>>(), vec![1, 2, 3]);
    assert_eq!(s.weekdays.iter().copied().collect::<Vec<u8>>(), vec![0, 6]);
}

#[test]
fn plus_signs_and_leading_zeros_accepted() {
    let s = CronSchedule::parse("+5,007 * * * *").unwrap();
    assert_eq!(s.minutes.iter().copied().collect::<Vec<u8>>(), vec![5, 7]);
}

#[test]
fn empty_list_item_means_whole_field() {
    let s = CronSchedule::parse("1,,2 * * * *").unwrap();
    assert_eq!(s.minutes.len(), 60);
}

#[test]
fn unicode_whitespace_is_trimmed() {
    let s = CronSchedule::parse("\u{a0}0\u{2003} * * * *\u{3000}").unwrap();
    assert_eq!(s.expression, "0\u{2003} * * * *");
    assert_eq!(s.minutes.iter().copied().collect::<Vec<u8>>(), vec![0]);
}

#[test]
fn vertical_tab_does_not_separate_fields() {
    assert_eq!(cron_error("0\u{b}* * * *"), "expected 5 fields, got 4");
}

#[test]
fn ranges_with_steps() {
    let s = CronSchedule::parse("10-30/7 */6 1-31/10 2-12/5 *").unwrap();
    assert_eq!(s.minutes.iter().copied().collect::<Vec<u8>>(), vec![10, 17, 24]);
    assert_eq!(s.hours.iter().copied().collect::<Vec<u8>>(), vec![0, 6, 12, 18]);
    assert_eq!(s.days.iter().copied().collect::<Vec<u8>>(), vec![1, 11, 21, 31]);
    assert_eq!(s.months.iter().copied().collect::<Vec<u8>>(), vec![2, 7, 12]);
    assert_eq!(s.weekdays.iter().copied().collect::<Vec<u8>>(), vec![0, 1, 2, 3, 4, 5, 6]);
}

#[test]
fn large_step_yields_start_only() {
    let s = CronSchedule::parse("*/255 * * * *").unwrap();
    assert_eq!(s.minutes.iter().copied().collect::<Vec<u8>>(), vec![0]);
}

#[test]
fn executions_per_day_counts_minutes_and_hours() {
    let s = CronSchedule::parse("*/15 9-17 * * *").unwrap();
    assert_eq!(s.executions_per_day(), 36);
    let all = CronSchedule::parse("* * * * *").unwrap();
    assert_eq!(all.executions_per_day(), 1440);
}

#[test]
fn matches_needs_every_field() {
    let s = CronSchedule::parse("30 12 15 6 3").unwrap();
    assert!(s.matches(30, 12, 15, 6, 3));
    assert!(!s.matches(30, 12, 15, 6, 4));
    assert!(!s.matches(30, 12, 15, 7, 3));
    assert!(!s.matches(30, 12, 16, 6, 3));
    assert!(!s.matches(30, 13, 15, 6, 3));
}

#[test]
fn encode_cron_layout() {
    let buf = encode_cron("  0 * * * *  ", -3600).unwrap();
    assert_eq!(&buf[..9], b"0 * * * *");
    assert!(buf[9..40].iter().all(|b| *b == 0));
    assert_eq!(&buf[40..48], &(-3600i64).to_le_bytes());
    assert!(buf[48..].iter().all(|b| *b == 0));
}

#[test]
fn encode_cron_rejects_invalid() {
    assert_eq!(
        encode_cron("* * *", 0),
        Err(VigylError::InvalidCron("expected 5 fields, got 3".to_string()))
    );
}
