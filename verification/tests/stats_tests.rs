use vanity_miner::stats::{
    extrapolate, format_bytes, format_duration, rate_per_minute, status_line, RunCounters,
};

#[test]
fn duration_shows_seconds_alone() {
    assert_eq!(format_duration(0), "00s");
    assert_eq!(format_duration(59), "59s");
}

#[test]
fn duration_suppresses_zero_leading_units() {
    assert_eq!(format_duration(61), "01m 01s");
    assert_eq!(format_duration(3600), "01h 00s");
    assert_eq!(format_duration(86400), "1d 00s");
    assert_eq!(format_duration(90061), "1d 01h 01m 01s");
}

#[test]
fn duration_counts_days_beyond_a_month() {
    assert_eq!(format_duration(86400 * 40 + 3661), "40d 01h 01m 01s");
}

#[test]
fn bytes_below_one_kibibyte_are_plain() {
    assert_eq!(format_bytes(0), "0b");
    assert_eq!(format_bytes(500), "500b");
    assert_eq!(format_bytes(1023), "1023b");
}

#[test]
fn bytes_scale_with_two_fractional_digits() {
    assert_eq!(format_bytes(1024), "1.00kb");
    assert_eq!(format_bytes(1536), "1.50kb");
    assert_eq!(format_bytes(2560), "2.50kb");
    assert_eq!(format_bytes(1048576), "1.00mb");
    assert_eq!(format_bytes(1073741824), "1.00gb");
    assert_eq!(format_bytes(1099511627776), "1.00tb");
}

#[test]
fn rate_of_120_over_60_seconds_is_120_per_minute() {
    assert_eq!(rate_per_minute(120, 60), 120);
    let r = extrapolate(120, 60);
    assert_eq!(r.per_minute, 120);
    assert_eq!(r.per_hour, 7200);
    assert_eq!(r.per_day, 172800);
    assert_eq!(r.per_month, 5184000);
}

#[test]
fn rate_before_the_first_second_is_zero() {
    assert_eq!(rate_per_minute(120, 0), 0);
    let r = extrapolate(120, 0);
    assert_eq!(r.per_minute, 0);
    assert_eq!(r.per_hour, 0);
    assert_eq!(r.per_day, 0);
    assert_eq!(r.per_month, 0);
}

#[test]
fn status_line_renders_all_fields() {
    let line = status_line(1234567, 2, 60);
    assert_eq!(
        line,
        "| uptime 01m 00s | generated 1,234,567 | found 2 | avg/min 1,234,567 | found/min 2 | size/min 214b | ",
    );
}

#[test]
fn status_line_before_the_first_second_has_zero_rates() {
    let line = status_line(500, 1, 0);
    assert_eq!(
        line,
        "| uptime 00s | generated 500 | found 1 | avg/min 0 | found/min 0 | size/min 0b | ",
    );
}

#[test]
fn counters_start_at_zero_and_count_each_event() {
    let mut c = RunCounters::new();
    assert_eq!(c.generated, 0);
    assert_eq!(c.found, 0);
    c.note_generated();
    c.note_generated();
    c.note_found();
    assert_eq!(c.generated, 2);
    assert_eq!(c.found, 1);
}
