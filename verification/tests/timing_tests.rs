use timebay::splits::Splits;
use timebay::timing::format_time;
use timebay::timing::u64_to_string;
use timebay::timing::TimeSpan;
use timebay::timing::TimeStamp;

#[test]
fn time_formatting() {
    let time = TimeSpan::from_secs(62);
    assert_eq!(Splits::format_time(&time), String::from("1:02.0"));

    let time = TimeSpan::from_millis(31_100);
    assert_eq!(Splits::format_time(&time), String::from("0:31.100"));
}

#[test]
fn diff_formatting() {
    assert_eq!(Splits::format_diff(&-1500), String::from("-1.5"));
    assert_eq!(Splits::format_diff(&250), String::from("+0.25"));
    assert_eq!(Splits::format_diff(&0), String::from("+0"));
    assert_eq!(Splits::format_diff(&2000), String::from("+2"));
    assert_eq!(Splits::format_diff(&-25), String::from("-0.025"));
    assert_eq!(Splits::format_diff(&1020), String::from("+1.02"));
}

#[test]
fn free_function_formats_like_the_lap_method() {
    // the free function and the lap method render identically
    let time = TimeSpan::from_secs(62);
    assert_eq!(format_time(&time), String::from("1:02.0"));

    let time = TimeSpan::from_millis(31_100);
    assert_eq!(format_time(&time), String::from("0:31.100"));
}

#[test]
fn decimal_rendering() {
    assert_eq!(u64_to_string(0), "0");
    assert_eq!(u64_to_string(7), "7");
    assert_eq!(u64_to_string(40961), "40961");
    assert_eq!(u64_to_string(u64::MAX), "18446744073709551615");
}

#[test]
fn durations_between_stamps() {
    let a = TimeStamp::new(10, 500_000_000);
    let b = TimeStamp::new(12, 250_000_000);
    assert_eq!(
        b.duration_since(&a),
        Some(TimeSpan {
            secs: 1,
            nanos: 750_000_000
        })
    );
    // a clock that ran backwards yields no span
    assert_eq!(a.duration_since(&b), None);
    // equal stamps yield the zero span
    assert_eq!(a.duration_since(&a), Some(TimeSpan::from_secs(0)));

    // an unnormalized nanosecond fraction still counts in full
    let c = TimeStamp::new(10, 1_500_000_000);
    assert_eq!(c.duration_since(&a), Some(TimeSpan::from_secs(1)));
}

#[test]
fn span_conversions() {
    let t = TimeSpan::from_millis(62_345);
    assert_eq!(t.as_secs(), 62);
    assert_eq!(t.subsec_millis(), 345);
    assert_eq!(t.as_millis(), 62_345);
    assert_eq!(TimeSpan::from_secs(3).as_millis(), 3000);
}
