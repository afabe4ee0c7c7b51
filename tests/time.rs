use cowrite::error::FetchError;
use cowrite::time::{parse_range, parse_u8, Time};

#[test]
fn test_time_order() {
    assert!(
        Time {
            hour: 10,
            minute: 10
        } < Time {
            hour: 11,
            minute: 0
        }
    );
}

#[test]
fn parsed_times_compare_by_hour_then_minute() {
    let a = Time::parse("10:10").unwrap();
    let b = Time::parse("11:00").unwrap();
    assert!(a < b);
    assert!(a.is_before(&b));
    assert!(!b.is_before(&a));
    assert!(!a.is_before(&a));
    assert!(Time::parse("10:05").unwrap().is_before(&a));
}

#[test]
fn render_of_parse_gives_the_text_back() {
    assert_eq!(Time::parse("9:05").unwrap().render(), "9:05");
    assert_eq!(Time::parse("10:30").unwrap().render(), "10:30");
    assert_eq!(Time::parse("0:00").unwrap().render(), "0:00");
}

#[test]
fn render_pads_the_minute_only() {
    assert_eq!(Time { hour: 9, minute: 5 }.render(), "9:05");
    assert_eq!(Time { hour: 23, minute: 59 }.render(), "23:59");
    assert_eq!(Time { hour: 255, minute: 100 }.render(), "255:100");
}

#[test]
fn parse_of_render_gives_the_time_back() {
    for hour in [0u8, 7, 10, 99, 100, 255] {
        for minute in [0u8, 5, 10, 59, 200] {
            let t = Time { hour, minute };
            assert_eq!(Time::parse(&t.render()), Ok(t));
        }
    }
}

#[test]
fn malformed_times_are_refused() {
    assert_eq!(Time::parse("10"), Err(FetchError::MalformedTime));
    assert_eq!(Time::parse("a:b"), Err(FetchError::MalformedTime));
    assert_eq!(Time::parse(""), Err(FetchError::MalformedTime));
    assert_eq!(Time::parse("1:2:3"), Err(FetchError::MalformedTime));
    assert_eq!(Time::parse("256:00"), Err(FetchError::MalformedTime));
    assert_eq!(Time::parse("-1:00"), Err(FetchError::MalformedTime));
    assert_eq!(Time::parse(":30"), Err(FetchError::MalformedTime));
}

#[test]
fn out_of_clock_values_are_accepted() {
    assert_eq!(Time::parse("99:75"), Ok(Time { hour: 99, minute: 75 }));
    assert_eq!(Time::parse("09:05"), Ok(Time { hour: 9, minute: 5 }));
    assert_eq!(Time::parse("+9:05"), Ok(Time { hour: 9, minute: 5 }));
    assert_eq!("12:34".parse::<Time>(), Ok(Time { hour: 12, minute: 34 }));
    assert_eq!("99:00".parse::<Time>(), Ok(Time { hour: 99, minute: 0 }));
    assert_eq!("12:30:45".parse::<Time>(), Err(FetchError::MalformedTime));
    assert_eq!("12:".parse::<Time>(), Err(FetchError::MalformedTime));
    assert_eq!("256:00".parse::<Time>(), Err(FetchError::MalformedTime));
    assert_eq!("-1:00".parse::<Time>(), Err(FetchError::MalformedTime));
    assert!("10:10".parse::<Time>().unwrap() < "11:00".parse::<Time>().unwrap());
}

#[test]
fn ranges_are_two_times_around_a_dash() {
    assert_eq!(
        parse_range("09:00 - 10:00"),
        Ok((Time { hour: 9, minute: 0 }, Time { hour: 10, minute: 0 }))
    );
    assert_eq!(parse_range("09:00-10:00"), Err(FetchError::MalformedTime));
    assert_eq!(parse_range("09:00 - 10:00 - 11:00"), Err(FetchError::MalformedTime));
    assert_eq!(parse_range("09:00 - ten"), Err(FetchError::MalformedTime));
}

#[test]
fn bytes_read_like_std() {
    for text in ["", "+", "0", "007", "+42", "255", "256", "1000", "1a", "-1", " 1", "++1", "99999999999"] {
        assert_eq!(parse_u8(text), text.parse::<u8>().ok(), "{}", text);
    }
}
