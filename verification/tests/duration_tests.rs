use runboard::duration::{parse_duration, ParsedDuration};
use runboard::error::Error;

#[test]
fn parse_full_time() {
    assert_eq!(
        parse_duration("PT1H2M3.004S"),
        Ok(ParsedDuration::Time { hours: 1, minutes: 2, seconds: 3, milliseconds: 4 })
    );
}

#[test]
fn parse_calendar_only_is_unavailable() {
    assert_eq!(parse_duration("P1Y"), Ok(ParsedDuration::Unavailable));
}

#[test]
fn parse_weeks_is_unavailable() {
    assert_eq!(parse_duration("P4W"), Ok(ParsedDuration::Unavailable));
}

#[test]
fn parse_seconds_only() {
    assert_eq!(
        parse_duration("PT90S"),
        Ok(ParsedDuration::Time { hours: 0, minutes: 0, seconds: 90, milliseconds: 0 })
    );
}

#[test]
fn parse_fraction_scales_to_milliseconds() {
    assert_eq!(
        parse_duration("PT1.5S"),
        Ok(ParsedDuration::Time { hours: 0, minutes: 0, seconds: 1, milliseconds: 500 })
    );
    assert_eq!(
        parse_duration("PT1.05S"),
        Ok(ParsedDuration::Time { hours: 0, minutes: 0, seconds: 1, milliseconds: 50 })
    );
}

#[test]
fn parse_date_and_time_keeps_time() {
    assert_eq!(
        parse_duration("P1DT2H"),
        Ok(ParsedDuration::Time { hours: 2, minutes: 0, seconds: 0, milliseconds: 0 })
    );
}

#[test]
fn parse_hours_minutes() {
    assert_eq!(
        parse_duration("PT25H61M"),
        Ok(ParsedDuration::Time { hours: 25, minutes: 61, seconds: 0, milliseconds: 0 })
    );
}

#[test]
fn parse_malformed_fails() {
    assert_eq!(parse_duration(""), Err(Error::DurationParseFailure));
    assert_eq!(parse_duration("garbage"), Err(Error::DurationParseFailure));
    assert_eq!(parse_duration("P"), Err(Error::DurationParseFailure));
    assert_eq!(parse_duration("PT"), Err(Error::DurationParseFailure));
    assert_eq!(parse_duration("PT5"), Err(Error::DurationParseFailure));
    assert_eq!(parse_duration("1H"), Err(Error::DurationParseFailure));
    assert_eq!(parse_duration("PT3.S"), Err(Error::DurationParseFailure));
    assert_eq!(parse_duration("PT2M1H"), Err(Error::DurationParseFailure));
}

#[test]
fn parse_overlong_number_fails() {
    assert_eq!(parse_duration("PT1234567890S"), Err(Error::DurationParseFailure));
    assert_eq!(parse_duration("PT1.2345S"), Err(Error::DurationParseFailure));
}
