use clicky::parse_duration;
use clicky::parse_sync_frequency;
use clicky::SyncDuration;

#[test]
fn test_duration_parsing() {
    let tests = vec![
        "", "1ms", "1s", "2m", "0m", "22222s", "21818m", "65535ms", "ms", "m", "s",
    ];
    let expected = vec![
        SyncDuration::from_millis(0),
        SyncDuration::from_millis(1),
        SyncDuration::from_secs(1),
        SyncDuration::from_secs(2 * 60),
        SyncDuration::from_secs(0 * 60),
        SyncDuration::from_secs(22222),
        SyncDuration::from_secs(21818 * 60),
        SyncDuration::from_millis(65535),
        SyncDuration::from_millis(0),
        SyncDuration::from_millis(0),
        SyncDuration::from_millis(0),
    ];

    for (i, (t, e)) in tests.iter().zip(expected).enumerate() {
        assert_eq!(parse_duration(t), Ok(e), "Test {} failed", i);
    }
}

#[test]
fn test_duration_parsing_errors() {
    let tests = vec![
        "fldaksjfs",
        "11111111111111111111111111111111111",
        "65536",
        "6 5 5 3 5",
        "644....,/,/??>.....,",
        "ssssssssssssssssssssssssssssssssssssssss",
        "mmmmmmmmmmm",
        "mmmmmmmmmssssssssssss",
        "65535mss",
        "65535sm",
    ];

    for (i, t) in tests.iter().enumerate() {
        assert!(parse_duration(t).is_err(), "Test {} failed", i);
    }
}

#[test]
fn test_duration_unit_values() {
    assert_eq!(parse_duration("250ms"), Ok(SyncDuration::from_millis(250)));
    assert_eq!(parse_duration("250"), Ok(SyncDuration::from_millis(250)));
    assert_eq!(parse_duration("3s"), Ok(SyncDuration::from_millis(3000)));
    assert_eq!(parse_duration("2m"), Ok(SyncDuration::from_millis(120000)));
    assert_eq!(parse_duration("65535m"), Ok(SyncDuration::from_millis(65535 * 60000)));
    assert_eq!(parse_duration("").map(|d| d.as_millis()), Ok(0));
}

#[test]
fn test_duration_error_kinds() {
    // One character over the 7-character limit, though otherwise well formed.
    assert!(parse_duration("65535mss").is_err());
    assert!(parse_duration("12345678").is_err());
    // A number over 65535 with a valid unit.
    assert!(parse_duration("65536ms").is_err());
    assert!(parse_duration("99999s").is_err());
    // An unknown unit.
    assert!(parse_duration("5h").is_err());
    assert!(parse_duration("5 s").is_err());
}

#[test]
fn test_sync_frequency_minimum() {
    // Below the 1-second minimum: raised to it.
    assert_eq!(parse_sync_frequency("1ms"), Ok(SyncDuration::from_millis(1000)));
    assert_eq!(parse_sync_frequency(""), Ok(SyncDuration::from_millis(1000)));
    assert_eq!(parse_sync_frequency("999ms"), Ok(SyncDuration::from_millis(1000)));
    // At or above it: kept as parsed.
    assert_eq!(parse_sync_frequency("1s"), Ok(SyncDuration::from_millis(1000)));
    assert_eq!(parse_sync_frequency("1500ms"), Ok(SyncDuration::from_millis(1500)));
    assert_eq!(parse_sync_frequency("2m"), Ok(SyncDuration::from_millis(120000)));
    // A malformed string is a configuration error, not a default.
    assert!(parse_sync_frequency("soon").is_err());
}
