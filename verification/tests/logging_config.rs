use graftfs::logging::{LevelError, LoggingFormat, LoggingLevel, RotationError, RotationType};
use tracing::level_filters::LevelFilter;
use tracing_appender::rolling::Rotation;

#[test]
fn logging_level_from_str_off() {
    let logging_level = LoggingLevel::from_str("off").unwrap();
    assert_eq!(logging_level, LoggingLevel::Off);
}

#[test]
fn logging_level_from_str_trace() {
    let logging_level = LoggingLevel::from_str("trace").unwrap();
    assert_eq!(logging_level, LoggingLevel::Trace);
}

#[test]
fn logging_level_from_str_debug() {
    let logging_level = LoggingLevel::from_str("debug").unwrap();
    assert_eq!(logging_level, LoggingLevel::Debug);
}

#[test]
fn logging_level_from_str_info() {
    let logging_level = LoggingLevel::from_str("info").unwrap();
    assert_eq!(logging_level, LoggingLevel::Info);
}

#[test]
fn logging_level_from_str_warn() {
    let logging_level = LoggingLevel::from_str("warn").unwrap();
    assert_eq!(logging_level, LoggingLevel::Warn);
}

#[test]
fn logging_level_from_str_error() {
    let logging_level = LoggingLevel::from_str("error").unwrap();
    assert_eq!(logging_level, LoggingLevel::Error);
}

#[test]
fn logging_level_from_str_invalid() {
    let result = LoggingLevel::from_str("invalid");
    match result {
        Err(LevelError::InvalidLevelString(s)) => assert_eq!(s, "invalid"),
        _ => panic!("Unexpected error type"),
    }
}

#[test]
fn logging_level_from_i64_off() {
    let logging_level = LoggingLevel::try_from(0).unwrap();
    assert_eq!(logging_level, LoggingLevel::Off);
}

#[test]
fn logging_level_from_i64_trace() {
    let logging_level = LoggingLevel::try_from(1).unwrap();
    assert_eq!(logging_level, LoggingLevel::Trace);
}

#[test]
fn logging_level_from_i64_debug() {
    let logging_level = LoggingLevel::try_from(2).unwrap();
    assert_eq!(logging_level, LoggingLevel::Debug);
}

#[test]
fn logging_level_from_i64_info() {
    let logging_level = LoggingLevel::try_from(3).unwrap();
    assert_eq!(logging_level, LoggingLevel::Info);
}

#[test]
fn logging_level_from_i64_warn() {
    let logging_level = LoggingLevel::try_from(4).unwrap();
    assert_eq!(logging_level, LoggingLevel::Warn);
}

#[test]
fn logging_level_from_i64_error() {
    let logging_level = LoggingLevel::try_from(5).unwrap();
    assert_eq!(logging_level, LoggingLevel::Error);
}

#[test]
fn logging_level_from_i64_invalid() {
    let result = LoggingLevel::try_from(-1);
    match result {
        Err(LevelError::InvalidLevel(i)) => assert_eq!(i, -1),
        _ => panic!("Unexpected error type"),
    }
}

#[test]
fn rotation_type_from_str_hourly() {
    let rotation_type = RotationType::from_str("hourly").unwrap();
    assert_eq!(rotation_type, RotationType::Hourly);
}

#[test]
fn rotation_type_from_str_daily() {
    let rotation_type = RotationType::from_str("daily").unwrap();
    assert_eq!(rotation_type, RotationType::Daily);
}

#[test]
fn rotation_type_from_str_invalid() {
    let result = RotationType::from_str("invalid");
    match result {
        Err(RotationError::InvalidRotationTypeString(s)) => assert_eq!(s, "invalid"),
        _ => panic!("Unexpected error type"),
    }
}

#[test]
fn rotation_type_from_i64_hourly() {
    let rotation_type = RotationType::try_from(1).unwrap();
    assert_eq!(rotation_type, RotationType::Hourly);
}

#[test]
fn rotation_type_from_i64_daily() {
    let rotation_type = RotationType::try_from(2).unwrap();
    assert_eq!(rotation_type, RotationType::Daily);
}

#[test]
fn invalid_rotation_type_from_i64() {
    let result = RotationType::try_from(-1);
    match result {
        Err(RotationError::InvalidRotationType(i)) => assert_eq!(i, -1),
        _ => panic!("Unexpected error type"),
    }
}

#[test]
fn logging_level_off_to_level_filter() {
    let level_filter: LevelFilter = LoggingLevel::Off.to_level_filter();
    assert_eq!(level_filter, LevelFilter::OFF);
}

#[test]
fn logging_level_trace_to_level_filter() {
    let level_filter: LevelFilter = LoggingLevel::Trace.to_level_filter();
    assert_eq!(level_filter, LevelFilter::TRACE);
}

#[test]
fn logging_level_debug_to_level_filter() {
    let level_filter: LevelFilter = LoggingLevel::Debug.to_level_filter();
    assert_eq!(level_filter, LevelFilter::DEBUG);
}

#[test]
fn logging_level_info_to_level_filter() {
    let level_filter: LevelFilter = LoggingLevel::Info.to_level_filter();
    assert_eq!(level_filter, LevelFilter::INFO);
}

#[test]
fn logging_level_warn_to_level_filter() {
    let level_filter: LevelFilter = LoggingLevel::Warn.to_level_filter();
    assert_eq!(level_filter, LevelFilter::WARN);
}

#[test]
fn logging_level_error_to_level_filter() {
    let level_filter: LevelFilter = LoggingLevel::Error.to_level_filter();
    assert_eq!(level_filter, LevelFilter::ERROR);
}

#[test]
fn logging_format_compact_from_str_compact() {
    let logging_format = LoggingFormat::from_str("compact").unwrap();
    assert_eq!(logging_format, LoggingFormat::Compact);
}

#[test]
fn logging_format_pretty_from_str_pretty() {
    let logging_format = LoggingFormat::from_str("pretty").unwrap();
    assert_eq!(logging_format, LoggingFormat::Pretty);
}

#[test]
fn logging_format_json_from_str_json() {
    let logging_format = LoggingFormat::from_str("json").unwrap();
    assert_eq!(logging_format, LoggingFormat::Json);
}

#[test]
fn logging_format_compact_from_i64_compact() {
    let logging_format = LoggingFormat::try_from(1).unwrap();
    assert_eq!(logging_format, LoggingFormat::Compact);
}

#[test]
fn logging_format_pretty_from_i64_pretty() {
    let logging_format = LoggingFormat::try_from(2).unwrap();
    assert_eq!(logging_format, LoggingFormat::Pretty);
}

#[test]
fn logging_format_json_from_i64_json() {
    let logging_format = LoggingFormat::try_from(3).unwrap();
    assert_eq!(logging_format, LoggingFormat::Json);
}

#[test]
fn rotation_type_hourly_to_rotation() {
    let rotation: Rotation = RotationType::Hourly.to_rotation();
    assert_eq!(rotation, Rotation::HOURLY);
}

#[test]
fn rotation_type_daily_to_rotation() {
    let rotation: Rotation = RotationType::Daily.to_rotation();
    assert_eq!(rotation, Rotation::DAILY);
}
