use iceman::loglevel::{log_level_from_env, LogLevel};
use iceman::metrics::{encode_metric_line, format_centi, format_u64};

#[test]
fn metric_line_matches_wire_format() {
    let attrs = vec![
        (b"location".to_vec(), b"kitchen".to_vec()),
        (b"fan".to_vec(), b"fan1".to_vec()),
    ];
    let line = encode_metric_line(b"fan_controller_rpm", &attrs, b"3000");
    assert_eq!(line, b"fan_controller_rpm,location=kitchen,fan=fan1 metric=3000".to_vec());
}

#[test]
fn metric_line_single_attribute() {
    let attrs = vec![(b"probe".to_vec(), b"cpu".to_vec())];
    let line = encode_metric_line(b"fan_controller_cpu_temp", &attrs, b"108.99");
    assert_eq!(line, b"fan_controller_cpu_temp,probe=cpu metric=108.99".to_vec());
}

#[test]
fn metric_line_without_attributes() {
    let attrs = vec![];
    let line = encode_metric_line(b"name", &attrs, b"1");
    assert_eq!(line, b"name, metric=1".to_vec());
}

#[test]
fn whole_numbers_format_as_decimal() {
    assert_eq!(format_u64(0), b"0".to_vec());
    assert_eq!(format_u64(7), b"7".to_vec());
    assert_eq!(format_u64(3000), b"3000".to_vec());
    assert_eq!(format_u64(1234567890), b"1234567890".to_vec());
}

#[test]
fn hundredths_format_with_two_decimals() {
    assert_eq!(format_centi(7441), b"74.41".to_vec());
    assert_eq!(format_centi(3200), b"32.00".to_vec());
    assert_eq!(format_centi(5), b"0.05".to_vec());
    assert_eq!(format_centi(-230), b"-2.30".to_vec());
    assert_eq!(format_centi(-4000), b"-40.00".to_vec());
}

#[test]
fn log_level_names_map_to_levels() {
    assert_eq!(log_level_from_env(&"DEBUG".to_string()), LogLevel::Debug);
    assert_eq!(log_level_from_env(&"TRACE".to_string()), LogLevel::Trace);
    assert_eq!(log_level_from_env(&"INFO".to_string()), LogLevel::Info);
    assert_eq!(log_level_from_env(&"debug".to_string()), LogLevel::Info);
    assert_eq!(log_level_from_env(&"".to_string()), LogLevel::Info);
}
