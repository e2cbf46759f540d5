use iceman::sensors::{
    fahrenheit_centi_from_milli_c, parse_i32_bytes, read_cpu_temp, read_probe_temp, trim_ascii,
    SensorError, Temperature,
};

#[test]
fn probe_file_second_line_temperature() {
    let content = b"72 01 4b 46 7f ff 0c 10 57 : crc=57 YES\n72 01 4b 46 7f ff 0c 10 57 t=23562";
    let r = read_probe_temp(content);
    // 23.562 degrees Celsius is 74.41 degrees Fahrenheit.
    assert_eq!(r, Ok(Temperature { centi_f: 7441 }));
}

#[test]
fn probe_file_with_trailing_newline() {
    let content = b"2c : crc=2c YES\n2c t=19937\n";
    assert_eq!(read_probe_temp(content), Ok(Temperature { centi_f: 6788 }));
}

#[test]
fn probe_file_crlf_line_endings() {
    let content = b"aa : crc=aa YES\r\naa t=1000\r\n";
    // 1 degree Celsius is 33.80 degrees Fahrenheit.
    assert_eq!(read_probe_temp(content), Ok(Temperature { centi_f: 3380 }));
}

#[test]
fn probe_file_negative_temperature() {
    let content = b"x : crc=x YES\nx t=-5000";
    // -5 degrees Celsius is 23 degrees Fahrenheit.
    assert_eq!(read_probe_temp(content), Ok(Temperature { centi_f: 2300 }));
}

#[test]
fn probe_file_uses_last_t_token() {
    let content = b"head\nt=1 middle t=2000";
    assert_eq!(read_probe_temp(content), Ok(Temperature { centi_f: 3560 }));
}

#[test]
fn probe_file_without_second_line_is_malformed() {
    assert_eq!(read_probe_temp(b"only one line"), Err(SensorError::MalformedData));
    assert_eq!(read_probe_temp(b"ends at newline\n"), Err(SensorError::MalformedData));
    assert_eq!(read_probe_temp(b""), Err(SensorError::MalformedData));
}

#[test]
fn probe_file_without_temperature_token_is_malformed() {
    assert_eq!(read_probe_temp(b"crc line\nno token here"), Err(SensorError::MalformedData));
}

#[test]
fn probe_file_with_bad_number_is_malformed() {
    assert_eq!(read_probe_temp(b"a\nb t=12x4"), Err(SensorError::MalformedData));
    assert_eq!(read_probe_temp(b"a\nb t="), Err(SensorError::MalformedData));
    assert_eq!(read_probe_temp(b"a\nb t=99999999999"), Err(SensorError::MalformedData));
}

#[test]
fn board_file_plain_millidegrees() {
    // 42.774 degrees Celsius is 108.99 degrees Fahrenheit.
    assert_eq!(read_cpu_temp(b"42774\n"), Ok(Temperature { centi_f: 10899 }));
    assert_eq!(read_cpu_temp(b"  0  "), Ok(Temperature { centi_f: 3200 }));
}

#[test]
fn board_file_garbage_is_malformed() {
    assert_eq!(read_cpu_temp(b"abc"), Err(SensorError::MalformedData));
    assert_eq!(read_cpu_temp(b""), Err(SensorError::MalformedData));
}

#[test]
fn decimal_token_parsing_edges() {
    assert_eq!(parse_i32_bytes(b"123"), Some(123));
    assert_eq!(parse_i32_bytes(b"+123"), Some(123));
    assert_eq!(parse_i32_bytes(b"-123"), Some(-123));
    assert_eq!(parse_i32_bytes(b"2147483647"), Some(i32::MAX));
    assert_eq!(parse_i32_bytes(b"-2147483648"), Some(i32::MIN));
    assert_eq!(parse_i32_bytes(b"2147483648"), None);
    assert_eq!(parse_i32_bytes(b"-2147483649"), None);
    assert_eq!(parse_i32_bytes(b"0000000001"), Some(1));
    assert_eq!(parse_i32_bytes(b""), None);
    assert_eq!(parse_i32_bytes(b"-"), None);
    assert_eq!(parse_i32_bytes(b"+"), None);
    assert_eq!(parse_i32_bytes(b"1 2"), None);
}

#[test]
fn millidegree_conversion_rounds_toward_zero() {
    assert_eq!(fahrenheit_centi_from_milli_c(23562), 7441);
    assert_eq!(fahrenheit_centi_from_milli_c(0), 3200);
    assert_eq!(fahrenheit_centi_from_milli_c(100_000), 21200);
    assert_eq!(fahrenheit_centi_from_milli_c(-40_000), -4000);
}

#[test]
fn ascii_trim_strips_both_ends() {
    assert_eq!(trim_ascii(b" \t 42 \r\n"), &b"42"[..]);
    assert_eq!(trim_ascii(b"42"), &b"42"[..]);
    assert_eq!(trim_ascii(b" \n "), &b""[..]);
}
