use miner::config::{
    build_connection, build_logging, data_directory_or_default, log_directory, parse_u16_or,
    parse_u32_or, parse_u64_dec, parse_u64_or, trim_spaces, DEFAULT_LOG_COUNT, DEFAULT_LOG_SIZE,
    DEFAULT_PUBLISH, DEFAULT_REQUEST, DEFAULT_WORKERS,
};
use miner::hexstr::{hex_decode, hex_decode_32};

#[test]
fn decimal_parsing_accepts_plain_numbers() {
    assert_eq!(parse_u64_dec("0"), Some(0));
    assert_eq!(parse_u64_dec("2138"), Some(2138));
    assert_eq!(parse_u64_dec("+17"), Some(17));
    assert_eq!(parse_u64_dec("00042"), Some(42));
    assert_eq!(parse_u64_dec("18446744073709551615"), Some(u64::MAX));
}

#[test]
fn decimal_parsing_rejects_everything_else() {
    assert_eq!(parse_u64_dec(""), None);
    assert_eq!(parse_u64_dec("+"), None);
    assert_eq!(parse_u64_dec("-1"), None);
    assert_eq!(parse_u64_dec("12a"), None);
    assert_eq!(parse_u64_dec(" 12"), None);
    assert_eq!(parse_u64_dec("18446744073709551616"), None);
    assert_eq!(parse_u64_dec("99999999999999999999999"), None);
}

#[test]
fn numeric_settings_fall_back_to_their_defaults() {
    assert_eq!(parse_u16_or("2138", 7), 2138);
    assert_eq!(parse_u16_or("70000", 7), 7);
    assert_eq!(parse_u16_or("nope", 7), 7);
    assert_eq!(parse_u32_or("4294967295", 1), u32::MAX);
    assert_eq!(parse_u32_or("4294967296", 1), 1);
    assert_eq!(parse_u64_or("10000", 3), 10000);
    assert_eq!(parse_u64_or("", 3), 3);
}

#[test]
fn trimming_strips_padding() {
    assert_eq!(trim_spaces("  hello \t\n"), "hello");
    assert_eq!(trim_spaces("hello"), "hello");
    assert_eq!(trim_spaces("   "), "");
    assert_eq!(trim_spaces(""), "");
}

#[test]
fn directories_resolve_against_the_data_directory() {
    assert_eq!(data_directory_or_default(None), ".");
    assert_eq!(data_directory_or_default(Some("  ".to_string())), ".");
    assert_eq!(data_directory_or_default(Some(" /data ".to_string())), "/data");
    assert_eq!(log_directory("/data", Some(" logs ".to_string())), "/data/logs");
    assert_eq!(log_directory("/data", Some("/var/log".to_string())), "/var/log");
    assert_eq!(log_directory(".", None), "./log");
    assert_eq!(log_directory(".", Some("  ".to_string())), "./log");
}

#[test]
fn connections_assemble_with_defaults() {
    let c = build_connection(
        "pool.example".to_string(),
        "ab12".to_string(),
        "bad",
        "2200",
        "8",
        None,
    );
    assert_eq!(c.host, "pool.example");
    assert_eq!(c.public_key, "ab12");
    assert_eq!(c.subscribe_port, DEFAULT_PUBLISH);
    assert_eq!(c.request_port, 2200);
    assert_eq!(c.workers, 8);
    assert!(!c.use_ipv4);
    assert_eq!(DEFAULT_PUBLISH, 2138);
    assert_eq!(DEFAULT_REQUEST, 2139);
    assert_eq!(DEFAULT_WORKERS, 1);
}

#[test]
fn logging_assembles_with_defaults() {
    let l = build_logging(
        "/data",
        None,
        None,
        "not-a-number",
        "oops",
        None,
        "info".to_string(),
    );
    assert_eq!(l.directory, "/data/log");
    assert_eq!(l.file, "recorder.log");
    assert_eq!(l.size, DEFAULT_LOG_SIZE);
    assert_eq!(l.count, DEFAULT_LOG_COUNT);
    assert!(!l.console);
    assert_eq!(l.level, "info");
}

#[test]
fn hex_decoding_is_exact() {
    assert_eq!(hex_decode("00ff").unwrap(), vec![0x00, 0xff]);
    assert_eq!(hex_decode("DEADbeef").unwrap(), vec![0xde, 0xad, 0xbe, 0xef]);
    assert_eq!(hex_decode("").unwrap(), Vec::<u8>::new());
    assert_eq!(hex_decode("0"), None);
    assert_eq!(hex_decode("0g"), None);
    let a = hex_decode_32(&"0123456789abcdef".repeat(4)).unwrap();
    assert_eq!(a[0], 0x01);
    assert_eq!(a[31], 0xef);
    assert_eq!(hex_decode_32("00"), None);
}
