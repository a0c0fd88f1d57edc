use syslog_ng_filters::GlobalConfig;

#[test]
fn one_digit_hex_number_when_converted_to_decimal_works() {
    let dec = GlobalConfig::hex_to_dec(0x3);
    assert_eq!(dec, 3);
}

#[test]
fn more_digits_hex_number_when_converted_to_decimal_works() {
    let dec = GlobalConfig::hex_to_dec(0x1122);
    assert_eq!(dec, 1122);
}

#[test]
fn hex_version_when_converted_to_minor_version_works() {
    let version = 0x0316;

    let (_, minor) = GlobalConfig::convert_version(version);
    assert_eq!(minor, 16);
}

#[test]
fn hex_version_when_converted_to_major_version_works() {
    let version = 0x0316;

    let (major, _) = GlobalConfig::convert_version(version);
    assert_eq!(major, 3);
}

#[test]
fn packed_version_decodes_to_pair() {
    assert_eq!(GlobalConfig::convert_version(0x0316), (3, 16));
    assert_eq!(GlobalConfig::convert_version(0x0316), GlobalConfig::convert_version(0x0316));
}

#[test]
fn largest_hex_value_reads_each_digit() {
    assert_eq!(GlobalConfig::hex_to_dec(0xFFFF), 16665);
    assert_eq!(GlobalConfig::hex_to_dec(0), 0);
}

#[test]
fn malformed_nibble_gives_wrong_but_defined_value() {
    assert_eq!(GlobalConfig::hex_to_dec(0x1A), 20);
    assert_eq!(GlobalConfig::convert_version(-1), (165, 165));
}

#[test]
fn only_the_two_low_bytes_count() {
    assert_eq!(GlobalConfig::convert_version(0x7F_0408), (4, 8));
}

#[test]
fn config_getters_decode_stored_versions() {
    let cfg = GlobalConfig {
        user_version: 0x0316,
        parsed_version: 0x0402,
        filename: "syslog-ng.conf".to_string(),
    };
    assert_eq!(cfg.get_user_version(), (3, 16));
    assert_eq!(cfg.get_parsed_version(), (4, 2));
    assert_eq!(cfg.get_filename(), "syslog-ng.conf");
}
