use opencode_helix::digits::{parse_u16, u32_to_string};
use opencode_helix::server::extract_port_from_cmdline;

#[test]
fn test_extract_port() {
    assert_eq!(extract_port_from_cmdline("opencode --port 12345"), Some(12345));
    assert_eq!(extract_port_from_cmdline("node opencode.js --port 8080 --other"), Some(8080));
    assert_eq!(extract_port_from_cmdline("opencode --port=9999"), Some(9999));
    assert_eq!(extract_port_from_cmdline("opencode --other"), None);
}

#[test]
fn test_extract_port_skips_bad_values() {
    assert_eq!(extract_port_from_cmdline("opencode --port foo --port 8080"), Some(8080));
    assert_eq!(extract_port_from_cmdline("opencode --port"), None);
    assert_eq!(extract_port_from_cmdline("opencode --port 99999"), None);
    assert_eq!(extract_port_from_cmdline("opencode --port=12x"), None);
}

#[test]
fn test_parse_u16_bounds() {
    let chars = |s: &str| s.chars().collect::<Vec<char>>();
    assert_eq!(parse_u16(&chars("0")), Some(0));
    assert_eq!(parse_u16(&chars("65535")), Some(65535));
    assert_eq!(parse_u16(&chars("65536")), None);
    assert_eq!(parse_u16(&chars("")), None);
    assert_eq!(parse_u16(&chars("12a")), None);
}

#[test]
fn test_u32_to_string_exact() {
    assert_eq!(u32_to_string(0), "0");
    assert_eq!(u32_to_string(7), "7");
    assert_eq!(u32_to_string(12345), "12345");
    assert_eq!(u32_to_string(4294967295), "4294967295");
}
