use std::str::FromStr;

use nutil::error::NmError;
use nutil::ip4::{format_ipv4_cidr, parse_ipv4_cidr, Ipv4Cidr};
use nutil::util::{default_ip4_addr, validate_password};

#[test]
fn bare_address_is_rejected() {
    assert_eq!(parse_ipv4_cidr("172.16.0.1"), None);
}

#[test]
fn valid_cidr_is_accepted() {
    let c = parse_ipv4_cidr("172.16.0.1/24").unwrap();
    assert_eq!(c, Ipv4Cidr { o0: 172, o1: 16, o2: 0, o3: 1, prefix_len: 24 });
}

#[test]
fn parse_format_round_trip() {
    for text in ["172.16.0.1/24", "0.0.0.0/0", "255.255.255.255/32", "192.0.2.1/24", "10.0.0.7/8"]
    {
        let c = parse_ipv4_cidr(text).unwrap();
        assert_eq!(format_ipv4_cidr(&c), text);
    }
}

#[test]
fn invalid_cidr_texts_are_rejected() {
    for text in [
        "",
        "/24",
        "1.2.3/24",
        "1.2.3.4.5/24",
        "1.2.3.456/8",
        "01.2.3.4/8",
        "1.2.3.4/33",
        "1.2.3.4/024",
        "1.2.3.4/",
        "1.2.3.4//8",
        "a.b.c.d/8",
        "1.2.3.4/8 ",
    ] {
        assert_eq!(parse_ipv4_cidr(text), None, "accepted {:?}", text);
    }
}

#[test]
fn default_address_renders_canonically() {
    let d = default_ip4_addr();
    assert_eq!(format_ipv4_cidr(&d), "192.0.2.1/24");
    assert_eq!(parse_ipv4_cidr("192.0.2.1/24"), Some(d));
}

/// Cross-checks the grammar against the address library the rest of the
/// ecosystem uses, on clear-cut inputs.
#[test]
fn agrees_with_ipnet_on_plain_inputs() {
    for text in ["172.16.0.1/24", "192.0.2.1/24", "10.1.2.3/32", "0.0.0.0/0"] {
        let ours = parse_ipv4_cidr(text).unwrap();
        let theirs = ipnet::Ipv4Net::from_str(text).unwrap();
        assert_eq!(
            [ours.o0, ours.o1, ours.o2, ours.o3],
            theirs.addr().octets(),
            "address mismatch on {:?}",
            text
        );
        assert_eq!(ours.prefix_len, theirs.prefix_len(), "prefix mismatch on {:?}", text);
    }
    for text in ["172.16.0.1", "1.2.3.4/33", "1.2.3/24"] {
        assert!(parse_ipv4_cidr(text).is_none());
        assert!(ipnet::Ipv4Net::from_str(text).is_err());
    }
}

#[test]
fn password_rules() {
    assert_eq!(validate_password("", true), Ok(None));
    assert_eq!(validate_password("", false), Ok(None));
    assert_eq!(validate_password("short", true), Err(NmError::PasswordTooShort));
    assert_eq!(validate_password("1234567", true), Err(NmError::PasswordTooShort));
    assert_eq!(validate_password("12345678", true), Ok(Some("12345678".to_string())));
    assert_eq!(validate_password("12345678", false), Err(NmError::InvalidPsk));
    assert_eq!(
        validate_password("a much longer passphrase", true),
        Ok(Some("a much longer passphrase".to_string()))
    );
}
