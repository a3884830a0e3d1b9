use ip_checker_logic::ip_address::{IpAddress, IpAddressError};

#[test]
fn test_valid_ip() {
    let ip = IpAddress::try_new("192.168.1.1".to_string());
    assert!(ip.is_ok());
}

#[test]
fn ip_address_test_invalid_octet_count() {
    let ip = IpAddress::try_new("192.168.1".to_string());
    assert!(matches!(
        ip.unwrap_err(),
        IpAddressError::InvalidOctetCount(3)
    ));
}

#[test]
fn ip_address_test_invalid_octet() {
    let ip = IpAddress::try_new("192.168.abc.1".to_string());
    assert!(matches!(
        ip.unwrap_err(),
        IpAddressError::InvalidOctet { position: 3, .. }
    ));
}

#[test]
fn test_octet_out_of_range() {
    let ip = IpAddress::try_new("192.168.256.1".to_string());
    assert!(matches!(
        ip.unwrap_err(),
        IpAddressError::OctetOutOfRange { position: 3 }
    ));
}

#[test]
fn ip_address_test_empty_address() {
    let ip = IpAddress::try_new("".to_string());
    assert!(matches!(ip.unwrap_err(), IpAddressError::EmptyAddress));
}

#[test]
fn ip_address_test_from_str() {
    let ip: Result<IpAddress, _> = "192.168.1.1".parse();
    assert!(ip.is_ok());
}

#[test]
fn test_zero_octet_rejected() {
    let ip = IpAddress::try_new("192.168.1.0".to_string());
    assert!(matches!(
        ip.unwrap_err(),
        IpAddressError::OctetOutOfRange { position: 4 }
    ));
}

#[test]
fn test_plus_sign_octet_parses() {
    // `str::parse` for unsigned integers accepts one leading `+`, so the
    // address validator does too.
    let ip = IpAddress::try_new("192.168.1.+7".to_string());
    assert!(ip.is_ok());
    assert_eq!(ip.unwrap().as_string(), "192.168.1.+7");
}

#[test]
fn test_huge_field_is_not_a_number() {
    // A field too large even for u16 fails the numeric parse, not the
    // range check.
    let ip = IpAddress::try_new("192.99999.1.1".to_string());
    assert!(matches!(
        ip.unwrap_err(),
        IpAddressError::InvalidOctet { position: 2, .. }
    ));
}

#[test]
fn test_as_string_keeps_text() {
    let ip = IpAddress::new("010.011.012.013".to_string());
    assert_eq!(ip.as_string(), "010.011.012.013");
}

#[test]
fn test_address_equality_is_textual() {
    let a = IpAddress::new("10.1.1.1".to_string());
    let b = IpAddress::new("10.1.1.1".to_string());
    let c = IpAddress::new("10.1.1.2".to_string());
    assert!(a == b);
    assert!(a != c);
}
