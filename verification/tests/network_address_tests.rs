use ip_checker_logic::network_address::{NetworkAddress, NetworkAddressError};

#[test]
fn test_valid_network_address() {
    let addr = NetworkAddress::try_new("192.168.1.0".to_string(), 24);
    assert!(addr.is_ok());
}

#[test]
fn test_invalid_host_bits() {
    let addr = NetworkAddress::try_new("192.168.1.1".to_string(), 24);
    assert!(matches!(
        addr.unwrap_err(),
        NetworkAddressError::InvalidHostBits { prefix: 24 }
    ));
}

#[test]
fn network_address_test_invalid_octet_count() {
    let addr = NetworkAddress::try_new("192.168.1".to_string(), 24);
    assert!(matches!(
        addr.unwrap_err(),
        NetworkAddressError::InvalidOctetCount(3)
    ));
}

#[test]
fn network_address_test_invalid_octet() {
    let addr = NetworkAddress::try_new("192.168.abc.0".to_string(), 24);
    assert!(matches!(
        addr.unwrap_err(),
        NetworkAddressError::InvalidOctet { position: 3, .. }
    ));
}

#[test]
fn network_address_test_empty_address() {
    let addr = NetworkAddress::try_new("".to_string(), 24);
    assert!(matches!(
        addr.unwrap_err(),
        NetworkAddressError::EmptyAddress
    ));
}

#[test]
fn test_from_u32() {
    let addr = NetworkAddress::from_u32(0xC0A80100, 24); // 192.168.1.0/24
    assert!(addr.is_ok());
    assert_eq!(addr.unwrap().as_string(), "192.168.1.0");
}

#[test]
fn test_to_u32() {
    let addr = NetworkAddress::new("192.168.1.0".to_string());
    assert_eq!(addr.to_u32(), 0xC0A80100);
}

#[test]
fn test_from_u32_masks_host_bits() {
    // Stray host bits are masked away before validation, so this always
    // succeeds.
    let addr = NetworkAddress::from_u32(0xC0A801FF, 24);
    assert_eq!(addr.unwrap().as_string(), "192.168.1.0");
}

#[test]
fn test_zero_octets_allowed() {
    // Unlike the host-address parser, a network address may hold zero
    // octets.
    let addr = NetworkAddress::try_new("10.0.0.0".to_string(), 8);
    assert!(addr.is_ok());
}

#[test]
fn test_slash_32_network() {
    let addr = NetworkAddress::try_new("192.168.1.7".to_string(), 32);
    assert!(addr.is_ok());
    assert_eq!(addr.unwrap().to_u32(), 0xC0A80107);
}

#[test]
fn test_from_u32_full_prefix_keeps_value() {
    let addr = NetworkAddress::from_u32(0x01020304, 32).unwrap();
    assert_eq!(addr.as_string(), "1.2.3.4");
    assert_eq!(addr.to_u32(), 0x01020304);
}

#[test]
fn test_network_equality_is_textual() {
    let a = NetworkAddress::new("192.168.1.0".to_string());
    let b = NetworkAddress::new("192.168.1.0".to_string());
    assert!(a == b);
}
