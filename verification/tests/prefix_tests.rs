use ip_checker_logic::prefix::{Prefix, PrefixError};
use ip_checker_logic::subnet_mask::SubnetMask;

#[test]
fn test_valid_prefix() {
    let prefix = Prefix::new(24);
    assert!(prefix.is_ok());
    assert_eq!(prefix.unwrap().value(), 24);
}

#[test]
fn test_invalid_prefix_length() {
    let prefix = Prefix::new(33);
    assert!(matches!(
        prefix.unwrap_err(),
        PrefixError::InvalidLength(33)
    ));
}

#[test]
fn test_from_str_valid() {
    let prefix: Result<Prefix, _> = "/24".parse();
    assert!(prefix.is_ok());
    assert_eq!(prefix.unwrap().value(), 24);
}

#[test]
fn test_from_str_invalid() {
    let prefix: Result<Prefix, _> = "24".parse();
    assert!(matches!(prefix.unwrap_err(), PrefixError::ParseError(_)));
}

#[test]
fn test_to_subnet_mask() {
    let prefix = Prefix::new(24).unwrap();
    let mask = prefix.to_subnet_mask();
    assert_eq!(mask.as_string(), "255.255.255.0");
}

#[test]
fn test_max_hosts() {
    let prefix = Prefix::new(24).unwrap();
    assert_eq!(prefix.get_max_hosts(), 254); // 256 - 2 for network and broadcast
}

#[test]
fn test_network_mask() {
    let prefix = Prefix::new(24).unwrap();
    assert_eq!(prefix.get_network_mask(), 0xFFFFFF00);
}

#[test]
fn test_host_mask() {
    let prefix = Prefix::new(24).unwrap();
    assert_eq!(prefix.get_host_mask(), 0x000000FF);
}

#[test]
fn test_from_subnet_mask() {
    let mask = SubnetMask::new("255.255.255.0".to_string());
    let prefix = Prefix::from_subnet_mask(&mask).unwrap();
    assert_eq!(prefix.value(), 24);
}

#[test]
fn test_prefix_zero_rejected() {
    let prefix = Prefix::new(0);
    assert!(matches!(prefix.unwrap_err(), PrefixError::InvalidLength(0)));
}

#[test]
fn test_mask_round_trip_every_length() {
    // For every valid length, rendering the mask and walking its bits
    // comes back to the same length.
    let mut n: u8 = 1;
    while n <= 32 {
        let prefix = Prefix::new(n).unwrap();
        let mask = prefix.to_subnet_mask();
        let back = Prefix::from_subnet_mask(&mask).unwrap();
        assert_eq!(back.value(), n);
        n += 1;
    }
}

#[test]
fn test_mask_text_round_trip() {
    // A constructor-accepted contiguous mask renders back to itself from
    // its own bit count.
    let mask = SubnetMask::new("255.255.254.0".to_string());
    let n = mask.to_prefix();
    assert_eq!(n, 23);
    let again = Prefix::new(n).unwrap().to_subnet_mask();
    assert_eq!(again.as_string(), "255.255.254.0");
}

#[test]
fn test_noncontiguous_mask_is_rejected() {
    let mask = SubnetMask::new("255.128.128.0".to_string());
    let err = Prefix::from_subnet_mask(&mask).unwrap_err();
    match err {
        PrefixError::ParseError(m) => {
            assert_eq!(m, "Invalid subnet mask: non-consecutive 1s");
        }
        _ => panic!("expected a parse error"),
    }
}

#[test]
fn test_zero_mask_has_no_prefix() {
    let mask = SubnetMask::new("0.0.0.0".to_string());
    let err = Prefix::from_subnet_mask(&mask).unwrap_err();
    assert!(matches!(err, PrefixError::InvalidLength(0)));
}

#[test]
fn test_from_str_messages() {
    match Prefix::from_text("24") {
        Err(PrefixError::ParseError(m)) => assert_eq!(m, "Prefix must start with '/'"),
        _ => panic!("expected a parse error"),
    }
    match Prefix::from_text("/abc") {
        Err(PrefixError::ParseError(m)) => assert_eq!(m, "Failed to parse prefix number"),
        _ => panic!("expected a parse error"),
    }
    match Prefix::from_text("/33") {
        Err(PrefixError::InvalidLength(33)) => {}
        _ => panic!("expected an invalid length"),
    }
}

#[test]
fn test_max_hosts_edges() {
    assert_eq!(Prefix::new(30).unwrap().get_max_hosts(), 2);
    assert_eq!(Prefix::new(31).unwrap().get_max_hosts(), 0);
    assert_eq!(Prefix::new(32).unwrap().get_max_hosts(), 0);
    assert_eq!(Prefix::new(18).unwrap().get_max_hosts(), 16382);
    assert_eq!(Prefix::new(1).unwrap().get_max_hosts(), 2147483646);
}

#[test]
fn test_prefix_text() {
    assert_eq!(Prefix::new(8).unwrap().as_string(), "/8");
    assert_eq!(Prefix::new(32).unwrap().as_string(), "/32");
}

#[test]
fn test_default_prefix() {
    let prefix: Prefix = Default::default();
    assert_eq!(prefix.value(), 24);
}
