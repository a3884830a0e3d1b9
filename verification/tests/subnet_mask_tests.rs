use ip_checker_logic::subnet_mask::{SubnetMask, SubnetMaskError};

#[test]
fn test_valid_subnet_mask() {
    let mask = SubnetMask::try_new("255.255.255.0".to_string());
    assert!(mask.is_ok());
}

#[test]
fn subnet_mask_test_invalid_octet_count() {
    let mask = SubnetMask::try_new("255.255.255".to_string());
    assert!(matches!(
        mask.unwrap_err(),
        SubnetMaskError::InvalidOctetCount(3)
    ));
}

#[test]
fn test_invalid_octet_value() {
    let mask = SubnetMask::try_new("255.255.255.123".to_string());
    assert!(matches!(
        mask.unwrap_err(),
        SubnetMaskError::InvalidOctetValue { position: 4 }
    ));
}

#[test]
fn test_invalid_mask_pattern() {
    let mask = SubnetMask::try_new("255.0.255.0".to_string());
    assert!(matches!(
        mask.unwrap_err(),
        SubnetMaskError::InvalidMaskPattern
    ));
}

#[test]
fn test_empty_mask() {
    let mask = SubnetMask::try_new("".to_string());
    assert!(matches!(mask.unwrap_err(), SubnetMaskError::EmptyMask));
}

#[test]
fn test_prefix_calculation() {
    let mask = SubnetMask::new("255.255.254.0".to_string());
    assert_eq!(mask.to_prefix(), 23);
}

#[test]
fn subnet_mask_test_from_str() {
    let mask: Result<SubnetMask, _> = "255.255.255.0".parse();
    assert!(mask.is_ok());
}

#[test]
fn test_mask_octet_not_a_number() {
    let mask = SubnetMask::try_new("255.255.abc.0".to_string());
    assert!(matches!(
        mask.unwrap_err(),
        SubnetMaskError::InvalidOctet { position: 3, .. }
    ));
}

#[test]
fn test_prefix_calculation_extremes() {
    assert_eq!(SubnetMask::new("255.255.255.255".to_string()).to_prefix(), 32);
    assert_eq!(SubnetMask::new("128.0.0.0".to_string()).to_prefix(), 1);
    assert_eq!(SubnetMask::new("0.0.0.0".to_string()).to_prefix(), 0);
}

#[test]
fn test_leading_zeros_accepted_but_not_canonical() {
    // "000" reads as the octet 0, so validation accepts the mask; the
    // text kept is the one given, which is not the canonical rendering.
    let mask = SubnetMask::try_new("255.255.255.000".to_string()).unwrap();
    assert_eq!(mask.to_prefix(), 24);
    assert_eq!(mask.as_string(), "255.255.255.000");
    let rendered = ip_checker_logic::prefix::Prefix::new(24).unwrap().to_subnet_mask();
    assert_eq!(rendered.as_string(), "255.255.255.0");
}

#[test]
fn test_noncontiguous_mask_passes_octet_checks() {
    // The octet rules alone accept this mask even though its bits are not
    // contiguous; only the bit-walk in `Prefix::from_subnet_mask` sees it.
    let mask = SubnetMask::try_new("255.128.128.0".to_string());
    assert!(mask.is_ok());
    assert_eq!(mask.unwrap().to_prefix(), 10);
}
