use ip_checker_logic::{InputIpModel, IpCalculator};

#[test]
fn test_ip_calculator() {
    let calculator = IpCalculator::new();
    let octets = [192, 168, 1, 1];
    let prefix_length = 24;

    let model = calculator.calculate_model(&octets, prefix_length);

    assert_eq!(model.ip.as_string(), "192.168.1.1");
    assert_eq!(model.prefix.as_string(), "/24");
    assert_eq!(model.mask.as_string(), "255.255.255.0");
    assert_eq!(model.network_address.as_string(), "192.168.1.0");
    assert_eq!(model.broadcast_address.as_string(), "192.168.1.255");
    assert_eq!(model.first_host.as_string(), "192.168.1.1");
    assert_eq!(model.last_host.as_string(), "192.168.1.254");
    assert_eq!(model.possible_hosts, Some(254));
}

#[test]
fn test_random_model() {
    let mut calculator = IpCalculator::new();
    let model = calculator.random_model();

    // Basic validation that the model is consistent
    assert!(model.possible_hosts.unwrap() > 0);
    assert!(model.first_host.as_string() > model.network_address.as_string());
    assert!(model.last_host.as_string() < model.broadcast_address.as_string());
}

#[test]
fn test_random_model_ranges() {
    // The drawn prefix stays in 18..28, and the drawn octets in 111..255;
    // a generator that ignored its bounds would step outside them.
    let mut calculator = IpCalculator::new();
    for _ in 0..16 {
        let model = calculator.random_model();
        let n = model.prefix.value();
        assert!((18..28).contains(&n));
        let text = model.ip.as_string();
        for field in text.split('.') {
            let v: u32 = field.parse().unwrap();
            assert!((111..255).contains(&v));
        }
    }
}

#[test]
fn test_validate_all_fields_match() {
    let calculator = IpCalculator::new();
    let model = calculator.calculate_model(&[192, 168, 1, 1], 24);
    let input = InputIpModel {
        ip: String::new(),
        prefix: String::new(),
        mask: "255.255.255.0".to_string(),
        network_address: "192.168.1.0".to_string(),
        broadcast_address: "192.168.1.255".to_string(),
        first_host: "192.168.1.1".to_string(),
        last_host: "192.168.1.254".to_string(),
        possible_hosts: Some(254),
    };
    let report = model.validate(&input);
    assert!(report.mask);
    assert!(report.network_address);
    assert!(report.broadcast_address);
    assert!(report.first_host);
    assert!(report.last_host);
    assert!(report.possible_hosts);
}

#[test]
fn test_validate_is_exact_text_comparison() {
    // "255.255.255.000" names the same mask but is not the same text.
    let calculator = IpCalculator::new();
    let model = calculator.calculate_model(&[192, 168, 1, 1], 24);
    let input = InputIpModel {
        mask: "255.255.255.000".to_string(),
        network_address: "192.168.1.0".to_string(),
        possible_hosts: None,
        ..Default::default()
    };
    let report = model.validate(&input);
    assert!(!report.mask);
    assert!(report.network_address);
    assert!(!report.possible_hosts); // Some(254) != None
    assert!(!report.broadcast_address);
}

#[test]
fn test_validate_repeats_identically() {
    // Validation is pure: the same model and candidate give the same
    // report, field for field, on every call.
    let calculator = IpCalculator::new();
    let model = calculator.calculate_model(&[172, 16, 21, 9], 20);
    let input = InputIpModel {
        ip: String::new(),
        prefix: String::new(),
        mask: "255.255.240.0".to_string(),
        network_address: "172.16.16.0".to_string(),
        broadcast_address: "172.16.31.255".to_string(),
        first_host: "172.16.16.1".to_string(),
        last_host: "172.16.31.254".to_string(),
        possible_hosts: Some(4094),
    };
    let first = model.validate(&input);
    let second = model.validate(&input);
    assert_eq!(first.mask, second.mask);
    assert_eq!(first.network_address, second.network_address);
    assert_eq!(first.broadcast_address, second.broadcast_address);
    assert_eq!(first.first_host, second.first_host);
    assert_eq!(first.last_host, second.last_host);
    assert_eq!(first.possible_hosts, second.possible_hosts);
    assert!(first.mask && first.network_address && first.broadcast_address);
    assert!(first.first_host && first.last_host && first.possible_hosts);
}

#[test]
fn test_calculator_slash_30() {
    let calculator = IpCalculator::new();
    let model = calculator.calculate_model(&[10, 20, 30, 41], 30);
    assert_eq!(model.network_address.as_string(), "10.20.30.40");
    assert_eq!(model.broadcast_address.as_string(), "10.20.30.43");
    assert_eq!(model.first_host.as_string(), "10.20.30.41");
    assert_eq!(model.last_host.as_string(), "10.20.30.42");
    assert_eq!(model.possible_hosts, Some(2));
}

#[test]
fn test_network_address_has_no_host_bits() {
    let calculator = IpCalculator::new();
    let model = calculator.calculate_model(&[201, 111, 113, 99], 18);
    let packed = {
        let addr = ip_checker_logic::network_address::NetworkAddress::try_new(
            model.network_address.as_string(),
            18,
        );
        addr.unwrap().to_u32()
    };
    let host_mask: u32 = (1u32 << 14) - 1;
    assert_eq!(packed & host_mask, 0);
}
