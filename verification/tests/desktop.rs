use net_tool::desktop::{convert_ip_in_segment, ip_in_cidr};

#[test]
fn test_ip_in_cidr() {
    assert!(ip_in_cidr("192.168.1.100", "192.168.1.0/24").unwrap());
    assert!(!ip_in_cidr("192.168.2.100", "192.168.1.0/24").unwrap());
    assert!(ip_in_cidr("100.64.1.50", "100.64.1.0/24").unwrap());
}

#[test]
fn test_convert_ip() {
    let result = convert_ip_in_segment("192.168.1.100", "192.168.1.0/24", "100.64.1.0/24");
    assert_eq!(result, Some("100.64.1.100".to_string()));

    let result = convert_ip_in_segment("192.168.1.1", "192.168.1.0/24", "100.64.1.0/24");
    assert_eq!(result, Some("100.64.1.1".to_string()));
}
