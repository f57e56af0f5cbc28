use net_tool::connection::normalize_base_url;
use net_tool::tunnel_client::{extract_first_ip, get_tunnel_addr};

#[test]
fn normalize_url() {
    assert_eq!(normalize_base_url("127.0.0.1:8443").unwrap(), "http://127.0.0.1:8443");
    assert_eq!(normalize_base_url("https://a.com:8443/").unwrap(), "https://a.com:8443");
}

#[test]
fn test_extract_first_ip() {
    assert_eq!(extract_first_ip("100.64.1.0/24").unwrap(), "100.64.1.1");
    assert_eq!(extract_first_ip("100.127.0.0/24").unwrap(), "100.127.0.1");
}

#[test]
fn test_get_tunnel_addr() {
    assert_eq!(get_tunnel_addr("host:8443"), "host:8444");
    assert_eq!(get_tunnel_addr("http://host:8443"), "host:8444");
    assert_eq!(get_tunnel_addr("https://host:8443"), "host:8444");
    assert_eq!(get_tunnel_addr("host"), "host:8444");
    assert_eq!(get_tunnel_addr("192.168.1.1:8443"), "192.168.1.1:8444");
}
