use tcpserver::network_utils::{ConnectionQuality, IpAddress, NetworkError, NetworkUtils};

#[test]
fn test_port_validation() {
    assert!(NetworkUtils::validate_port(8080).is_ok());
    assert!(NetworkUtils::validate_port(0).is_err());
    assert!(NetworkUtils::validate_port(65535).is_ok());
}

#[test]
fn port_zero_is_the_only_refused_port() {
    assert_eq!(NetworkUtils::validate_port(0), Err(NetworkError::PortZero));
    assert_eq!(NetworkUtils::validate_port(1), Ok(1));
}

#[test]
fn test_localhost_detection() {
    let v4 = IpAddress::V4([127, 0, 0, 1]);
    let mut v6 = [0u8; 16];
    v6[15] = 1;
    let v6 = IpAddress::V6(v6);
    let external = IpAddress::V4([8, 8, 8, 8]);
    assert!(NetworkUtils::is_localhost(&v4));
    assert!(NetworkUtils::is_localhost(&v6));
    assert!(!NetworkUtils::is_localhost(&external));
}

#[test]
fn test_private_ip_detection() {
    let private = IpAddress::V4([192, 168, 1, 1]);
    let public = IpAddress::V4([8, 8, 8, 8]);
    assert!(NetworkUtils::is_private_ip(&private));
    assert!(!NetworkUtils::is_private_ip(&public));
}

#[test]
fn private_ranges_are_recognised() {
    assert!(NetworkUtils::is_private_ip(&IpAddress::V4([192, 168, 1, 1])));
    assert!(NetworkUtils::is_private_ip(&IpAddress::V4([10, 1, 2, 3])));
    assert!(NetworkUtils::is_private_ip(&IpAddress::V4([172, 16, 0, 1])));
    assert!(NetworkUtils::is_private_ip(&IpAddress::V4([172, 31, 255, 255])));
    assert!(!NetworkUtils::is_private_ip(&IpAddress::V4([172, 32, 0, 1])));
    assert!(!NetworkUtils::is_private_ip(&IpAddress::V4([8, 8, 8, 8])));
    let mut ula = [0u8; 16];
    ula[0] = 0xfd;
    assert!(NetworkUtils::is_private_ip(&IpAddress::V6(ula)));
    let mut link = [0u8; 16];
    link[0] = 0xfe;
    link[1] = 0x80;
    assert!(NetworkUtils::is_private_ip(&IpAddress::V6(link)));
}

#[test]
fn connection_grades_follow_the_thresholds() {
    assert_eq!(NetworkUtils::grade_connection(true, 50), ConnectionQuality::Excellent);
    assert_eq!(NetworkUtils::grade_connection(true, 51), ConnectionQuality::Good);
    assert_eq!(NetworkUtils::grade_connection(true, 150), ConnectionQuality::Good);
    assert_eq!(NetworkUtils::grade_connection(true, 300), ConnectionQuality::Fair);
    assert_eq!(NetworkUtils::grade_connection(true, 1000), ConnectionQuality::Poor);
    assert_eq!(NetworkUtils::grade_connection(true, 1001), ConnectionQuality::VeryPoor);
    assert_eq!(NetworkUtils::grade_connection(false, 1), ConnectionQuality::Disconnected);
}

#[test]
fn system_ports_are_flagged_for_a_warning() {
    assert!(!NetworkUtils::is_privileged_port(0));
    assert!(NetworkUtils::is_privileged_port(1));
    assert!(NetworkUtils::is_privileged_port(80));
    assert!(NetworkUtils::is_privileged_port(1023));
    assert!(!NetworkUtils::is_privileged_port(1024));
    assert!(!NetworkUtils::is_privileged_port(8080));
    assert!(!NetworkUtils::is_privileged_port(65535));
}
