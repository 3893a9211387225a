use tcpserver::error::{ErrorHandler, ErrorSeverity, LogLevel, TcpServerError};

#[test]
fn test_error_creation() {
    let conn_error = TcpServerError::connection_error(
        Some(123),
        Some("127.0.0.1:12345".to_string()),
        "연결 타임아웃",
    );

    match conn_error {
        TcpServerError::Connection { client_id, addr, message } => {
            assert_eq!(client_id, Some(123));
            assert_eq!(addr, Some("127.0.0.1:12345".to_string()));
            assert_eq!(message, "연결 타임아웃");
        }
        _ => panic!("잘못된 에러 타입"),
    }
}

#[test]
fn test_error_display() {
    let error = TcpServerError::Protocol {
        message_type: Some("HeartBeat".to_string()),
        raw_data: Some(vec![0x01, 0x02, 0x03]),
        message: "잘못된 형식".to_string(),
    };

    let display_str = error.to_string();
    assert!(display_str.contains("프로토콜 에러"));
    assert!(display_str.contains("HeartBeat"));
    assert!(display_str.contains("3바이트"));
}

#[test]
fn test_error_severity() {
    let severities = vec![
        ErrorSeverity::Info,
        ErrorSeverity::Warning,
        ErrorSeverity::Error,
        ErrorSeverity::Critical,
    ];

    for severity in severities {
        let error = TcpServerError::Internal {
            component: "test".to_string(),
            message: format!("테스트 에러 {:?}", severity),
        };
        ErrorHandler::handle_error(error, severity, "test_component", "test_operation");
    }
}

#[test]
fn test_error_conversion() {
    let io_error = std::io::Error::new(std::io::ErrorKind::ConnectionRefused, "연결 거부");
    let tcp_error: TcpServerError = io_error.into();

    match tcp_error {
        TcpServerError::Network { message, .. } => {
            assert!(message.contains("연결 거부"));
        }
        _ => panic!("잘못된 에러 변환"),
    }
}

#[test]
fn display_of_each_variant_is_exact() {
    let e = TcpServerError::connection_error(Some(7), None, "boom");
    assert_eq!(e.to_string(), "연결 에러 [클라이언트 7]: boom");
    let e = TcpServerError::protocol_error(None, "bad");
    assert_eq!(e.to_string(), "프로토콜 에러: bad");
    let e = TcpServerError::heartbeat_error(None, "ping", "late");
    assert_eq!(e.to_string(), "하트비트 에러 [작업: ping]: late");
    let e = TcpServerError::service_error("svc", "start", "down");
    assert_eq!(e.to_string(), "서비스 에러 [svc] [작업: start]: down");
    let e = TcpServerError::network_error(Some("1.2.3.4:5".to_string()), "bind", "busy");
    assert_eq!(e.to_string(), "네트워크 에러 [1.2.3.4:5] [작업: bind]: busy");
    let e = TcpServerError::Serialization { data_type: "json".to_string(), message: "x".to_string() };
    assert_eq!(e.to_string(), "직렬화 에러 [타입: json]: x");
    let e = TcpServerError::Configuration { key: "PORT".to_string(), message: "y".to_string() };
    assert_eq!(e.to_string(), "설정 에러 [키: PORT]: y");
    let e = TcpServerError::Internal { component: "c".to_string(), message: "z".to_string() };
    assert_eq!(e.to_string(), "내부 에러 [컴포넌트: c]: z");
}

#[test]
fn critical_errors_log_two_error_lines() {
    let e = TcpServerError::Internal { component: "c".to_string(), message: "z".to_string() };
    let report = ErrorHandler::handle_error(e, ErrorSeverity::Critical, "comp", "op");
    assert_eq!(report.log_lines.len(), 2);
    assert!(report.log_lines.iter().all(|l| l.level == LogLevel::Error));
    let e = TcpServerError::Internal { component: "c".to_string(), message: "z".to_string() };
    let report = ErrorHandler::handle_error(e, ErrorSeverity::Info, "comp", "op");
    assert_eq!(report.log_lines.len(), 1);
    assert_eq!(report.log_lines[0].level, LogLevel::Info);
    assert_eq!(report.context.component, "comp");
    assert_eq!(report.context.operation, "op");
}

#[test]
fn json_errors_convert_to_serialization_errors() {
    let err = serde_json::from_str::<u32>("not json").unwrap_err();
    let tcp_error: TcpServerError = err.into();
    assert!(matches!(tcp_error, TcpServerError::Serialization { .. }));
}
