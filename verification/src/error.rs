//! The server's error taxonomy, its rendering, and the central handler that
//! turns an error into the log lines and the recovery note to emit.

use vstd::prelude::*;
use vstd::string::*;
use vstd::std_specs::convert::FromSpecImpl;
use crate::text::{u64_to_decimal, decimal, i64_to_decimal};
use crate::simple_utils::SimpleUtils;

verus! {

/// Every kind of failure the server reports.
#[derive(Debug, Clone)]
pub enum TcpServerError {
    Connection { client_id: Option<u32>, addr: Option<String>, message: String },
    Protocol { message_type: Option<String>, raw_data: Option<Vec<u8>>, message: String },
    Heartbeat { client_id: Option<u32>, operation: String, message: String },
    Service { service_name: String, operation: String, message: String },
    Network { addr: Option<String>, operation: String, message: String },
    Serialization { data_type: String, message: String },
    Configuration { key: String, message: String },
    Internal { component: String, message: String },
}

/// How serious an error is.
#[derive(Debug, Clone, Copy, PartialEq, Eq)]
pub enum ErrorSeverity {
    Info,
    Warning,
    Error,
    Critical,
}

/// The level a log line is emitted at.
#[derive(Debug, Clone, Copy, PartialEq, Eq)]
pub enum LogLevel {
    Info,
    Warn,
    Error,
}

/// A line to log.
#[derive(Debug, Clone)]
pub struct LogLine {
    pub level: LogLevel,
    pub text: String,
}

/// An error with where and when it happened.
#[derive(Debug, Clone)]
pub struct ErrorContext {
    pub error: TcpServerError,
    pub severity: ErrorSeverity,
    pub timestamp: i64,
    pub component: String,
    pub operation: String,
    pub additional_info: Option<String>,
}

/// What handling an error produced: its context, the lines to log and the
/// recovery note, if any.
#[derive(Debug, Clone)]
pub struct ErrorReport {
    pub context: ErrorContext,
    pub log_lines: Vec<LogLine>,
    pub recovery: Option<LogLine>,
}

/// `" [" + text + "]"` when `o` holds a text, else nothing.
pub open spec fn opt_bracket(o: Option<String>) -> Seq<char> {
    match o {
        Some(s) => " ["@ + s@ + "]"@,
        None => Seq::empty(),
    }
}

/// `" [클라이언트 " + id + "]"` when `o` holds an id, else nothing.
pub open spec fn opt_client(o: Option<u32>) -> Seq<char> {
    match o {
        Some(id) => " [클라이언트 "@ + decimal(id as nat) + "]"@,
        None => Seq::empty(),
    }
}

/// How an error renders.
pub open spec fn error_display(e: TcpServerError) -> Seq<char> {
    match e {
        TcpServerError::Connection { client_id, addr, message } => "연결 에러"@ + opt_client(
            client_id,
        ) + opt_bracket(addr) + ": "@ + message@,
        TcpServerError::Protocol { message_type, raw_data, message } => "프로토콜 에러"@ + match message_type {
            Some(t) => " [타입: "@ + t@ + "]"@,
            None => Seq::empty(),
        } + match raw_data {
            Some(d) => " [데이터 크기: "@ + decimal(d@.len()) + "바이트]"@,
            None => Seq::empty(),
        } + ": "@ + message@,
        TcpServerError::Heartbeat { client_id, operation, message } => "하트비트 에러"@ + opt_client(
            client_id,
        ) + " [작업: "@ + operation@ + "]: "@ + message@,
        TcpServerError::Service { service_name, operation, message } => "서비스 에러 ["@
            + service_name@ + "] [작업: "@ + operation@ + "]: "@ + message@,
        TcpServerError::Network { addr, operation, message } => "네트워크 에러"@ + opt_bracket(addr)
            + " [작업: "@ + operation@ + "]: "@ + message@,
        TcpServerError::Serialization { data_type, message } => "직렬화 에러 [타입: "@ + data_type@
            + "]: "@ + message@,
        TcpServerError::Configuration { key, message } => "설정 에러 [키: "@ + key@ + "]: "@
            + message@,
        TcpServerError::Internal { component, message } => "내부 에러 [컴포넌트: "@ + component@
            + "]: "@ + message@,
    }
}

fn push_client(s: &mut String, o: Option<u32>)
    ensures
        final(s)@ == old(s)@ + opt_client(o),
{
    match o {
        Some(id) => {
            s.append(" [클라이언트 ");
            let d = u64_to_decimal(id as u64);
            s.append(d.as_str());
            s.append("]");
        },
        None => {},
    }
}

fn push_bracket(s: &mut String, o: &Option<String>)
    ensures
        final(s)@ == old(s)@ + opt_bracket(*o),
{
    match o {
        Some(t) => {
            s.append(" [");
            s.append(t.as_str());
            s.append("]");
        },
        None => {},
    }
}

impl TcpServerError {
    /// The rendering of the error, as `Display` shows it.
    pub fn to_string(&self) -> (s: String)
        ensures
            s@ == error_display(*self),
    {
        match self {
            TcpServerError::Connection { client_id, addr, message } => {
                let mut s = <String as StringExecFns>::from_str("연결 에러");
                push_client(&mut s, *client_id);
                push_bracket(&mut s, addr);
                s.append(": ");
                s.append(message.as_str());
                s
            },
            TcpServerError::Protocol { message_type, raw_data, message } => {
                let mut s = <String as StringExecFns>::from_str("프로토콜 에러");
                match message_type {
                    Some(t) => {
                        s.append(" [타입: ");
                        s.append(t.as_str());
                        s.append("]");
                    },
                    None => {},
                }
                match raw_data {
                    Some(d) => {
                        s.append(" [데이터 크기: ");
                        let n = u64_to_decimal(d.len() as u64);
                        s.append(n.as_str());
                        s.append("바이트]");
                    },
                    None => {},
                }
                s.append(": ");
                s.append(message.as_str());
                s
            },
            TcpServerError::Heartbeat { client_id, operation, message } => {
                let mut s = <String as StringExecFns>::from_str("하트비트 에러");
                push_client(&mut s, *client_id);
                s.append(" [작업: ");
                s.append(operation.as_str());
                s.append("]: ");
                s.append(message.as_str());
                s
            },
            TcpServerError::Service { service_name, operation, message } => {
                let mut s = <String as StringExecFns>::from_str("서비스 에러 [");
                s.append(service_name.as_str());
                s.append("] [작업: ");
                s.append(operation.as_str());
                s.append("]: ");
                s.append(message.as_str());
                s
            },
            TcpServerError::Network { addr, operation, message } => {
                let mut s = <String as StringExecFns>::from_str("네트워크 에러");
                push_bracket(&mut s, addr);
                s.append(" [작업: ");
                s.append(operation.as_str());
                s.append("]: ");
                s.append(message.as_str());
                s
            },
            TcpServerError::Serialization { data_type, message } => {
                let mut s = <String as StringExecFns>::from_str("직렬화 에러 [타입: ");
                s.append(data_type.as_str());
                s.append("]: ");
                s.append(message.as_str());
                s
            },
            TcpServerError::Configuration { key, message } => {
                let mut s = <String as StringExecFns>::from_str("설정 에러 [키: ");
                s.append(key.as_str());
                s.append("]: ");
                s.append(message.as_str());
                s
            },
            TcpServerError::Internal { component, message } => {
                let mut s = <String as StringExecFns>::from_str("내부 에러 [컴포넌트: ");
                s.append(component.as_str());
                s.append("]: ");
                s.append(message.as_str());
                s
            },
        }
    }

    /// A connection error.
    pub fn connection_error(client_id: Option<u32>, addr: Option<String>, message: &str) -> (e: Self)
        ensures
            e matches TcpServerError::Connection { client_id: c, addr: a, message: m } && c
                == client_id && a == addr && m@ == message@,
    {
        TcpServerError::Connection {
            client_id,
            addr,
            message: <String as StringExecFns>::from_str(message),
        }
    }

    /// A protocol error without raw data.
    pub fn protocol_error(message_type: Option<String>, message: &str) -> (e: Self)
        ensures
            e matches TcpServerError::Protocol { message_type: t, raw_data: d, message: m } && t
                == message_type && d is None && m@ == message@,
    {
        TcpServerError::Protocol {
            message_type,
            raw_data: None,
            message: <String as StringExecFns>::from_str(message),
        }
    }

    /// A heartbeat error.
    pub fn heartbeat_error(client_id: Option<u32>, operation: &str, message: &str) -> (e: Self)
        ensures
            e matches TcpServerError::Heartbeat { client_id: c, operation: o, message: m } && c
                == client_id && o@ == operation@ && m@ == message@,
    {
        TcpServerError::Heartbeat {
            client_id,
            operation: <String as StringExecFns>::from_str(operation),
            message: <String as StringExecFns>::from_str(message),
        }
    }

    /// A service error.
    pub fn service_error(service_name: &str, operation: &str, message: &str) -> (e: Self)
        ensures
            e matches TcpServerError::Service { service_name: n, operation: o, message: m } && n@
                == service_name@ && o@ == operation@ && m@ == message@,
    {
        TcpServerError::Service {
            service_name: <String as StringExecFns>::from_str(service_name),
            operation: <String as StringExecFns>::from_str(operation),
            message: <String as StringExecFns>::from_str(message),
        }
    }

    /// A network error.
    pub fn network_error(addr: Option<String>, operation: &str, message: &str) -> (e: Self)
        ensures
            e matches TcpServerError::Network { addr: a, operation: o, message: m } && a == addr
                && o@ == operation@ && m@ == message@,
    {
        TcpServerError::Network {
            addr,
            operation: <String as StringExecFns>::from_str(operation),
            message: <String as StringExecFns>::from_str(message),
        }
    }
}

} // verus!

verus! {

/// The line logged for an error: `[component] [operation] error`.
pub open spec fn log_message(c: ErrorContext) -> Seq<char> {
    "["@ + c.component@ + "] ["@ + c.operation@ + "] "@ + error_display(c.error)
}

/// The lines logged for an error of each severity.
pub open spec fn log_lines_for(c: ErrorContext) -> Seq<(LogLevel, Seq<char>)> {
    match c.severity {
        ErrorSeverity::Info => seq![(LogLevel::Info, log_message(c))],
        ErrorSeverity::Warning => seq![(LogLevel::Warn, log_message(c))],
        ErrorSeverity::Error => seq![(LogLevel::Error, log_message(c))],
        ErrorSeverity::Critical => seq![
            (LogLevel::Error, "🚨 CRITICAL: "@ + log_message(c)),
            (LogLevel::Error, "시스템 안정성에 영향을 줄 수 있는 심각한 문제입니다!"@),
        ],
    }
}

/// The recovery note for an error: cleaning up or resetting the named
/// client, or weighing a service restart; nothing for the other errors.
pub open spec fn recovery_for(e: TcpServerError) -> Option<(LogLevel, Seq<char>)> {
    match e {
        TcpServerError::Connection { client_id: Some(id), .. } => Some(
            (LogLevel::Info, "클라이언트 "@ + decimal(id as nat) + " 연결 정리 중..."@),
        ),
        TcpServerError::Heartbeat { client_id: Some(id), .. } => Some(
            (LogLevel::Info, "클라이언트 "@ + decimal(id as nat) + " 하트비트 상태 리셋 시도"@),
        ),
        TcpServerError::Service { service_name, .. } => Some(
            (LogLevel::Info, "서비스 "@ + service_name@ + " 재시작 검토 필요"@),
        ),
        _ => None,
    }
}

pub open spec fn line_view(l: LogLine) -> (LogLevel, Seq<char>) {
    (l.level, l.text@)
}

/// The error kinds that `from_anyhow` maps a category name to.
pub open spec fn kind_for_category(error_type: Seq<char>) -> nat {
    if error_type == "connection"@ {
        0
    } else if error_type == "protocol"@ {
        1
    } else if error_type == "heartbeat"@ {
        2
    } else if error_type == "service"@ {
        3
    } else if error_type == "network"@ {
        4
    } else {
        7
    }
}

/// A number for each error kind, in declaration order.
pub open spec fn error_kind(e: TcpServerError) -> nat {
    match e {
        TcpServerError::Connection { .. } => 0,
        TcpServerError::Protocol { .. } => 1,
        TcpServerError::Heartbeat { .. } => 2,
        TcpServerError::Service { .. } => 3,
        TcpServerError::Network { .. } => 4,
        TcpServerError::Serialization { .. } => 5,
        TcpServerError::Configuration { .. } => 6,
        TcpServerError::Internal { .. } => 7,
    }
}

/// The error `from_error_message` builds: the kind named by the category,
/// `message` as its text, no client, address or data, "unknown" as the
/// operation, and `component` as the service or component name.
pub open spec fn categorized_error(
    message: Seq<char>,
    error_type: Seq<char>,
    component: Seq<char>,
    e: TcpServerError,
) -> bool {
    &&& error_kind(e) == kind_for_category(error_type)
    &&& match e {
        TcpServerError::Connection { client_id, addr, message: m } => client_id is None && addr is None
            && m@ == message,
        TcpServerError::Protocol { message_type, raw_data, message: m } => message_type is None
            && raw_data is None && m@ == message,
        TcpServerError::Heartbeat { client_id, operation, message: m } => client_id is None
            && operation@ == "unknown"@ && m@ == message,
        TcpServerError::Service { service_name, operation, message: m } => service_name@
            == component && operation@ == "unknown"@ && m@ == message,
        TcpServerError::Network { addr, operation, message: m } => addr is None && operation@
            == "unknown"@ && m@ == message,
        TcpServerError::Internal { component: c, message: m } => c@ == component && m@ == message,
        _ => false,
    }
}

/// The error handler.
pub struct ErrorHandler;

impl ErrorHandler {
    /// Records an error: stamps it with the current time and returns the
    /// lines to log for its severity and the recovery note.
    pub fn handle_error(
        error: TcpServerError,
        severity: ErrorSeverity,
        component: &str,
        operation: &str,
    ) -> (r: ErrorReport)
        ensures
            r.context.error == error,
            r.context.severity == severity,
            r.context.component@ == component@,
            r.context.operation@ == operation@,
            r.context.additional_info is None,
            r.log_lines@.map_values(|l: LogLine| line_view(l)) == log_lines_for(r.context),
            match r.recovery {
                Some(l) => recovery_for(error) == Some(line_view(l)),
                None => recovery_for(error) is None,
            },
    {
        let context = ErrorContext {
            error,
            severity,
            timestamp: SimpleUtils::current_timestamp(),
            component: <String as StringExecFns>::from_str(component),
            operation: <String as StringExecFns>::from_str(operation),
            additional_info: None,
        };
        let log_lines = Self::log_error(&context);
        let recovery = Self::maybe_recover(&context);
        ErrorReport { context, log_lines, recovery }
    }

    /// The lines to log for an error: one at the severity's level, or for a
    /// critical error two error lines, the first marked critical.
    pub fn log_error(context: &ErrorContext) -> (lines: Vec<LogLine>)
        ensures
            lines@.map_values(|l: LogLine| line_view(l)) == log_lines_for(*context),
    {
        let mut msg = <String as StringExecFns>::from_str("[");
        msg.append(context.component.as_str());
        msg.append("] [");
        msg.append(context.operation.as_str());
        msg.append("] ");
        let shown = context.error.to_string();
        msg.append(shown.as_str());
        assert(msg@ == log_message(*context));
        let mut lines: Vec<LogLine> = Vec::new();
        match context.severity {
            ErrorSeverity::Info => {
                lines.push(LogLine { level: LogLevel::Info, text: msg });
            },
            ErrorSeverity::Warning => {
                lines.push(LogLine { level: LogLevel::Warn, text: msg });
            },
            ErrorSeverity::Error => {
                lines.push(LogLine { level: LogLevel::Error, text: msg });
            },
            ErrorSeverity::Critical => {
                let mut first = <String as StringExecFns>::from_str("🚨 CRITICAL: ");
                first.append(msg.as_str());
                lines.push(LogLine { level: LogLevel::Error, text: first });
                lines.push(
                    LogLine {
                        level: LogLevel::Error,
                        text: <String as StringExecFns>::from_str(
                            "시스템 안정성에 영향을 줄 수 있는 심각한 문제입니다!",
                        ),
                    },
                );
            },
        }
        assert(lines@.map_values(|l: LogLine| line_view(l)) =~= log_lines_for(*context));
        lines
    }

    /// The recovery note for an error, if its kind has one.
    pub fn maybe_recover(context: &ErrorContext) -> (r: Option<LogLine>)
        ensures
            match r {
                Some(l) => recovery_for(context.error) == Some(line_view(l)),
                None => recovery_for(context.error) is None,
            },
    {
        match &context.error {
            TcpServerError::Connection { client_id: Some(id), .. } => {
                let mut s = <String as StringExecFns>::from_str("클라이언트 ");
                let d = u64_to_decimal(*id as u64);
                s.append(d.as_str());
                s.append(" 연결 정리 중...");
                Some(LogLine { level: LogLevel::Info, text: s })
            },
            TcpServerError::Heartbeat { client_id: Some(id), .. } => {
                let mut s = <String as StringExecFns>::from_str("클라이언트 ");
                let d = u64_to_decimal(*id as u64);
                s.append(d.as_str());
                s.append(" 하트비트 상태 리셋 시도");
                Some(LogLine { level: LogLevel::Info, text: s })
            },
            TcpServerError::Service { service_name, .. } => {
                let mut s = <String as StringExecFns>::from_str("서비스 ");
                s.append(service_name.as_str());
                s.append(" 재시작 검토 필요");
                Some(LogLine { level: LogLevel::Info, text: s })
            },
            _ => None,
        }
    }

    /// Builds an error of the kind named by `error_type` ("connection",
    /// "protocol", "heartbeat", "service", "network"; anything else is
    /// internal) around a message text.
    pub fn from_error_message(message: String, error_type: &str, component: &str) -> (e: TcpServerError)
        ensures
            categorized_error(message@, error_type@, component@, e),
    {
        if str_equals(error_type, "connection") {
            TcpServerError::Connection { client_id: None, addr: None, message }
        } else if str_equals(error_type, "protocol") {
            TcpServerError::Protocol { message_type: None, raw_data: None, message }
        } else if str_equals(error_type, "heartbeat") {
            TcpServerError::Heartbeat {
                client_id: None,
                operation: <String as StringExecFns>::from_str("unknown"),
                message,
            }
        } else if str_equals(error_type, "service") {
            TcpServerError::Service {
                service_name: <String as StringExecFns>::from_str(component),
                operation: <String as StringExecFns>::from_str("unknown"),
                message,
            }
        } else if str_equals(error_type, "network") {
            TcpServerError::Network {
                addr: None,
                operation: <String as StringExecFns>::from_str("unknown"),
                message,
            }
        } else {
            TcpServerError::Internal {
                component: <String as StringExecFns>::from_str(component),
                message,
            }
        }
    }

    /// Converts an `anyhow::Error` into the kind named by `error_type`, with
    /// the error's rendering as message (see `from_error_message`).
    pub fn from_anyhow(err: anyhow::Error, error_type: &str, component: &str) -> (e: TcpServerError)
        ensures
            exists|m: Seq<char>| categorized_error(m, error_type@, component@, e),
    {
        let message = anyhow_error_text(&err);
        Self::from_error_message(message, error_type, component)
    }
}

/// Whether two strings hold the same text.
fn str_equals(a: &str, b: &str) -> (r: bool)
    ensures
        r == (a@ == b@),
{
    let x = <String as StringExecFns>::from_str(a);
    let y = <String as StringExecFns>::from_str(b);
    x == y
}

/// The outside error type of `anyhow`, carried through opaquely.
#[verifier::external_type_specification]
#[verifier::external_body]
pub struct ExAnyhowError(anyhow::Error);

/// The standard library's I/O error, carried through opaquely.
#[verifier::external_type_specification]
#[verifier::external_body]
pub struct ExIoError(std::io::Error);

/// The outside error type of `serde_json`, carried through opaquely.
#[verifier::external_type_specification]
#[verifier::external_body]
pub struct ExJsonError(serde_json::Error);

/// `anyhow::Error`'s `Display` text (`to_string`). The text depends on how
/// the error was built, which the opaque type does not show: nothing is
/// stated of it.
#[verifier::external_body]
fn anyhow_error_text(err: &anyhow::Error) -> String {
    err.to_string()
}

/// `std::io::Error`'s `Display` text (`to_string`); nothing is stated of it.
#[verifier::external_body]
pub(crate) fn io_error_text(err: &std::io::Error) -> String {
    err.to_string()
}

/// `serde_json::Error`'s `Display` text (`to_string`); nothing is stated of it.
#[verifier::external_body]
fn json_error_text(err: &serde_json::Error) -> String {
    err.to_string()
}

impl From<std::io::Error> for TcpServerError {
    /// A network error of the "io_operation" operation with the I/O error's text.
    fn from(err: std::io::Error) -> (r: Self)
        ensures
            r matches TcpServerError::Network { addr, operation, .. } && addr is None
                && operation@ == "io_operation"@,
    {
        let message = io_error_text(&err);
        TcpServerError::Network {
            addr: None,
            operation: <String as StringExecFns>::from_str("io_operation"),
            message,
        }
    }
}

impl FromSpecImpl<std::io::Error> for TcpServerError {
    open spec fn obeys_from_spec() -> bool {
        false
    }

    open spec fn from_spec(v: std::io::Error) -> Self {
        arbitrary()
    }
}

impl From<serde_json::Error> for TcpServerError {
    /// A serialization error of the "json" data type with the JSON error's text.
    fn from(err: serde_json::Error) -> (r: Self)
        ensures
            r matches TcpServerError::Serialization { data_type, .. } && data_type@ == "json"@,
    {
        let message = json_error_text(&err);
        TcpServerError::Serialization {
            data_type: <String as StringExecFns>::from_str("json"),
            message,
        }
    }
}

impl FromSpecImpl<serde_json::Error> for TcpServerError {
    open spec fn obeys_from_spec() -> bool {
        false
    }

    open spec fn from_spec(v: serde_json::Error) -> Self {
        arbitrary()
    }
}

} // verus!
