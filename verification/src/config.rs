//! Server settings: defaults for unset or unreadable values, the addresses
//! derived from them, and their validation.

use vstd::prelude::*;
use vstd::string::*;
use crate::text::{u64_to_decimal, decimal};

verus! {

/// The value of decimal digits, most significant first.
pub open spec fn decimal_digits_value(t: Seq<char>) -> Option<nat>
    decreases t.len(),
{
    if t.len() == 0 {
        Some(0)
    } else {
        let c = t.last();
        if '0' <= c && c <= '9' {
            match decimal_digits_value(t.drop_last()) {
                Some(h) => Some(h * 10 + ((c as u32) - ('0' as u32)) as nat),
                None => None,
            }
        } else {
            None
        }
    }
}

/// What `str::parse::<u16>` gives: an optional leading '+', then one or more
/// decimal digits whose value fits in 16 bits.
pub open spec fn parse_u16_spec(t: Seq<char>) -> Option<u16> {
    let digits = if t.len() > 0 && t[0] == '+' {
        t.drop_first()
    } else {
        t
    };
    if digits.len() == 0 {
        None
    } else {
        match decimal_digits_value(digits) {
            Some(v) => if v <= 0xffff {
                Some(v as u16)
            } else {
                None
            },
            None => None,
        }
    }
}

/// A character that is not a decimal digit makes the digits unreadable.
proof fn lemma_non_digit_refused(t: Seq<char>, k: int)
    requires
        0 <= k < t.len(),
        !('0' <= t[k] && t[k] <= '9'),
    ensures
        decimal_digits_value(t) is None,
    decreases t.len(),
{
    if k < t.len() - 1 {
        lemma_non_digit_refused(t.drop_last(), k);
    }
}

/// Reading more digits never gives a smaller value.
proof fn lemma_prefix_bounds_value(t: Seq<char>, i: int, w: nat)
    requires
        0 <= i <= t.len(),
        decimal_digits_value(t.subrange(0, i)) == Some(w),
    ensures
        decimal_digits_value(t) matches Some(x) ==> x >= w,
    decreases t.len(),
{
    if i == t.len() {
        assert(t.subrange(0, i) =~= t);
    } else {
        assert(t.drop_last().subrange(0, i) =~= t.subrange(0, i));
        lemma_prefix_bounds_value(t.drop_last(), i, w);
    }
}

/// Reads a port number from text, as `str::parse::<u16>` accepts it: an
/// optional '+', then one or more decimal digits whose value fits in 16
/// bits.
pub fn parse_port(text: &str) -> (r: Option<u16>)
    ensures
        r == parse_u16_spec(text@),
{
    let n: usize = text.unicode_len();
    let mut start: usize = 0;
    if n > 0 && text.get_char(0) == '+' {
        start = 1;
    }
    let ghost digits = text@.subrange(start as int, n as int);
    proof {
        if start == 1 {
            assert(digits =~= text@.drop_first());
        } else {
            assert(digits =~= text@);
        }
    }
    if start == n {
        return None;
    }
    let mut v: u32 = 0;
    let mut i: usize = start;
    assert(text@.subrange(start as int, start as int) =~= Seq::<char>::empty());
    assert(parse_u16_spec(text@) == match decimal_digits_value(digits) {
        Some(x) => if x <= 0xffff { Some(x as u16) } else { None },
        None => None,
    });
    while i < n
        invariant
            start <= i <= n,
            n == text@.len(),
            v <= 0xffff,
            digits == text@.subrange(start as int, n as int),
            parse_u16_spec(text@) == match decimal_digits_value(digits) {
                Some(x) => if x <= 0xffff { Some(x as u16) } else { None },
                None => None,
            },
            decimal_digits_value(text@.subrange(start as int, i as int)) == Some(v as nat),
        decreases n - i,
    {
        let c = text.get_char(i);
        let code = c as u32;
        proof {
            assert(digits[i - start] == c);
        }
        if code < 48 || code > 57 {
            proof {
                lemma_non_digit_refused(digits, i - start);
            }
            return None;
        }
        let ghost prefix = text@.subrange(start as int, i + 1);
        proof {
            assert(prefix.drop_last() =~= text@.subrange(start as int, i as int));
            assert(prefix.last() == c);
        }
        v = v * 10 + (code - 48);
        i = i + 1;
        if v > 0xffff {
            proof {
                assert(digits.subrange(0, i - start) =~= prefix);
                lemma_prefix_bounds_value(digits, i - start, v as nat);
            }
            return None;
        }
    }
    proof {
        assert(text@.subrange(start as int, n as int) == digits);
    }
    Some(v as u16)
}

/// The settings of the game server, of Redis and of the gRPC service.
#[derive(Debug, Clone)]
pub struct TcpServerConfig {
    pub host: String,
    pub port: u16,
    pub redis_host: String,
    pub redis_port: u16,
    pub grpc_host: String,
    pub grpc_port: u16,
}

/// Why settings were refused.
#[derive(Debug, Clone, Copy, PartialEq, Eq)]
pub enum ConfigError {
    InvalidTcpPort,
    InvalidRedisPort,
    InvalidGrpcPort,
    EmptyTcpHost,
    EmptyRedisHost,
    EmptyGrpcHost,
}

/// The first failing check, in the order: the three ports, then the three hosts.
pub open spec fn config_check(c: TcpServerConfig) -> Result<(), ConfigError> {
    if c.port == 0 {
        Err(ConfigError::InvalidTcpPort)
    } else if c.redis_port == 0 {
        Err(ConfigError::InvalidRedisPort)
    } else if c.grpc_port == 0 {
        Err(ConfigError::InvalidGrpcPort)
    } else if c.host@.len() == 0 {
        Err(ConfigError::EmptyTcpHost)
    } else if c.redis_host@.len() == 0 {
        Err(ConfigError::EmptyRedisHost)
    } else if c.grpc_host@.len() == 0 {
        Err(ConfigError::EmptyGrpcHost)
    } else {
        Ok(())
    }
}

/// A host setting: the value if set, else "127.0.0.1".
pub open spec fn host_or_default(v: Option<String>) -> Seq<char> {
    match v {
        Some(s) => s@,
        None => "127.0.0.1"@,
    }
}

/// A port setting: the value if set and readable as a port, else the default.
pub open spec fn port_or_default(v: Option<String>, default: u16) -> u16 {
    match v {
        Some(s) => match parse_u16_spec(s@) {
            Some(p) => p,
            None => default,
        },
        None => default,
    }
}

fn host_setting(v: Option<String>) -> (s: String)
    ensures
        s@ == host_or_default(v),
{
    match v {
        Some(s) => s,
        None => <String as StringExecFns>::from_str("127.0.0.1"),
    }
}

fn port_setting(v: Option<String>, default: u16) -> (p: u16)
    ensures
        p == port_or_default(v, default),
{
    match v {
        Some(s) => match parse_port(s.as_str()) {
            Some(p) => p,
            None => default,
        },
        None => default,
    }
}

/// Checks the settings; the result is `config_check(*config)`.
pub fn validate_config(config: &TcpServerConfig) -> (r: Result<(), ConfigError>)
    ensures
        r == config_check(*config),
{
    if config.port == 0 {
        return Err(ConfigError::InvalidTcpPort);
    }
    if config.redis_port == 0 {
        return Err(ConfigError::InvalidRedisPort);
    }
    if config.grpc_port == 0 {
        return Err(ConfigError::InvalidGrpcPort);
    }
    if config.host.as_str().is_empty() {
        return Err(ConfigError::EmptyTcpHost);
    }
    if config.redis_host.as_str().is_empty() {
        return Err(ConfigError::EmptyRedisHost);
    }
    if config.grpc_host.as_str().is_empty() {
        return Err(ConfigError::EmptyGrpcHost);
    }
    Ok(())
}

impl TcpServerConfig {
    /// Settings from optional raw values (as read from the environment):
    /// hosts default to "127.0.0.1", ports to 4000, 6379 and 50051 when unset
    /// or unreadable.
    pub fn from_values(
        host: Option<String>,
        port: Option<String>,
        redis_host: Option<String>,
        redis_port: Option<String>,
        grpc_host: Option<String>,
        grpc_port: Option<String>,
    ) -> (c: Self)
        ensures
            c.host@ == host_or_default(host),
            c.port == port_or_default(port, 4000),
            c.redis_host@ == host_or_default(redis_host),
            c.redis_port == port_or_default(redis_port, 6379),
            c.grpc_host@ == host_or_default(grpc_host),
            c.grpc_port == port_or_default(grpc_port, 50051),
    {
        TcpServerConfig {
            host: host_setting(host),
            port: port_setting(port, 4000),
            redis_host: host_setting(redis_host),
            redis_port: port_setting(redis_port, 6379),
            grpc_host: host_setting(grpc_host),
            grpc_port: port_setting(grpc_port, 50051),
        }
    }

    /// `host:port` of the game server.
    pub fn bind_address(&self) -> (s: String)
        ensures
            s@ == self.host@ + ":"@ + decimal(self.port as nat),
    {
        let mut s = self.host.clone();
        s.append(":");
        let p = u64_to_decimal(self.port as u64);
        s.append(p.as_str());
        s
    }

    /// `redis://host:port` of Redis.
    pub fn redis_address(&self) -> (s: String)
        ensures
            s@ == "redis://"@ + self.redis_host@ + ":"@ + decimal(self.redis_port as nat),
    {
        let mut s = <String as StringExecFns>::from_str("redis://");
        s.append(self.redis_host.as_str());
        s.append(":");
        let p = u64_to_decimal(self.redis_port as u64);
        s.append(p.as_str());
        s
    }

    /// `http://host:port` of the gRPC service.
    pub fn grpc_address(&self) -> (s: String)
        ensures
            s@ == "http://"@ + self.grpc_host@ + ":"@ + decimal(self.grpc_port as nat),
    {
        let mut s = <String as StringExecFns>::from_str("http://");
        s.append(self.grpc_host.as_str());
        s.append(":");
        let p = u64_to_decimal(self.grpc_port as u64);
        s.append(p.as_str());
        s
    }
}

} // verus!
