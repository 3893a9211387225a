//! Port validation, address classification and connection-quality grading.

use vstd::prelude::*;
use vstd::string::*;

verus! {

/// An IP address by its octets.
#[derive(Debug, Clone, Copy, PartialEq, Eq)]
pub enum IpAddress {
    V4([u8; 4]),
    V6([u8; 16]),
}

/// Why a port was refused.
#[derive(Debug, Clone, Copy, PartialEq, Eq)]
pub enum NetworkError {
    /// Port 0 cannot be bound.
    PortZero,
}

/// Connection quality by round-trip time.
#[derive(Debug, Clone, Copy, PartialEq, Eq)]
pub enum ConnectionQuality {
    /// Up to 50 ms.
    Excellent,
    /// 51 to 150 ms.
    Good,
    /// 151 to 300 ms.
    Fair,
    /// 301 to 1000 ms.
    Poor,
    /// Over 1000 ms.
    VeryPoor,
    /// No connection could be made.
    Disconnected,
}

/// Whether the address is a loopback address (127/8, or ::1).
pub open spec fn is_loopback_spec(ip: IpAddress) -> bool {
    match ip {
        IpAddress::V4(o) => o@[0] == 127,
        IpAddress::V6(o) => (forall|i: int| 0 <= i < 15 ==> o@[i] == 0) && o@[15] == 1,
    }
}

/// Whether the address is private: 10/8, 172.16/12, 192.168/16, or the IPv6
/// unique-local (fc00::/7) and link-local (fe80::/10) ranges.
pub open spec fn is_private_spec(ip: IpAddress) -> bool {
    match ip {
        IpAddress::V4(o) => o@[0] == 10 || (o@[0] == 172 && 16 <= o@[1] && o@[1] <= 31) || (o@[0]
            == 192 && o@[1] == 168),
        IpAddress::V6(o) => (o@[0] & 0xfe) == 0xfc || (o@[0] == 0xfe && (o@[1] & 0xc0) == 0x80),
    }
}

/// The grade for a connection attempt that took `elapsed_ms`.
pub open spec fn quality_for(connected: bool, elapsed_ms: u128) -> ConnectionQuality {
    if !connected {
        ConnectionQuality::Disconnected
    } else if elapsed_ms <= 50 {
        ConnectionQuality::Excellent
    } else if elapsed_ms <= 150 {
        ConnectionQuality::Good
    } else if elapsed_ms <= 300 {
        ConnectionQuality::Fair
    } else if elapsed_ms <= 1000 {
        ConnectionQuality::Poor
    } else {
        ConnectionQuality::VeryPoor
    }
}

fn v6_is_loopback(o: &[u8; 16]) -> (r: bool)
    ensures
        r == ((forall|i: int| 0 <= i < 15 ==> o@[i] == 0) && o@[15] == 1),
{
    let mut i: usize = 0;
    while i < 15
        invariant
            i <= 15,
            o@.len() == 16,
            forall|k: int| 0 <= k < i ==> o@[k] == 0,
        decreases 15 - i,
    {
        if o[i] != 0 {
            assert(o@[i as int] != 0);
            return false;
        }
        i = i + 1;
    }
    o[15] == 1
}

/// Network helpers.
pub struct NetworkUtils;

impl NetworkUtils {
    /// Accepts every port but 0; a system port is accepted too, and
    /// `is_privileged_port` tells the caller to warn of it.
    pub fn validate_port(port: u16) -> (r: Result<u16, NetworkError>)
        ensures
            port == 0 ==> r == Err::<u16, NetworkError>(NetworkError::PortZero),
            port != 0 ==> r == Ok::<u16, NetworkError>(port),
    {
        if port == 0 {
            Err(NetworkError::PortZero)
        } else {
            Ok(port)
        }
    }

    /// Whether an accepted port is a system port (1 to 1023), whose use
    /// may need privileges and deserves a warning.
    pub fn is_privileged_port(port: u16) -> (r: bool)
        ensures
            r == (1 <= port && port <= 1023),
    {
        1 <= port && port <= 1023
    }

    /// Whether the address is a loopback address.
    pub fn is_localhost(ip: &IpAddress) -> (r: bool)
        ensures
            r == is_loopback_spec(*ip),
    {
        match ip {
            IpAddress::V4(o) => o[0] == 127,
            IpAddress::V6(o) => v6_is_loopback(o),
        }
    }

    /// Whether the address is in a private range.
    pub fn is_private_ip(ip: &IpAddress) -> (r: bool)
        ensures
            r == is_private_spec(*ip),
    {
        match ip {
            IpAddress::V4(o) => o[0] == 10 || (o[0] == 172 && 16 <= o[1] && o[1] <= 31) || (o[0]
                == 192 && o[1] == 168),
            IpAddress::V6(o) => (o[0] & 0xfe) == 0xfc || (o[0] == 0xfe && (o[1] & 0xc0) == 0x80),
        }
    }

    /// Grades a connection attempt by whether it connected and how long it took.
    pub fn grade_connection(connected: bool, elapsed_ms: u128) -> (q: ConnectionQuality)
        ensures
            q == quality_for(connected, elapsed_ms),
    {
        if !connected {
            ConnectionQuality::Disconnected
        } else if elapsed_ms <= 50 {
            ConnectionQuality::Excellent
        } else if elapsed_ms <= 150 {
            ConnectionQuality::Good
        } else if elapsed_ms <= 300 {
            ConnectionQuality::Fair
        } else if elapsed_ms <= 1000 {
            ConnectionQuality::Poor
        } else {
            ConnectionQuality::VeryPoor
        }
    }
}

/// What is known of a client address.
#[derive(Debug, Clone)]
pub struct IpInfo {
    /// The address in its usual text form.
    pub address: String,
    pub is_localhost: bool,
    pub is_private: bool,
    /// "IPv4" or "IPv6".
    pub ip_version: String,
}

/// The version name of an address.
pub open spec fn version_name(ip: IpAddress) -> Seq<char> {
    match ip {
        IpAddress::V4(_) => "IPv4"@,
        IpAddress::V6(_) => "IPv6"@,
    }
}

impl IpInfo {
    /// The information for `ip`, whose text form is `address` (as the
    /// standard library prints it).
    pub fn from_ip(ip: &IpAddress, address: String) -> (r: IpInfo)
        ensures
            r.address@ == address@,
            r.is_localhost == is_loopback_spec(*ip),
            r.is_private == is_private_spec(*ip),
            r.ip_version@ == version_name(*ip),
    {
        let ip_version = match ip {
            IpAddress::V4(_) => <String as StringExecFns>::from_str("IPv4"),
            IpAddress::V6(_) => <String as StringExecFns>::from_str("IPv6"),
        };
        IpInfo {
            address,
            is_localhost: NetworkUtils::is_localhost(ip),
            is_private: NetworkUtils::is_private_ip(ip),
            ip_version,
        }
    }
}

} // verus!
