//! The listening socket: which one to serve on, and the loopback gate on it.

use vstd::prelude::*;

use crate::fault::{fails_with, Fault, FaultView, Kind};
use crate::text::{debug_text, decimal, digits, quoted, reports};

verus! {

/// An IP address: four octets, or eight 16-bit segments.
#[derive(Clone, Copy, Debug, PartialEq, Eq)]
pub enum IpAddr {
    V4([u8; 4]),
    V6([u16; 8]),
}

/// A socket address.
pub struct SocketAddr {
    pub ip: IpAddr,
    /// The address and the port, as messages show them.
    pub text: String,
}

/// A loopback address: 127.0.0.0/8, or ::1.
pub open spec fn loopback(ip: IpAddr) -> bool {
    match ip {
        IpAddr::V4(octets) => octets@[0] == 127,
        IpAddr::V6(segments) => {
            &&& segments@[7] == 1
            &&& forall|i: int| 0 <= i < 7 ==> #[trigger] segments@[i] == 0
        },
    }
}

/// Whether an address is a loopback one.
pub fn is_loopback(ip: &IpAddr) -> (r: bool)
    ensures
        r == loopback(*ip),
{
    match ip {
        IpAddr::V4(octets) => octets[0] == 127,
        IpAddr::V6(segments) => {
            let mut i: usize = 0;
            while i < 7
                invariant
                    i <= 7,
                    *ip == IpAddr::V6(*segments),
                    forall|j: int| 0 <= j < i ==> #[trigger] segments@[j] == 0,
                decreases 7 - i,
            {
                if segments[i] != 0 {
                    assert(segments@[i as int] != 0);
                    return false;
                }
                i += 1;
            }
            segments[7] == 1
        },
    }
}

/// Why an address is not served on.
pub open spec fn loopback_fault(addr: SocketAddr, allow_non_loopback: bool) -> Option<Seq<char>> {
    if loopback(addr.ip) || allow_non_loopback {
        None
    } else {
        Some(
            "refusing to serve on "@ + addr.text@
                + ": this binary expects loopback-only ingress behind a TLS reverse proxy (it does no TLS, rate limiting, or IP allowlisting itself). Set ALLOW_NON_LOOPBACK_BIND=1 to override, only when an external network policy guarantees nothing untrusted can reach the listener."@,
        )
    }
}

/// The loopback gate, for a socket that is bound here and for one that is handed
/// over: an address passes if it is a loopback one or the override is set.
pub fn check_loopback(addr: &SocketAddr, allow_non_loopback: bool) -> (r: Result<(), String>)
    ensures
        reports(r, loopback_fault(*addr, allow_non_loopback)),
{
    if is_loopback(&addr.ip) || allow_non_loopback {
        return Ok(());
    }
    let mut text = "refusing to serve on ".to_owned();
    text.append(addr.text.as_str());
    text.append(
        ": this binary expects loopback-only ingress behind a TLS reverse proxy (it does no TLS, rate limiting, or IP allowlisting itself). Set ALLOW_NON_LOOPBACK_BIND=1 to override, only when an external network policy guarantees nothing untrusted can reach the listener.",
    );
    Err(text)
}

/// Why an environment variable has no value.
#[derive(Clone, Copy, Debug, PartialEq, Eq, Structural)]
pub enum VarError {
    NotPresent,
    NotUnicode,
}

/// How to obtain the listening socket.
#[derive(Debug, PartialEq, Eq)]
pub enum SocketMode {
    /// Take over the socket that launchd holds under this name.
    Activate(String),
    /// Bind one.
    SelfBind,
}

/// The variable as a model: its value, or why it has none.
pub open spec fn var_view(var: Result<String, VarError>) -> Result<Seq<char>, VarError> {
    match var {
        Ok(value) => Ok(value@),
        Err(error) => Err(error),
    }
}

/// Why a value of `LAUNCHD_SOCKET_NAME` is refused.
pub open spec fn socket_name_fault(var: Result<Seq<char>, VarError>) -> Option<Seq<char>> {
    match var {
        Ok(name) => if name.len() == 0 {
            Some(
                "LAUNCHD_SOCKET_NAME is set but empty. Unset it to bind LISTEN_ADDR yourself, or set it to the key of the plist's `Sockets` entry."@,
            )
        } else {
            None
        },
        Err(VarError::NotPresent) => None,
        Err(VarError::NotUnicode) => Some(
            "LAUNCHD_SOCKET_NAME is set to a non-UTF-8 value; it must be the plist's `Sockets` entry key."@,
        ),
    }
}

/// Reads `LAUNCHD_SOCKET_NAME`. Only a variable that is not set leads to binding a
/// socket: one that is set and unusable is refused, never passed over.
pub fn socket_mode(var: Result<String, VarError>) -> (r: Result<SocketMode, String>)
    ensures
        reports(r, socket_name_fault(var_view(var))),
        match r {
            Ok(SocketMode::Activate(name)) => var_view(var) == Ok::<Seq<char>, VarError>(name@),
            Ok(SocketMode::SelfBind) => var_view(var) == Err::<Seq<char>, VarError>(
                VarError::NotPresent,
            ),
            Err(_) => true,
        },
{
    match var {
        Ok(name) => {
            if name.as_str().is_empty() {
                Err(
                    "LAUNCHD_SOCKET_NAME is set but empty. Unset it to bind LISTEN_ADDR yourself, or set it to the key of the plist's `Sockets` entry.".to_owned(),
                )
            } else {
                Ok(SocketMode::Activate(name))
            }
        },
        Err(VarError::NotPresent) => Ok(SocketMode::SelfBind),
        Err(VarError::NotUnicode) => Err(
            "LAUNCHD_SOCKET_NAME is set to a non-UTF-8 value; it must be the plist's `Sockets` entry key.".to_owned(),
        ),
    }
}

/// Why launchd cannot be asked for a name.
pub open spec fn nul_fault(name: Seq<char>) -> Option<Seq<char>> {
    if name.contains('\0') {
        Some(
            "LAUNCHD_SOCKET_NAME "@ + debug_text(name) + " contains an interior NUL byte"@,
        )
    } else {
        None
    }
}

/// Refuses a name that cannot be handed to launchd.
pub fn check_socket_name(name: &str) -> (r: Result<(), Fault>)
    ensures
        r is Err <==> name@.contains('\0'),
        r matches Err(e) ==> e.kind == Kind::InvalidInput && nul_fault(name@) == Some(e.text@),
{
    for c in it: name.chars()
        invariant
            it.seq() == name@,
            forall|i: int| 0 <= i < it.index() ==> #[trigger] name@[i] != '\0',
    {
        if c == '\0' {
            assert(name@[it.index() as int] == '\0');
            let mut text = "LAUNCHD_SOCKET_NAME ".to_owned();
            text.append(quoted(name).as_str());
            text.append(" contains an interior NUL byte");
            return Err(Fault { kind: Kind::InvalidInput, text });
        }
    }
    Ok(())
}

/// Why what launchd gave for a name yields no descriptors: its own error, or that it
/// reported success and gave none.
pub open spec fn activation_fault(code: i32, code_text: Seq<char>, fds: Seq<i32>) -> Option<
    FaultView,
> {
    if code != 0 {
        Some(FaultView { kind: Kind::Os(code), text: code_text })
    } else if fds.len() == 0 {
        Some(
            FaultView {
                kind: Kind::Other,
                text: "launch_activate_socket reported success but returned no descriptors"@,
            },
        )
    } else {
        None
    }
}

/// The descriptors that launchd gave, from its return code, the text of that as an
/// error, and the list that it filled.
pub fn activated(code: i32, code_text: &str, fds: Vec<i32>) -> (r: Result<Vec<i32>, Fault>)
    ensures
        fails_with(r, activation_fault(code, code_text@, fds@)),
        r matches Ok(out) ==> out@ == fds@,
        code != 0 ==> (r matches Err(e) && e.kind == Kind::Os(code) && e.text@ == code_text@),
{
    if code != 0 {
        Err(Fault { kind: Kind::Os(code), text: code_text.to_owned() })
    } else if fds.len() == 0 {
        Err(
            Fault {
                kind: Kind::Other,
                text: "launch_activate_socket reported success but returned no descriptors".to_owned(),
            },
        )
    } else {
        Ok(fds)
    }
}

/// Why the sockets that launchd holds under a name cannot be served on. A failed
/// activation keeps the kind of its error.
pub open spec fn single_fault(name: Seq<char>, fds: Result<Vec<i32>, Fault>) -> Option<FaultView> {
    match fds {
        Err(e) => Some(
            FaultView {
                kind: e.kind,
                text: "launch_activate_socket("@ + debug_text(name) + ") failed: "@ + e.text@
                    + ". Is the process running under launchd with a `Sockets` entry keyed "@
                    + debug_text(name) + "? LAUNCHD_SOCKET_NAME must match that key exactly."@,
            },
        ),
        Ok(fds) => if fds@.len() != 1 {
            Some(
                FaultView {
                    kind: Kind::Other,
                    text: "expected exactly one activated socket named "@ + debug_text(name)
                        + ", got "@ + digits(fds@.len(), 10)
                        + ". Configure a single `Sockets` entry with SockType stream bound to a numeric loopback address (e.g. SockNodeName 127.0.0.1); a hostname resolving to both IPv4 and IPv6 yields two."@,
                },
            )
        } else {
            None
        },
    }
}

/// The one socket that launchd holds under a name. Any other number of them is
/// refused: a single listener is served.
pub fn single_socket(name: &str, fds: &Result<Vec<i32>, Fault>) -> (r: Result<i32, Fault>)
    ensures
        fails_with(r, single_fault(name@, *fds)),
        r matches Ok(fd) ==> fds->Ok_0@ == seq![fd],
        fds matches Err(e) ==> (r matches Err(f) && f.kind == e.kind),
{
    match fds {
        Err(error) => {
            let shown = quoted(name);
            let mut text = "launch_activate_socket(".to_owned();
            text.append(shown.as_str());
            text.append(") failed: ");
            text.append(error.text.as_str());
            text.append(". Is the process running under launchd with a `Sockets` entry keyed ");
            text.append(shown.as_str());
            text.append("? LAUNCHD_SOCKET_NAME must match that key exactly.");
            Err(Fault { kind: error.kind, text })
        },
        Ok(fds) => {
            if fds.len() != 1 {
                let mut text = "expected exactly one activated socket named ".to_owned();
                text.append(quoted(name).as_str());
                text.append(", got ");
                text.append(decimal(fds.len() as u64).as_str());
                text.append(
                    ". Configure a single `Sockets` entry with SockType stream bound to a numeric loopback address (e.g. SockNodeName 127.0.0.1); a hostname resolving to both IPv4 and IPv6 yields two.",
                );
                Err(Fault { kind: Kind::Other, text })
            } else {
                Ok(fds[0])
            }
        },
    }
}

} // verus!
