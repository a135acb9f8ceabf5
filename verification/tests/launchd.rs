use gh_webhook_spool::fault::{Fault, Kind};
use gh_webhook_spool::launchd::{
    activated, check_loopback, check_socket_name, single_socket, socket_mode, IpAddr, SocketAddr,
    SocketMode, VarError,
};

fn v4(octets: [u8; 4], port: u16) -> SocketAddr {
    let [a, b, c, d] = octets;
    SocketAddr {
        ip: IpAddr::V4(octets),
        text: format!("{a}.{b}.{c}.{d}:{port}"),
    }
}

fn v6(segments: [u16; 8], text: &str) -> SocketAddr {
    SocketAddr {
        ip: IpAddr::V6(segments),
        text: text.to_string(),
    }
}

#[test]
fn check_loopback_holds_iff_loopback_or_override() {
    let mut lcg: u64 = 0xda7a_1057_c0ff_ee01;
    let mut next = || {
        lcg = lcg
            .wrapping_mul(6364136223846793005)
            .wrapping_add(1442695040888963407);
        (lcg >> 33) as u32
    };
    for _ in 0..8000 {
        let octets = next().to_be_bytes();
        let addr = v4(octets, 8080);
        for allow in [false, true] {
            let expected = octets[0] == 127 || allow;
            assert_eq!(check_loopback(&addr, allow).is_ok(), expected);
        }
    }
}

#[test]
fn check_loopback_named_cases() {
    for a in [
        v4([127, 0, 0, 1], 8080),
        v4([127, 9, 9, 9], 1),
        v6([0, 0, 0, 0, 0, 0, 0, 1], "[::1]:8080"),
    ] {
        assert!(check_loopback(&a, false).is_ok());
        assert!(check_loopback(&a, true).is_ok());
    }
    for a in [
        v4([0, 0, 0, 0], 8080),
        v4([192, 0, 2, 7], 80),
        v6([0, 0, 0, 0, 0, 0, 0, 0], "[::]:443"),
        v6([0x2001, 0xdb8, 0, 0, 0, 0, 0, 1], "[2001:db8::1]:80"),
        v6([0, 0, 0, 0, 0, 0xffff, 0x7f00, 1], "[::ffff:127.0.0.1]:80"),
    ] {
        assert!(check_loopback(&a, false).is_err());
        assert!(check_loopback(&a, true).is_ok());
    }
    assert_eq!(
        check_loopback(&v4([192, 0, 2, 7], 80), false).unwrap_err(),
        "refusing to serve on 192.0.2.7:80: this binary expects loopback-only ingress behind a TLS reverse proxy (it does no TLS, rate limiting, or IP allowlisting itself). Set ALLOW_NON_LOOPBACK_BIND=1 to override, only when an external network policy guarantees nothing untrusted can reach the listener."
    );
}

#[test]
fn socket_mode_named_activates() {
    assert_eq!(
        socket_mode(Ok("Listener".to_string())),
        Ok(SocketMode::Activate("Listener".to_string()))
    );
}

#[test]
fn socket_mode_unset_self_binds() {
    assert_eq!(
        socket_mode(Err(VarError::NotPresent)),
        Ok(SocketMode::SelfBind)
    );
}

#[test]
fn socket_mode_present_but_empty_is_an_error() {
    assert!(socket_mode(Ok(String::new())).is_err());
}

#[test]
fn socket_mode_non_utf8_is_an_error() {
    assert!(socket_mode(Err(VarError::NotUnicode)).is_err());
}

fn fault(kind: Kind, text: &str) -> Fault {
    Fault {
        kind,
        text: text.to_string(),
    }
}

#[test]
fn exactly_one_activated_socket_is_taken() {
    assert_eq!(single_socket("L", &Ok(vec![3])), Ok(3));
    assert_eq!(
        single_socket("L", &Ok(vec![3, 4])),
        Err(fault(
            Kind::Other,
            "expected exactly one activated socket named \"L\", got 2. Configure a single `Sockets` entry with SockType stream bound to a numeric loopback address (e.g. SockNodeName 127.0.0.1); a hostname resolving to both IPv4 and IPv6 yields two."
        ))
    );
    assert!(single_socket("L", &Ok(vec![])).is_err());
    for kind in [Kind::Os(3), Kind::InvalidInput, Kind::Other] {
        assert_eq!(
            single_socket("L\"", &Err(fault(kind, "No such process"))),
            Err(fault(
                kind,
                "launch_activate_socket(\"L\\\"\") failed: No such process. Is the process running under launchd with a `Sockets` entry keyed \"L\\\"\"? LAUNCHD_SOCKET_NAME must match that key exactly."
            ))
        );
    }
}

#[test]
fn activation_fails_closed() {
    assert_eq!(activated(0, "", vec![5, 6]), Ok(vec![5, 6]));
    assert_eq!(
        activated(3, "No such process", vec![5]),
        Err(fault(Kind::Os(3), "No such process"))
    );
    assert_eq!(
        activated(0, "", vec![]),
        Err(fault(
            Kind::Other,
            "launch_activate_socket reported success but returned no descriptors"
        ))
    );
    assert!(check_socket_name("Listener").is_ok());
    assert_eq!(
        check_socket_name("a\0b"),
        Err(fault(
            Kind::InvalidInput,
            "LAUNCHD_SOCKET_NAME \"a\\0b\" contains an interior NUL byte"
        ))
    );
}

#[test]
fn launchd_activation_errors_without_a_matching_socket() {
    let name = "gh-webhook-spool-nonexistent-xyz";
    let fds = activated(3, "No such process (os error 3)", vec![]);
    let err = single_socket(name, &fds).expect_err("no such launchd socket must error");
    assert_eq!(err.kind, Kind::Os(3));
    assert!(
        err.text.contains("launch_activate_socket"),
        "error should name the failed call, got: {}",
        err.text
    );
}
