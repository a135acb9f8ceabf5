//! Laws of what the environment configures and of the listening socket, stated of what
//! the functions are given and what they return.

use std::collections::HashSet;

use vstd::prelude::*;

use crate::fault::{Fault, Kind};
use crate::launchd::{
    activated, check_loopback, check_socket_name, is_loopback, single_socket, socket_mode, IpAddr,
    SocketAddr, SocketMode, VarError,
};
use crate::startup::{
    check_lists, first_meta, law_path_is_accepted_exactly_where_literal, listen_addr,
    non_loopback_allowed, spool_root, validate_webhook_path, webhook_path,
};
use crate::text::debug_text;
use crate::text_laws::{lemma_digits_denote, numeral, well_formed_numeral};

verus! {

/// An address of 127.0.0.0/8, or ::1.
pub open spec fn stays_on_the_host(ip: IpAddr) -> bool {
    match ip {
        IpAddr::V4(octets) => octets@[0] == 127,
        IpAddr::V6(segments) => {
            &&& segments@[0] == 0
            &&& segments@[1] == 0
            &&& segments@[2] == 0
            &&& segments@[3] == 0
            &&& segments@[4] == 0
            &&& segments@[5] == 0
            &&& segments@[6] == 0
            &&& segments@[7] == 1
        },
    }
}

/// [`is_loopback`] tells whether the first octet is 127, or the segments are seven
/// zeros and a one.
pub proof fn law_loopback_is_127_or_one(ip: &IpAddr, r: bool)
    requires
        call_ensures(is_loopback, (ip,), r),
    ensures
        r <==> stays_on_the_host(*ip),
{
}

/// An address is served on exactly where it stays on the host or the override is set;
/// with the override every address is. A refusal names the address.
pub proof fn law_only_the_host_is_served(
    addr: &SocketAddr,
    allow_non_loopback: bool,
    r: Result<(), String>,
)
    requires
        call_ensures(check_loopback, (addr, allow_non_loopback), r),
    ensures
        r is Ok <==> stays_on_the_host(addr.ip) || allow_non_loopback,
        r matches Err(text) ==> text@ == "refusing to serve on "@ + addr.text@
            + ": this binary expects loopback-only ingress behind a TLS reverse proxy (it does no TLS, rate limiting, or IP allowlisting itself). Set ALLOW_NON_LOOPBACK_BIND=1 to override, only when an external network policy guarantees nothing untrusted can reach the listener."@,
{
}

/// A socket is bound exactly where the variable is not set, and taken over exactly where
/// it is a text that is not empty, under that name; anything else is refused.
pub proof fn law_socket_is_bound_only_where_none_is_named(
    var: Result<String, VarError>,
    r: Result<SocketMode, String>,
)
    requires
        call_ensures(socket_mode, (var,), r),
    ensures
        match r {
            Ok(SocketMode::SelfBind) => var matches Err(VarError::NotPresent),
            Ok(SocketMode::Activate(name)) => var matches Ok(value) && value@ == name@
                && value@.len() > 0,
            Err(text) => match var {
                Ok(value) => value@.len() == 0 && text@
                    == "LAUNCHD_SOCKET_NAME is set but empty. Unset it to bind LISTEN_ADDR yourself, or set it to the key of the plist's `Sockets` entry."@,
                Err(error) => error == VarError::NotUnicode && text@
                    == "LAUNCHD_SOCKET_NAME is set to a non-UTF-8 value; it must be the plist's `Sockets` entry key."@,
            },
        },
{
}

/// A name is refused exactly where one of its characters is NUL, as invalid input.
pub proof fn law_name_is_refused_exactly_for_a_nul(name: &str, r: Result<(), Fault>)
    requires
        call_ensures(check_socket_name, (name,), r),
    ensures
        r is Err <==> exists|i: int| 0 <= i < name@.len() && (#[trigger] name@[i]) as int == 0,
        r matches Err(e) ==> {
            &&& e.kind == Kind::InvalidInput
            &&& e.text@ == "LAUNCHD_SOCKET_NAME "@ + debug_text(name@)
                + " contains an interior NUL byte"@
        },
{
    if exists|i: int| 0 <= i < name@.len() && (#[trigger] name@[i]) as int == 0 {
        let i = choose|i: int| 0 <= i < name@.len() && (#[trigger] name@[i]) as int == 0;
        assert(name@[i] == '\0');
    }
    if name@.contains('\0') {
        let i = choose|i: int| 0 <= i < name@.len() && name@[i] == '\0';
        assert(name@[i] as int == 0);
    }
}

/// Descriptors come back exactly where the code is zero and there is at least one: all
/// of them, in their order. A code that is not zero is the error's.
pub proof fn law_activation_gives_all_descriptors_or_its_error(
    code: i32,
    code_text: &str,
    fds: Vec<i32>,
    r: Result<Vec<i32>, Fault>,
)
    requires
        call_ensures(activated, (code, code_text, fds), r),
    ensures
        r is Ok <==> code == 0 && fds@.len() > 0,
        r matches Ok(out) ==> out@ == fds@,
        r matches Err(e) ==> if code != 0 {
            e.kind == Kind::Os(code) && e.text@ == code_text@
        } else {
            e.kind == Kind::Other && e.text@
                == "launch_activate_socket reported success but returned no descriptors"@
        },
{
}

/// A socket is taken exactly where activation gave one descriptor, and it is that one. A
/// failed activation keeps its kind and its text; any other number is named.
pub proof fn law_one_socket_is_taken_or_none(
    name: &str,
    fds: &Result<Vec<i32>, Fault>,
    r: Result<i32, Fault>,
)
    requires
        call_ensures(single_socket, (name, fds), r),
    ensures
        r is Ok <==> (*fds matches Ok(list) && list@.len() == 1),
        r matches Ok(fd) ==> (*fds matches Ok(list) && list@[0] == fd),
        *fds matches Err(e) ==> (r matches Err(f) && f.kind == e.kind && f.text@
            == "launch_activate_socket("@ + debug_text(name@) + ") failed: "@ + e.text@
            + ". Is the process running under launchd with a `Sockets` entry keyed "@ + debug_text(
            name@,
        ) + "? LAUNCHD_SOCKET_NAME must match that key exactly."@),
        *fds matches Ok(list) ==> list@.len() != 1 ==> (r matches Err(f) && f.kind == Kind::Other
            && exists|count: Seq<char>|
            #![trigger well_formed_numeral(count, 10)]
            well_formed_numeral(count, 10) && numeral(count, 10) == list@.len() && f.text@
                == "expected exactly one activated socket named "@ + debug_text(name@) + ", got "@
                + count
                + ". Configure a single `Sockets` entry with SockType stream bound to a numeric loopback address (e.g. SockNodeName 127.0.0.1); a hostname resolving to both IPv4 and IPv6 yields two."@),
{
    if let Ok(list) = fds {
        lemma_digits_denote(list@.len(), 10);
        let count = crate::text::digits(list@.len(), 10);
        assert(well_formed_numeral(count, 10));
    }
}

/// A path that the router takes verbatim: it begins with `/`, and none of its characters
/// is `:` or `*`.
pub open spec fn literal(path: Seq<char>) -> bool {
    &&& path.len() > 0
    &&& path[0] as int == 47
    &&& forall|i: int|
        0 <= i < path.len() ==> (#[trigger] path[i]) as int != 58 && path[i] as int != 42
}

/// A path holds neither metacharacter exactly where none of its characters is one.
proof fn lemma_literal(path: Seq<char>)
    ensures
        (path.len() > 0 && path[0] == '/' && !path.contains(':') && !path.contains('*'))
            <==> literal(path),
{
    if literal(path) {
        if path.contains(':') {
            let i = choose|i: int| 0 <= i < path.len() && path[i] == ':';
            assert(path[i] as int == 58);
        }
        if path.contains('*') {
            let i = choose|i: int| 0 <= i < path.len() && path[i] == '*';
            assert(path[i] as int == 42);
        }
    }
    if !path.contains(':') && !path.contains('*') {
        assert forall|i: int| 0 <= i < path.len() implies (#[trigger] path[i]) as int != 58
            && path[i] as int != 42 by {
            assert(path.contains(path[i]));
        }
    }
}

/// The first metacharacter of a path stands at `k`.
pub open spec fn first_metacharacter(path: Seq<char>, k: int) -> bool {
    &&& 0 <= k < path.len()
    &&& path[k] as int == 58 || path[k] as int == 42
    &&& forall|i: int| 0 <= i < k ==> (#[trigger] path[i]) as int != 58 && path[i] as int != 42
}

/// Where the first metacharacter stands.
proof fn lemma_first_metacharacter(path: Seq<char>) -> (k: int)
    ensures
        first_meta(path) matches Some(c) ==> first_metacharacter(path, k) && path[k] == c,
    decreases path.len(),
{
    if path.len() == 0 || path[0] == ':' || path[0] == '*' {
        0
    } else {
        let rest = path.skip(1);
        let k = lemma_first_metacharacter(rest);
        if first_meta(path) is Some {
            assert forall|i: int| 0 <= i < k + 1 implies (#[trigger] path[i]) as int != 58
                && path[i] as int != 42 by {
                if i > 0 {
                    assert(path[i] == rest[i - 1]);
                }
            }
            assert(path[k + 1] == rest[k]);
        }
        k + 1
    }
}

/// A path is accepted exactly where it is literal. A refusal names the path, and its
/// first metacharacter where it begins with `/`.
pub proof fn law_path_passes_exactly_where_literal(path: &str, r: Result<(), String>)
    requires
        call_ensures(validate_webhook_path, (path,), r),
    ensures
        r is Ok <==> literal(path@),
        r matches Err(text) ==> if path@.len() > 0 && path@[0] as int == 47 {
            exists|k: int| #[trigger]
                first_metacharacter(path@, k) && text@
                    == "WEBHOOK_PATH must be a literal path but contains '"@ + seq![path@[k]]
                    + "': axum 0.7 treats a ':name'/'*name' segment as a capture/catch-all, so "@
                    + debug_text(path@)
                    + " would not match literally (and a malformed pattern panics at startup). Use a path with no ':' or '*'."@
        } else {
            text@ == "WEBHOOK_PATH must start with '/'; got "@ + debug_text(path@)
        },
{
    law_path_is_accepted_exactly_where_literal(path@);
    lemma_literal(path@);
    if let Err(text) = r {
        let k = lemma_first_metacharacter(path@);
        if path@.len() > 0 && path@[0] as int == 47 {
            let head = "WEBHOOK_PATH must be a literal path but contains '"@;
            assert(first_metacharacter(path@, k));
            assert(head.push(path@[k]) == head + seq![path@[k]]);
        }
    }
}

/// The configured path is the one of the environment, or `/webhook`, where it is
/// literal; otherwise startup is refused.
pub proof fn law_configured_path_is_literal(var: Option<String>, r: Result<String, String>)
    requires
        call_ensures(webhook_path, (var,), r),
    ensures
        match var {
            Some(path) => {
                &&& r is Ok <==> literal(path@)
                &&& r matches Ok(out) ==> out@ == path@
            },
            None => r matches Ok(out) && out@ == "/webhook"@,
        },
{
    reveal_strlit("/webhook");
    let path = match var {
        Some(path) => path@,
        None => "/webhook"@,
    };
    law_path_is_accepted_exactly_where_literal(path);
    lemma_literal(path);
    assert(literal("/webhook"@));
}

/// The lists pass exactly where there is an allowed repository and an expected label.
pub proof fn law_lists_pass_exactly_where_both_hold_something(
    ids: &HashSet<u64>,
    labels: &Vec<String>,
    r: Result<(), String>,
)
    requires
        call_ensures(check_lists, (ids, labels), r),
    ensures
        r is Ok <==> (exists|id: u64| ids@.contains(id)) && labels@.len() > 0,
        r matches Err(text) ==> text@ == if exists|id: u64| ids@.contains(id) {
            "EXPECTED_LABELS is empty; refusing to start. Set at least one runner label in src/main.rs (matched as a required subset of workflow_job.labels)."@
        } else {
            "ALLOWED_REPO_IDS is empty; refusing to start. Set at least one repository.id in src/main.rs."@
        },
{
    if exists|id: u64| ids@.contains(id) {
        let id = choose|id: u64| ids@.contains(id);
        assert(ids@.contains(id));
        assert(!ids@.is_empty());
    } else {
        assert(ids@ =~= Set::<u64>::empty());
    }
}

/// The root is the one of the environment where it begins with `/`; otherwise startup is
/// refused.
pub proof fn law_root_is_absolute(var: Option<String>, r: Result<String, String>)
    requires
        call_ensures(spool_root, (var,), r),
    ensures
        r is Ok <==> (var matches Some(path) && path@.len() > 0 && path@[0] as int == 47),
        r matches Ok(out) ==> (var matches Some(path) && out@ == path@),
        r matches Err(text) ==> text@ == match var {
            None => "SPOOL_DIR must point at the queue root directory"@,
            Some(path) => "SPOOL_DIR must be an absolute path; got "@ + path@,
        },
{
}

/// The override is set by the one character `1`, and by nothing else.
pub proof fn law_override_is_exactly_one(var: &Option<String>, r: bool)
    requires
        call_ensures(non_loopback_allowed, (var,), r),
    ensures
        r <==> (*var matches Some(text) && text@.len() == 1 && text@[0] as int == 49),
{
    reveal_strlit("1");
    if let Some(text) = var {
        if text@.len() == 1 && text@[0] as int == 49 {
            assert(text@ == "1"@);
        }
    }
}

/// The address to bind is the one of the environment, or 127.0.0.1:8080.
pub proof fn law_address_is_the_configured_one(var: Option<String>, r: String)
    requires
        call_ensures(listen_addr, (var,), r),
    ensures
        match var {
            Some(text) => r@ == text@,
            None => r@ == "127.0.0.1:8080"@,
        },
{
}

} // verus!
