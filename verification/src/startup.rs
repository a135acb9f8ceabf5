//! What the environment configures, and what startup refuses.

use std::collections::HashSet;

use vstd::prelude::*;

use crate::text::{debug_text, quoted, reports, same, starts_with, view_of};

verus! {

/// Largest request body that the handler is given: 5 MiB.
pub const MAX_BODY_BYTES: usize = 5242880;

/// The first `:` or `*` of a path.
pub open spec fn first_meta(path: Seq<char>) -> Option<char>
    decreases path.len(),
{
    if path.len() == 0 {
        None
    } else if path[0] == ':' || path[0] == '*' {
        Some(path[0])
    } else {
        first_meta(path.skip(1))
    }
}

/// Why a path cannot be mounted verbatim.
pub open spec fn path_fault(path: Seq<char>) -> Option<Seq<char>> {
    if path.len() == 0 || path[0] != '/' {
        Some("WEBHOOK_PATH must start with '/'; got "@ + debug_text(path))
    } else {
        match first_meta(path) {
            Some(c) => Some(
                "WEBHOOK_PATH must be a literal path but contains '"@.push(c)
                    + "': axum 0.7 treats a ':name'/'*name' segment as a capture/catch-all, so "@
                    + debug_text(path)
                    + " would not match literally (and a malformed pattern panics at startup). Use a path with no ':' or '*'."@,
            ),
            None => None,
        }
    }
}

/// A beginning without metacharacters can be passed over.
proof fn lemma_first_meta(path: Seq<char>, n: int)
    requires
        0 <= n <= path.len(),
        forall|i: int| 0 <= i < n ==> path[i] != ':' && path[i] != '*',
    ensures
        first_meta(path) == first_meta(path.skip(n)),
    decreases n,
{
    if n == 0 {
        assert(path.skip(0) == path);
    } else {
        lemma_first_meta(path.skip(1), n - 1);
        assert(path.skip(1).skip(n - 1) == path.skip(n));
    }
}

/// Accepts a path only if it begins with `/` and holds neither `:` nor `*`, the
/// router's metacharacters: it is then mounted verbatim.
pub fn validate_webhook_path(path: &str) -> (r: Result<(), String>)
    ensures
        reports(r, path_fault(path@)),
{
    if !starts_with(path, '/') {
        let mut text = "WEBHOOK_PATH must start with '/'; got ".to_owned();
        text.append(quoted(path).as_str());
        return Err(text);
    }
    for c in it: path.chars()
        invariant
            it.seq() == path@,
            path@.len() > 0 && path@[0] == '/',
            forall|i: int| 0 <= i < it.index() ==> path@[i] != ':' && path@[i] != '*',
    {
        if c == ':' || c == '*' {
            proof {
                lemma_first_meta(path@, it.index() as int);
                assert(path@.skip(it.index() as int)[0] == c);
            }
            let mut text = "WEBHOOK_PATH must be a literal path but contains '".to_owned();
            text.push(c);
            text.append("': axum 0.7 treats a ':name'/'*name' segment as a capture/catch-all, so ");
            text.append(quoted(path).as_str());
            text.append(
                " would not match literally (and a malformed pattern panics at startup). Use a path with no ':' or '*'.",
            );
            return Err(text);
        }
    }
    proof {
        lemma_first_meta(path@, path@.len() as int);
    }
    Ok(())
}

/// Why the two compiled-in lists are refused.
pub open spec fn lists_fault(ids: Set<u64>, labels: nat) -> Option<Seq<char>> {
    if ids.is_empty() {
        Some(
            "ALLOWED_REPO_IDS is empty; refusing to start. Set at least one repository.id in src/main.rs."@,
        )
    } else if labels == 0 {
        Some(
            "EXPECTED_LABELS is empty; refusing to start. Set at least one runner label in src/main.rs (matched as a required subset of workflow_job.labels)."@,
        )
    } else {
        None
    }
}

/// Refuses an empty allowlist and an empty list of labels.
pub fn check_lists(allowed_repo_ids: &HashSet<u64>, expected_labels: &Vec<String>) -> (r: Result<
    (),
    String,
>)
    ensures
        reports(r, lists_fault(allowed_repo_ids@, expected_labels@.len())),
{
    if allowed_repo_ids.is_empty() {
        return Err(
            "ALLOWED_REPO_IDS is empty; refusing to start. Set at least one repository.id in src/main.rs.".to_owned(),
        );
    }
    if expected_labels.len() == 0 {
        return Err(
            "EXPECTED_LABELS is empty; refusing to start. Set at least one runner label in src/main.rs (matched as a required subset of workflow_job.labels).".to_owned(),
        );
    }
    Ok(())
}

/// Why a value of `SPOOL_DIR` is refused.
pub open spec fn root_fault(var: Option<Seq<char>>) -> Option<Seq<char>> {
    match var {
        None => Some("SPOOL_DIR must point at the queue root directory"@),
        Some(path) => if path.len() > 0 && path[0] == '/' {
            None
        } else {
            Some("SPOOL_DIR must be an absolute path; got "@ + path)
        },
    }
}

/// The root of the queue, from `SPOOL_DIR`: an absolute path.
pub fn spool_root(var: Option<String>) -> (r: Result<String, String>)
    ensures
        reports(r, root_fault(view_of(var))),
        r matches Ok(path) ==> view_of(var) == Some(path@),
{
    match var {
        None => Err("SPOOL_DIR must point at the queue root directory".to_owned()),
        Some(path) => {
            if starts_with(path.as_str(), '/') {
                Ok(path)
            } else {
                let mut text = "SPOOL_DIR must be an absolute path; got ".to_owned();
                text.append(path.as_str());
                Err(text)
            }
        },
    }
}

/// Whether `ALLOW_NON_LOOPBACK_BIND` permits a non-loopback listener: it must be
/// exactly `1`.
pub fn non_loopback_allowed(var: &Option<String>) -> (r: bool)
    ensures
        r == (view_of(*var) == Some("1"@)),
{
    match var {
        Some(value) => same(value.as_str(), "1"),
        None => false,
    }
}

/// A variable, or what stands in for it where it is not set.
pub open spec fn or_default(var: Option<Seq<char>>, default: Seq<char>) -> Seq<char> {
    match var {
        Some(value) => value,
        None => default,
    }
}

/// The path that the handler is mounted on, from `WEBHOOK_PATH`: `/webhook` where
/// that is not set.
pub fn webhook_path(var: Option<String>) -> (r: Result<String, String>)
    ensures
        reports(r, path_fault(or_default(view_of(var), "/webhook"@))),
        r matches Ok(path) ==> path@ == or_default(view_of(var), "/webhook"@),
{
    let path = match var {
        Some(path) => path,
        None => "/webhook".to_owned(),
    };
    match validate_webhook_path(path.as_str()) {
        Ok(()) => Ok(path),
        Err(text) => Err(text),
    }
}

/// The address to bind, from `LISTEN_ADDR`: a loopback one where that is not set.
pub fn listen_addr(var: Option<String>) -> (r: String)
    ensures
        r@ == or_default(view_of(var), "127.0.0.1:8080"@),
{
    match var {
        Some(value) => value,
        None => "127.0.0.1:8080".to_owned(),
    }
}

/// A path is accepted exactly where it begins with `/` and holds neither `:` nor
/// `*` anywhere.
pub proof fn law_path_is_accepted_exactly_where_literal(path: Seq<char>)
    ensures
        path_fault(path) is None <==> {
            &&& path.len() > 0 && path[0] == '/'
            &&& !path.contains(':')
            &&& !path.contains('*')
        },
{
    if path.len() > 0 && path[0] == '/' {
        lemma_no_meta(path);
    }
}

/// There is no first metacharacter exactly where there is none.
proof fn lemma_no_meta(path: Seq<char>)
    ensures
        first_meta(path) is None <==> !path.contains(':') && !path.contains('*'),
    decreases path.len(),
{
    if path.len() > 0 {
        let rest = path.skip(1);
        lemma_no_meta(rest);
        assert(path == seq![path[0]] + rest);
        assert forall|c: char| path.contains(c) implies path[0] == c || rest.contains(c) by {
            let i = choose|i: int| 0 <= i < path.len() && path[i] == c;
            if i > 0 {
                assert(rest[i - 1] == c);
            }
        }
        assert forall|c: char| path[0] == c || rest.contains(c) implies path.contains(c) by {
            if path[0] != c {
                let i = choose|i: int| 0 <= i < rest.len() && rest[i] == c;
                assert(path[i + 1] == c);
            }
        }
    }
}

} // verus!
