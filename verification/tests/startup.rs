use std::collections::HashSet;

use gh_webhook_spool::startup::{
    check_lists, listen_addr, non_loopback_allowed, spool_root, validate_webhook_path, webhook_path,
    MAX_BODY_BYTES,
};

#[test]
fn default_and_literal_paths_are_accepted() {
    for p in [
        "/webhook",
        "/",
        "/github/3f2504e0-4f89-41d3-9a0c-0305e82c3301",
        "/a/b/c",
        "/deeply/nested/literal_path-1",
    ] {
        assert!(validate_webhook_path(p).is_ok(), "should accept {p:?}");
    }
}

#[test]
fn missing_leading_slash_is_rejected() {
    for p in ["", "webhook", "github/x", ":x", "*x"] {
        assert!(validate_webhook_path(p).is_err(), "should reject {p:?}");
    }
}

#[test]
fn capture_and_wildcard_segments_are_rejected() {
    for p in [
        "/github/:uuid",
        "/:x",
        "/a/:b/c",
        "/github/*rest",
        "/*",
        "/a/*catchall",
        "/mix/:a/*b",
    ] {
        assert!(validate_webhook_path(p).is_err(), "should reject {p:?}");
    }
}

#[test]
fn metacharacters_anywhere_are_rejected() {
    for p in ["/foo:bar", "/foo*bar", "/a/b:c/d", "/a/b*c/d"] {
        assert!(validate_webhook_path(p).is_err(), "should reject {p:?}");
    }
}

#[test]
fn accepted_paths_never_panic_the_router() {
    const ALPHABET: &[u8] = b"abz09_-/";
    let mut lcg: u64 = 0x1234_5678_9abc_def0;
    let mut next = || {
        lcg = lcg
            .wrapping_mul(6364136223846793005)
            .wrapping_add(1442695040888963407);
        (lcg >> 33) as usize
    };

    for _ in 0..4000 {
        let len = 1 + next() % 12;
        let mut body: String = (0..len)
            .map(|_| ALPHABET[next() % ALPHABET.len()] as char)
            .collect();
        let path = format!("/{body}");

        assert!(validate_webhook_path(&path).is_ok());
        let _ = axum::Router::<()>::new().route(&path, axum::routing::post(|| async {}));

        body.insert(0, ':');
        let captured = format!("/{body}");
        assert!(validate_webhook_path(&captured).is_err());
        body.remove(0);
        body.insert(0, '*');
        let wildcarded = format!("/{body}");
        assert!(validate_webhook_path(&wildcarded).is_err());
    }
}

#[test]
fn refused_paths_are_named_in_the_message() {
    assert_eq!(
        validate_webhook_path("a\"b").unwrap_err(),
        "WEBHOOK_PATH must start with '/'; got \"a\\\"b\""
    );
    assert_eq!(
        validate_webhook_path("/a/*b/:c").unwrap_err(),
        "WEBHOOK_PATH must be a literal path but contains '*': axum 0.7 treats a ':name'/'*name' segment as a capture/catch-all, so \"/a/*b/:c\" would not match literally (and a malformed pattern panics at startup). Use a path with no ':' or '*'."
    );
}

#[test]
fn empty_lists_refuse_to_start() {
    let ids: HashSet<u64> = [42].into_iter().collect();
    let labels = vec!["my-fleet".to_string()];
    assert!(check_lists(&ids, &labels).is_ok());
    assert!(check_lists(&HashSet::new(), &labels).unwrap_err().starts_with("ALLOWED_REPO_IDS is empty"));
    assert!(check_lists(&HashSet::new(), &vec![]).unwrap_err().starts_with("ALLOWED_REPO_IDS is empty"));
    assert!(check_lists(&ids, &vec![]).unwrap_err().starts_with("EXPECTED_LABELS is empty"));
}

#[test]
fn variables_have_their_defaults() {
    let s = |t: &str| Some(t.to_string());
    assert_eq!(spool_root(s("/var/spool/q")), Ok("/var/spool/q".to_string()));
    assert_eq!(
        spool_root(s("spool")).unwrap_err(),
        "SPOOL_DIR must be an absolute path; got spool"
    );
    assert_eq!(
        spool_root(None).unwrap_err(),
        "SPOOL_DIR must point at the queue root directory"
    );
    assert!(non_loopback_allowed(&s("1")));
    assert!(!non_loopback_allowed(&s("true")));
    assert!(!non_loopback_allowed(&s("")));
    assert!(!non_loopback_allowed(&None));
    assert_eq!(webhook_path(None), Ok("/webhook".to_string()));
    assert_eq!(webhook_path(s("/github/x")), Ok("/github/x".to_string()));
    assert!(webhook_path(s("/:x")).is_err());
    assert_eq!(listen_addr(None), "127.0.0.1:8080");
    assert_eq!(listen_addr(s("[::1]:9")), "[::1]:9");
    assert_eq!(MAX_BODY_BYTES, 5 * 1024 * 1024);
}
