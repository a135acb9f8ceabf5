use gh_webhook_spool::fs_security::{
    acl_grants_access, ancestors, reject_grant_acl_fd, reject_grant_acl_path_nofollow,
    verify_ancestor_chain, verify_dir_secure, AclLookup, FileKind, Probe, Stat,
};
use gh_webhook_spool::prepare::lookup_path;
use gh_webhook_spool::secret::{
    after_ancestors, after_canonicalize, after_inspect, after_inspect_acl, after_inspect_file,
    after_open, after_read, begin_secret_file, environment_secret, file_secret, secret_source,
    SecretSource, SecretStage, MAX_SECRET_FILE_BYTES, SECRET_READ_CAP,
};

const US: u32 = 1000;

fn probe(kind: FileKind, uid: u32, mode: u32) -> Probe {
    Probe {
        path: "/srv/spool".to_string(),
        stat: Ok(Stat {
            kind,
            uid,
            mode,
            size: 0,
        }),
        acl: Some(AclLookup::NotConsulted),
    }
}

fn refused(stage: SecretStage) -> String {
    match stage {
        SecretStage::Refused(text) => text,
        _ => panic!("not refused"),
    }
}

fn file(kind: FileKind, uid: u32, mode: u32, size: u64) -> Result<Stat, String> {
    Ok(Stat {
        kind,
        uid,
        mode,
        size,
    })
}

#[test]
fn verify_dir_secure_rejects_unsafe_dirs() {
    assert!(verify_dir_secure(&probe(FileKind::File, US, 0o600), US).is_err());
    assert_eq!(
        verify_dir_secure(&probe(FileKind::Symlink, US, 0o777), US).unwrap_err(),
        "/srv/spool is not a directory (symlinks are rejected for spool components)"
    );
    assert_eq!(
        verify_dir_secure(&probe(FileKind::Dir, US, 0o40770), US).unwrap_err(),
        "/srv/spool is group/other accessible (mode 770); spool components must be 0700 or stricter"
    );
    assert!(verify_dir_secure(&probe(FileKind::Dir, US, 0o40750), US).is_err());
    assert!(verify_dir_secure(&probe(FileKind::Dir, US, 0o40701), US).is_err());
    assert_eq!(
        verify_dir_secure(&probe(FileKind::Dir, 0, 0o40700), US).unwrap_err(),
        "/srv/spool is owned by uid 0 but this process runs as uid 1000"
    );
    let mut gone = probe(FileKind::Dir, US, 0o40700);
    gone.stat = Err("No such file or directory (os error 2)".to_string());
    assert_eq!(
        verify_dir_secure(&gone, US).unwrap_err(),
        "No such file or directory (os error 2)"
    );
    let mut granted = probe(FileKind::Dir, US, 0o40700);
    granted.acl = Some(AclLookup::Entries(vec![Some(1)]));
    assert!(verify_dir_secure(&granted, US).is_err());
    verify_dir_secure(&probe(FileKind::Dir, US, 0o40700), US)
        .expect("0700 dir owned by us should verify");
}

#[test]
fn darwin_acl_rejects_allow_and_tolerates_deny() {
    let missing = |errno: i32| AclLookup::Missing {
        errno,
        text: "Permission denied".to_string(),
    };
    assert_eq!(acl_grants_access(&AclLookup::NotConsulted), Ok(false));
    assert_eq!(acl_grants_access(&missing(2)), Ok(false));
    assert_eq!(
        acl_grants_access(&missing(13)),
        Err("ACL lookup failed: Permission denied".to_string())
    );
    assert_eq!(
        acl_grants_access(&AclLookup::Entries(vec![Some(2), None])),
        Ok(false)
    );
    assert_eq!(
        acl_grants_access(&AclLookup::Entries(vec![Some(2), None, Some(1)])),
        Ok(true)
    );

    assert!(reject_grant_acl_fd(&AclLookup::Entries(vec![]), "plain").is_ok());
    assert_eq!(
        reject_grant_acl_fd(&missing(13), "plain").unwrap_err(),
        "plain: ACL lookup failed: Permission denied"
    );
    assert_eq!(
        reject_grant_acl_fd(&AclLookup::Entries(vec![Some(1)]), "allow").unwrap_err(),
        "allow carries an access-granting (ALLOW) ACL; clear it with `chmod -N` — this binary's filesystem security relies on POSIX mode bits only, and an ACL can grant another local user access despite a 0600/0700 mode"
    );
    assert!(reject_grant_acl_path_nofollow(&Some(missing(2)), "/a").is_ok());
    assert_eq!(
        reject_grant_acl_path_nofollow(&Some(AclLookup::Entries(vec![Some(1)])), "/a").unwrap_err(),
        "/a carries an access-granting (ALLOW) ACL; clear it with `chmod -N /a` — this binary's filesystem security relies on POSIX mode bits only"
    );
    assert_eq!(
        reject_grant_acl_path_nofollow(&Some(missing(13)), "/a").unwrap_err(),
        "/a: ACL lookup failed: Permission denied"
    );
    assert_eq!(
        reject_grant_acl_path_nofollow(&None, "/a").unwrap_err(),
        "path /a contains an interior NUL byte"
    );
}

#[test]
fn ancestors_must_be_locked_down_up_to_the_root() {
    assert!(verify_ancestor_chain(&vec![], US).is_ok());
    let good = || probe(FileKind::Dir, 0, 0o40755);
    assert!(verify_ancestor_chain(&vec![probe(FileKind::Dir, US, 0o40755), good()], US).is_ok());
    let first_fault = verify_ancestor_chain(
        &vec![
            good(),
            probe(FileKind::Dir, 0, 0o41777),
            probe(FileKind::Symlink, 0, 0o777),
        ],
        US,
    );
    assert_eq!(
        first_fault.unwrap_err(),
        "ancestor /srv/spool of spool root has group/other write bits (mode 777)"
    );
    assert_eq!(
        verify_ancestor_chain(&vec![probe(FileKind::Dir, 7, 0o40755)], US).unwrap_err(),
        "ancestor /srv/spool of spool root is owned by uid 7 (must be root or 1000)"
    );
    assert_eq!(
        verify_ancestor_chain(&vec![probe(FileKind::Symlink, 0, 0o755)], US).unwrap_err(),
        "ancestor /srv/spool of spool root is not a real directory (symlinks rejected)"
    );
    let mut gone = good();
    gone.stat = Err("EACCES".to_string());
    assert_eq!(
        verify_ancestor_chain(&vec![good(), gone], US).unwrap_err(),
        "ancestor /srv/spool cannot be stat'd: EACCES"
    );
    let mut granted = good();
    granted.acl = Some(AclLookup::Entries(vec![Some(1)]));
    assert!(verify_ancestor_chain(&vec![granted], US).is_err());
}

#[test]
fn ancestors_run_from_the_parent_to_the_root() {
    let of = |path: &str| -> Vec<String> {
        ancestors(&path.as_bytes().to_vec())
            .into_iter()
            .map(|p| String::from_utf8(p).unwrap())
            .collect()
    };
    assert_eq!(of("/var/spool/queue"), ["/var/spool", "/var", "/"]);
    assert_eq!(of("/a"), ["/"]);
    assert!(of("/").is_empty());
    assert!(of("").is_empty());
    assert!(of("a").is_empty());
    assert_eq!(of("/a/b/"), ["/a", "/"]);
    assert_eq!(of("/a//b/./c"), ["/a//b", "/a", "/"]);
    assert_eq!(of("a/b"), ["a"]);
}

#[test]
fn ancestors_are_those_of_std() {
    let of = |path: &str| -> Vec<String> {
        ancestors(&path.as_bytes().to_vec())
            .into_iter()
            .map(|p| String::from_utf8(p).unwrap())
            .collect()
    };
    let mut paths = vec![
        "/x/yy/zzz".to_string(),
        "/etc/gh-webhook-spool/secret".to_string(),
    ];
    // Every path of up to seven of these characters.
    let mut layer = vec![String::new()];
    for _ in 0..7 {
        layer = layer
            .iter()
            .flat_map(|p| ['/', '.', 'a'].map(|c| format!("{p}{c}")))
            .collect();
        paths.extend(layer.iter().cloned());
    }
    for path in paths {
        let expected: Vec<String> = std::path::Path::new(&path)
            .ancestors()
            .skip(1)
            .filter(|p| !p.as_os_str().is_empty())
            .map(|p| p.to_str().unwrap().to_string())
            .collect();
        assert_eq!(of(&path), expected);
        let shown = std::path::Path::new(&path).components();
        assert_eq!(
            lookup_path(&path.as_bytes().to_vec()),
            shown.as_path().to_str().unwrap().as_bytes()
        );
    }
}

#[test]
fn read_secret_open_fd_rejects_unsafe_files() {
    let path = "/etc/s";
    assert_eq!(
        refused(after_open(path, Err("Too many levels".to_string()))),
        "secret file /etc/s cannot be opened: Too many levels (O_NOFOLLOW rejects a symlink at the final path component)"
    );
    assert!(matches!(after_open(path, Ok(())), SecretStage::InspectFile));
    assert_eq!(
        refused(after_inspect_file(path, file(FileKind::File, US, 0o100644, 1), US)),
        "secret file /etc/s mode 644 is too permissive; require 0600 or stricter"
    );
    assert_eq!(
        refused(after_inspect_file(
            path,
            file(FileKind::File, US, 0o100600, MAX_SECRET_FILE_BYTES + 1),
            US
        )),
        "secret file /etc/s is 4097 bytes; refusing to read more than 4096"
    );
    assert_eq!(
        refused(after_inspect_file(path, file(FileKind::Other, US, 0o600, 1), US)),
        "secret file /etc/s is not a regular file (devices/sockets/FIFOs rejected)"
    );
    assert_eq!(
        refused(after_inspect_file(path, file(FileKind::File, 0, 0o600, 1), US)),
        "secret file /etc/s is owned by uid 0 but this process runs as uid 1000"
    );
    assert_eq!(
        refused(after_inspect_file(path, Err("EIO".to_string()), US)),
        "secret file /etc/s cannot be stat'd via fd: EIO"
    );
    assert!(matches!(
        after_inspect_file(path, file(FileKind::File, US, 0o100600, MAX_SECRET_FILE_BYTES), US),
        SecretStage::InspectAcl
    ));
    assert!(matches!(
        after_inspect_acl(path, &AclLookup::NotConsulted),
        SecretStage::Read
    ));
    assert!(
        refused(after_inspect_acl(path, &AclLookup::Entries(vec![Some(1)])))
            .starts_with("secret file /etc/s carries")
    );
    let expected: &[u8] = b"sufficiently-long-secret-bytes";
    match after_read(path, Ok(expected.to_vec())) {
        SecretStage::Done(bytes) => assert_eq!(bytes, expected),
        _ => panic!("the contents must be taken"),
    }
    assert_eq!(SECRET_READ_CAP, MAX_SECRET_FILE_BYTES + 1);
    assert_eq!(
        refused(after_read(path, Ok(vec![b'x'; SECRET_READ_CAP as usize]))),
        "secret file /etc/s grew past 4096 bytes during read; refusing to use a truncated/raced secret"
    );
    assert_eq!(refused(after_read(path, Err("EIO".to_string()))), "EIO");
}

#[test]
fn read_secret_file_rejects_relative_path() {
    assert_eq!(
        refused(begin_secret_file("relative/secret")),
        "GH_WEBHOOK_SECRET_FILE must be an absolute path; got relative/secret"
    );
    assert!(matches!(begin_secret_file("/s"), SecretStage::Inspect));
    assert_eq!(
        refused(after_inspect("/s", Ok(FileKind::Symlink))),
        "secret file /s is a symlink; configure the real path so the ancestor lockdown applies to it"
    );
    assert_eq!(
        refused(after_inspect("/s", Err("ENOENT".to_string()))),
        "secret file /s cannot be stat'd: ENOENT"
    );
    assert!(matches!(
        after_inspect("/s", Ok(FileKind::File)),
        SecretStage::Canonicalize
    ));
    assert_eq!(
        refused(after_canonicalize("/s", Err("ENOENT".to_string()))),
        "secret file /s cannot be canonicalized: ENOENT"
    );
    assert!(matches!(
        after_canonicalize("/s", Ok(())),
        SecretStage::InspectAncestors
    ));
    assert!(matches!(
        after_ancestors(&vec![probe(FileKind::Dir, 0, 0o40755)], US),
        SecretStage::Open
    ));
    assert!(!refused(after_ancestors(&vec![probe(FileKind::Dir, 0, 0o41777)], US)).is_empty());
}

#[test]
fn secret_comes_from_exactly_one_source() {
    let s = |t: &str| Some(t.to_string());
    for (key, path) in [("a", "/b"), ("", "")] {
        let text = secret_source(s(key), s(path)).err().unwrap();
        assert!(text.starts_with("both GH_WEBHOOK_SECRET and"));
    }
    assert_eq!(
        secret_source(None, None).err(),
        s("set GH_WEBHOOK_SECRET_FILE (recommended) or GH_WEBHOOK_SECRET")
    );
    assert_eq!(
        secret_source(s(""), None).err(),
        s("GH_WEBHOOK_SECRET is set but empty")
    );
    assert!(matches!(secret_source(s("k"), None), Ok(SecretSource::Environment(k)) if k == "k"));
    assert!(matches!(secret_source(None, s("/p")), Ok(SecretSource::File(p)) if p == "/p"));
}

#[test]
fn short_secrets_are_refused_after_trimming() {
    assert_eq!(
        environment_secret("0123456789abcde").unwrap_err(),
        "webhook secret is 15 bytes; refusing to start with anything shorter than 16"
    );
    assert_eq!(
        environment_secret("0123456789abcdef").unwrap(),
        b"0123456789abcdef"
    );
    assert_eq!(
        environment_secret("\u{e9}\u{e9}\u{e9}\u{e9}\u{e9}\u{e9}\u{e9}\u{e9}").unwrap().len(),
        16
    );
    assert_eq!(
        environment_secret("0123456789abcde\n").unwrap_err(),
        "webhook secret is 15 bytes; refusing to start with anything shorter than 16"
    );
    assert_eq!(
        environment_secret("0123456789abcdef\r\n").unwrap(),
        b"0123456789abcdef"
    );
    assert_eq!(
        environment_secret("\n").unwrap_err(),
        "webhook secret is 0 bytes; refusing to start with anything shorter than 16"
    );
    assert_eq!(
        file_secret(b"0123456789abcdef\r\n\n".to_vec()).unwrap(),
        b"0123456789abcdef"
    );
    assert_eq!(
        file_secret(b"\n0123456789abcde ".to_vec()).unwrap(),
        b"\n0123456789abcde "
    );
    assert_eq!(
        file_secret(b"0123456789abcde\n".to_vec()).unwrap_err(),
        "webhook secret is 15 bytes; refusing to start with anything shorter than 16"
    );
    assert_eq!(file_secret(b"\r\n\r\n".to_vec()).unwrap_err(), "secret file is empty");
    assert_eq!(file_secret(Vec::new()).unwrap_err(), "secret file is empty");
}

#[test]
fn secret_is_refused_for_any_ancestor_of_its_resolved_path() {
    let path = b"/etc/gh-webhook-spool/secret".to_vec();
    let ups = ancestors(&path);
    assert_eq!(ups.len(), 3);
    let chain = |open: Option<usize>| -> Vec<Probe> {
        (0..ups.len())
            .map(|i| {
                let mode = if open == Some(i) { 0o40777 } else { 0o40755 };
                Probe {
                    path: String::from_utf8(ups[i].clone()).unwrap(),
                    ..probe(FileKind::Dir, 0, mode)
                }
            })
            .collect()
    };
    assert!(matches!(after_ancestors(&chain(None), US), SecretStage::Open));
    for (i, up) in ["/etc/gh-webhook-spool", "/etc", "/"].iter().enumerate() {
        assert_eq!(
            refused(after_ancestors(&chain(Some(i)), US)),
            format!("ancestor {up} of spool root has group/other write bits (mode 777)")
        );
    }
}
