use std::collections::BTreeMap;

use gh_webhook_spool::enqueue::{
    after_create, after_find_new, after_find_new_again, after_inspect, after_remove, after_rename,
    after_sync, after_write, begin, create_file_mode, outcome_of, Creation, EnqueueResult, Stage,
};
use gh_webhook_spool::fault::{Fault, Kind};
use gh_webhook_spool::fs_security::{
    ancestors, verify_ancestor_chain, verify_dir_secure, AclLookup, FileKind, Probe, Stat,
};
use gh_webhook_spool::prepare::{
    canonicalize_error, check_root_kind, create_dir_mode, lookup_path, PrepareStage,
};
use gh_webhook_spool::spool::{frame, is_safe_filename, received_at_ms, Job};
use gh_webhook_spool::sweep::{begin_sweep, check_sweep, tally, Sweep, SweepStage};
use gh_webhook_spool::webhook::Outcome;

fn os(code: i32, text: &str) -> Fault {
    Fault {
        kind: Kind::Os(code),
        text: text.to_string(),
    }
}

fn failed(stage: Stage) -> Fault {
    match stage {
        Stage::Failed(fault) => fault,
        _ => panic!("not failed"),
    }
}

fn removing(stage: Stage) -> Fault {
    match stage {
        Stage::RemoveTmp(fault) => fault,
        _ => panic!("the temporary file must go"),
    }
}

fn job(workflow_job_id: u64) -> Job {
    Job {
        event: "workflow_job".to_string(),
        delivery: "d".to_string(),
        repo_id: 42,
        repo: "octo/cat".to_string(),
        action: "queued".to_string(),
        workflow_job_id,
        head_branch: "".to_string(),
        head_sha: "".to_string(),
        job_name: "".to_string(),
        signature: "sha256=".to_string(),
    }
}

/// A queue in memory. `new/` may be missing.
struct Spool {
    tmp: BTreeMap<String, Vec<u8>>,
    new: Option<BTreeMap<String, Vec<u8>>>,
    synced: bool,
}

impl Spool {
    fn empty() -> Spool {
        Spool {
            tmp: BTreeMap::new(),
            new: Some(BTreeMap::new()),
            synced: false,
        }
    }

    fn finds(&self, filename: &str) -> bool {
        self.new.as_ref().is_some_and(|new| new.contains_key(filename))
    }

    /// Performs the operation of one stage.
    fn step(&mut self, stage: Stage, filename: &str, contents: &[u8]) -> Stage {
        match stage {
            Stage::FindNew => after_find_new(self.finds(filename)),
            Stage::CreateTmp => after_create(if self.tmp.contains_key(filename) {
                Creation::AlreadyThere
            } else {
                self.tmp.insert(filename.to_string(), Vec::new());
                Creation::Created
            }),
            Stage::FindNewAgain => after_find_new_again(self.finds(filename)),
            Stage::InspectTmp => after_inspect(&AclLookup::NotConsulted),
            Stage::WriteTmp => {
                self.tmp.insert(filename.to_string(), contents.to_vec());
                after_write(Ok(()))
            }
            Stage::Rename => match &mut self.new {
                Some(new) => {
                    new.insert(filename.to_string(), self.tmp.remove(filename).unwrap());
                    self.synced = false;
                    after_rename(Ok(()))
                }
                None => after_rename(Err(os(2, "No such file or directory"))),
            },
            Stage::SyncNew(end) => {
                self.synced = true;
                after_sync(end, Ok(()))
            }
            Stage::RemoveTmp(fault) => {
                self.tmp.remove(filename);
                after_remove(fault)
            }
            ended => ended,
        }
    }

    fn enqueue(&mut self, filename: &str, header: &[u8], body: &[u8]) -> Result<EnqueueResult, Fault> {
        let contents = frame(header, body);
        let mut stage = begin(filename);
        loop {
            stage = match stage {
                Stage::Done(end) => return Ok(end),
                Stage::Failed(fault) => return Err(fault),
                stage => self.step(stage, filename, &contents),
            };
        }
    }
}

#[test]
fn enqueue_writes_to_new_and_acks_duplicate_on_repeat() {
    let mut spool = Spool::empty();
    let header = br#"{"schema":1,"delivery":"d1"}"#;
    let body = br#"{"hello":"world"}"#;
    let r1 = spool.enqueue("d1.job", header, body).unwrap();
    assert!(matches!(r1, EnqueueResult::Wrote));
    assert!(spool.synced);
    let contents = spool.new.as_ref().unwrap()["d1.job"].clone();
    let nl = contents.iter().position(|&b| b == b'\n').unwrap();
    assert_eq!(&contents[..nl], header);
    assert_eq!(&contents[nl + 1..], body);
    let r2 = spool.enqueue("d1.job", b"other", b"other").unwrap();
    assert!(matches!(r2, EnqueueResult::Duplicate));
    assert_eq!(spool.new.as_ref().unwrap()["d1.job"], contents);
    assert!(spool.tmp.is_empty());
}

#[test]
fn late_writer_finds_the_temporary_file_taken() {
    let mut spool = Spool::empty();
    let mut one = begin("7.job");
    let mut other = begin("7.job");
    one = spool.step(one, "7.job", b"one");
    other = spool.step(other, "7.job", b"other");
    one = spool.step(one, "7.job", b"one");
    other = spool.step(other, "7.job", b"other");
    assert!(matches!(one, Stage::InspectTmp));
    assert!(matches!(other, Stage::FindNewAgain));
    for _ in 0..3 {
        one = spool.step(one, "7.job", b"one");
    }
    assert_eq!(spool.new.as_ref().unwrap()["7.job"], b"one");
    other = spool.step(other, "7.job", b"other");
    assert!(matches!(other, Stage::SyncNew(EnqueueResult::Duplicate)));
    assert_eq!(spool.new.as_ref().unwrap()["7.job"], b"one");
}

#[test]
fn enqueue_rejects_unsafe_filenames() {
    for bad in ["", "../etc/passwd", "a/b", ".hidden", "x\0y"] {
        assert!(!is_safe_filename(bad));
        let fault = failed(begin(bad));
        assert_eq!(fault.kind, Kind::InvalidInput);
        assert_eq!(fault.text, format!("refusing unsafe filename {bad:?}"));
        let mut spool = Spool::empty();
        let err = spool.enqueue(bad, br#"{"schema":1}"#, b"{}").unwrap_err();
        assert_eq!(err.kind, Kind::InvalidInput);
        assert!(spool.tmp.is_empty());
        assert!(spool.new.unwrap().is_empty());
    }
    assert!(is_safe_filename(&"a".repeat(128)));
    assert!(!is_safe_filename(&"a".repeat(129)));
    assert!(is_safe_filename(&"\u{e9}".repeat(64)));
    assert!(!is_safe_filename(&"\u{e9}".repeat(65)));
}

#[test]
fn job_files_are_named_after_the_job() {
    for (id, name) in [
        (0, "0.job"),
        (7, "7.job"),
        (10, "10.job"),
        (9001, "9001.job"),
        (u64::MAX, "18446744073709551615.job"),
    ] {
        assert_eq!(job(id).filename(), name);
        assert!(matches!(begin(name), Stage::FindNew));
    }
}

#[test]
fn fresh_job_goes_through_every_stage() {
    assert!(matches!(begin("1.job"), Stage::FindNew));
    assert!(matches!(after_find_new(false), Stage::CreateTmp));
    assert!(matches!(after_create(Creation::Created), Stage::InspectTmp));
    assert!(matches!(
        after_inspect(&AclLookup::NotConsulted),
        Stage::WriteTmp
    ));
    assert!(matches!(after_write(Ok(())), Stage::Rename));
    assert!(matches!(
        after_rename(Ok(())),
        Stage::SyncNew(EnqueueResult::Wrote)
    ));
    assert!(matches!(
        after_sync(EnqueueResult::Wrote, Ok(())),
        Stage::Done(EnqueueResult::Wrote)
    ));
}

#[test]
fn duplicate_is_acknowledged_only_once_durable() {
    assert!(matches!(
        after_find_new(true),
        Stage::SyncNew(EnqueueResult::Duplicate)
    ));
    assert!(matches!(
        after_sync(EnqueueResult::Duplicate, Ok(())),
        Stage::Done(EnqueueResult::Duplicate)
    ));
    for end in [EnqueueResult::Duplicate, EnqueueResult::Wrote] {
        assert_eq!(failed(after_sync(end, Err(os(5, "EIO")))), os(5, "EIO"));
    }
}

#[test]
fn enqueue_concurrent_writer_returns_in_flight() {
    let mut spool = Spool::empty();
    spool.tmp.insert("99.job".to_string(), b"in progress".to_vec());
    let end = spool.enqueue("99.job", br#"{"schema":1}"#, b"{}").unwrap();
    assert!(matches!(end, EnqueueResult::InFlight));
    assert_eq!(spool.tmp["99.job"], b"in progress");
    assert!(matches!(
        after_create(Creation::AlreadyThere),
        Stage::FindNewAgain
    ));
    assert!(matches!(
        after_find_new_again(false),
        Stage::Done(EnqueueResult::InFlight)
    ));
    assert!(matches!(
        after_find_new_again(true),
        Stage::SyncNew(EnqueueResult::Duplicate)
    ));
}

#[test]
fn enqueue_cleans_up_tmp_when_rename_fails() {
    let mut spool = Spool::empty();
    spool.new = None;
    assert!(
        spool.enqueue("42.job", br#"{"schema":1}"#, b"{}").is_err(),
        "rename should fail without new/"
    );
    assert!(
        spool.tmp.is_empty(),
        "tmp/ should be cleaned up after a failed rename"
    );
    assert_eq!(removing(after_rename(Err(os(2, "ENOENT")))), os(2, "ENOENT"));
    assert_eq!(removing(after_write(Err(os(28, "ENOSPC")))), os(28, "ENOSPC"));
    let granting = AclLookup::Entries(vec![Some(2), Some(1)]);
    let fault = removing(after_inspect(&granting));
    assert_eq!(fault.kind, Kind::Other);
    assert!(fault
        .text
        .starts_with("enqueued spool file carries an access-granting (ALLOW) ACL"));
    assert_eq!(failed(after_remove(os(2, "ENOENT"))), os(2, "ENOENT"));
    assert_eq!(
        failed(after_create(Creation::Error(os(13, "EACCES")))),
        os(13, "EACCES")
    );
}

#[test]
fn enqueue_results_have_their_answers() {
    assert_eq!(outcome_of(Some(EnqueueResult::Wrote)), Outcome::Accepted);
    assert_eq!(outcome_of(Some(EnqueueResult::Duplicate)), Outcome::Duplicate);
    assert_eq!(outcome_of(Some(EnqueueResult::InFlight)), Outcome::InFlight);
    assert_eq!(outcome_of(None), Outcome::InternalError);
}

#[test]
fn file_is_the_header_a_newline_and_the_body() {
    let header = br#"{"schema":1,"delivery":"d1"}"#;
    let body = b"{\"hello\":\n\"world\"}";
    let contents = frame(header, body);
    let nl = contents.iter().position(|&b| b == b'\n').unwrap();
    assert_eq!(&contents[..nl], header);
    assert_eq!(&contents[nl + 1..], body);
    assert_eq!(frame(b"", b""), b"\n");
    assert_eq!(create_file_mode(), 0o600);
}

#[test]
fn clock_readings_that_do_not_fit_count_as_zero() {
    assert_eq!(received_at_ms(Some(1716643200000)), 1716643200000);
    assert_eq!(received_at_ms(Some(u64::MAX as u128)), u64::MAX);
    assert_eq!(received_at_ms(Some(u64::MAX as u128 + 1)), 0);
    assert_eq!(received_at_ms(None), 0);
}

#[test]
fn prepare_spool_rejects_symlinked_root() {
    let kind_at = |path: &[u8]| match path {
        b"/srv/link-root" => Some(FileKind::Symlink),
        b"/srv/link-root/" | b"/srv/real-root" => Some(FileKind::Dir),
        _ => None,
    };
    for root in [
        "/srv/link-root",
        "/srv/link-root/",
        "/srv/link-root///",
        "/srv/link-root/.",
        "/srv/link-root/./",
    ] {
        let path = lookup_path(&root.as_bytes().to_vec());
        assert_eq!(path, b"/srv/link-root");
        let err = check_root_kind(root, kind_at(&path)).unwrap_err();
        assert!(err.contains("symlink"));
        assert_eq!(
            err,
            format!("SPOOL_DIR {root} is a symlink; spool components must be real directories (no symlinks)")
        );
        let stage = gh_webhook_spool::prepare::begin().next(Err(err));
        assert!(matches!(stage.next(Ok(())), PrepareStage::Failed(_)));
    }
    let real = lookup_path(&b"/srv/real-root/".to_vec());
    assert!(check_root_kind("/srv/real-root/", kind_at(&real)).is_ok());
    assert_eq!(lookup_path(&b"//".to_vec()), b"/");
    let err = check_root_kind("/srv/link", Some(FileKind::Symlink)).unwrap_err();
    assert!(err.contains("symlink"));
    assert_eq!(
        err,
        "SPOOL_DIR /srv/link is a symlink; spool components must be real directories (no symlinks)"
    );
    let stage = gh_webhook_spool::prepare::begin().next(Err(err.clone()));
    assert!(matches!(stage, PrepareStage::Failed(text) if text == err));
    for kind in [None, Some(FileKind::Dir), Some(FileKind::File), Some(FileKind::Other)] {
        assert!(check_root_kind("/srv/x", kind).is_ok());
    }
}

#[test]
fn preparation_takes_its_steps_in_order() {
    let mut stage = gh_webhook_spool::prepare::begin();
    let mut names = Vec::new();
    loop {
        names.push(match &stage {
            PrepareStage::InspectRootPath => "inspect",
            PrepareStage::CreateRoot => "create root",
            PrepareStage::Canonicalize => "canonicalize",
            PrepareStage::CreateTmp => "create tmp",
            PrepareStage::CreateNew => "create new",
            PrepareStage::VerifyRoot => "verify root",
            PrepareStage::VerifyTmp => "verify tmp",
            PrepareStage::VerifyNew => "verify new",
            PrepareStage::VerifyAncestors => "verify ancestors",
            PrepareStage::SweepTmp => "sweep",
            PrepareStage::Ready => break,
            PrepareStage::Failed(_) => panic!("nothing failed"),
        });
        stage = stage.next(Ok(()));
    }
    assert_eq!(
        names,
        [
            "inspect",
            "create root",
            "canonicalize",
            "create tmp",
            "create new",
            "verify root",
            "verify tmp",
            "verify new",
            "verify ancestors",
            "sweep"
        ]
    );
    let end = PrepareStage::VerifyNew.next(Err("no".to_string()));
    assert!(matches!(end.next(Ok(())), PrepareStage::Failed(text) if text == "no"));
    assert!(matches!(
        PrepareStage::Ready.next(Err("late".to_string())),
        PrepareStage::Ready
    ));
}

#[test]
fn directories_are_created_for_the_owner_alone() {
    assert_eq!(create_dir_mode(false), Some(0o700));
    assert_eq!(create_dir_mode(true), None);
    assert_eq!(
        canonicalize_error("/srv/x", "No such file"),
        "SPOOL_DIR /srv/x cannot be canonicalized: No such file"
    );
}

#[test]
fn incomplete_sweep_is_refused() {
    let none = tally(&vec![]);
    assert!(!none.swept_any);
    assert_eq!(none.failures, 0);
    let some = tally(&vec![true, false, true, false]);
    assert!(some.swept_any);
    assert_eq!(some.failures, 2);
    let bad = tally(&vec![false]);
    assert!(!bad.swept_any);
    assert_eq!(bad.failures, 1);

    assert!(check_sweep(0, "/srv/tmp").is_ok());
    assert_eq!(
        check_sweep(1, "/srv/tmp").unwrap_err().text,
        "1 stale entry in /srv/tmp could not be removed; clear tmp/ manually before restarting"
    );
    let err = check_sweep(12, "/srv/tmp").unwrap_err();
    assert_eq!(err.kind, Kind::Other);
    assert_eq!(
        err.text,
        "12 stale entries in /srv/tmp could not be removed; clear tmp/ manually before restarting"
    );
}

/// Sweeps a `tmp/` of these entries. Beside the end: how many were tried, and whether
/// the directory was made durable.
fn sweep(entries: &[bool], sync: Result<(), Fault>) -> (Sweep, usize, bool) {
    let mut sync = Some(sync);
    let mut tried = 0;
    let mut synced = false;
    let mut sweep = begin_sweep();
    loop {
        sweep = match sweep.stage {
            SweepStage::OpenDir => sweep.after_open(Ok(())),
            SweepStage::ReadEntry => sweep.after_read(Ok(tried < entries.len()), "/srv/tmp"),
            SweepStage::RemoveEntry => {
                tried += 1;
                sweep.after_remove(entries[tried - 1])
            }
            SweepStage::SyncDir => {
                synced = true;
                sweep.after_sync(sync.take().unwrap(), "/srv/tmp")
            }
            SweepStage::Swept | SweepStage::Failed(_) => return (sweep, tried, synced),
        };
    }
}

#[test]
fn sweep_goes_on_after_an_entry_it_cannot_remove() {
    let (end, tried, synced) = sweep(&[true, false, true], Ok(()));
    assert_eq!(tried, 3);
    assert!(synced);
    assert_eq!(end.removed, [true, false, true]);
    assert!(matches!(end.stage, SweepStage::Failed(f)
        if f.text.starts_with("1 stale entry in /srv/tmp") && f.kind == Kind::Other));

    let (end, tried, synced) = sweep(&[false, false], Ok(()));
    assert_eq!((tried, synced), (2, false));
    assert!(matches!(end.stage, SweepStage::Failed(_)));

    let (end, tried, synced) = sweep(&[true, true], Ok(()));
    assert_eq!((tried, synced), (2, true));
    assert!(matches!(end.stage, SweepStage::Swept));

    let (end, _, synced) = sweep(&[], Ok(()));
    assert!(!synced);
    assert!(matches!(end.stage, SweepStage::Swept));

    let (end, _, _) = sweep(&[true, false], Err(os(5, "EIO")));
    assert!(matches!(end.stage, SweepStage::Failed(f) if f == os(5, "EIO")));
}

#[test]
fn sweep_ends_where_the_directory_cannot_be_listed() {
    let end = begin_sweep().after_open(Err(os(13, "EACCES")));
    assert!(matches!(end.stage, SweepStage::Failed(f) if f == os(13, "EACCES")));
    let end = begin_sweep()
        .after_open(Ok(()))
        .after_read(Err(os(5, "EIO")), "/srv/tmp");
    assert!(matches!(end.stage, SweepStage::Failed(f) if f == os(5, "EIO")));
}

/// A directory tree in memory: the directories, with their modes, and what lies in
/// `tmp/` and `new/`.
struct Tree {
    dirs: BTreeMap<String, u32>,
    tmp: Vec<bool>,
    new: BTreeMap<String, Vec<u8>>,
}

impl Tree {
    fn create(&mut self, path: &str) -> Result<(), String> {
        if let Some(mode) = create_dir_mode(self.dirs.contains_key(path)) {
            self.dirs.insert(path.to_string(), mode);
        }
        Ok(())
    }

    fn probe(&self, path: &str) -> Probe {
        let stat = self.dirs.get(path).map(|mode| Stat {
            kind: FileKind::Dir,
            uid: 1000,
            mode: *mode,
            size: 0,
        });
        Probe {
            path: path.to_string(),
            stat: stat.ok_or("No such file or directory".to_string()),
            acl: Some(AclLookup::NotConsulted),
        }
    }

    fn prepare(&mut self, root: &str) -> Result<String, String> {
        let path = String::from_utf8(lookup_path(&root.as_bytes().to_vec())).unwrap();
        let (tmp, new) = (format!("{path}/tmp"), format!("{path}/new"));
        let mut stage = gh_webhook_spool::prepare::begin();
        loop {
            let ended = match &stage {
                PrepareStage::InspectRootPath => {
                    let found = self.dirs.get(&path).map(|_| FileKind::Dir);
                    check_root_kind(root, found)
                }
                PrepareStage::CreateRoot => self.create(&path),
                PrepareStage::Canonicalize => Ok(()),
                PrepareStage::CreateTmp => self.create(&tmp),
                PrepareStage::CreateNew => self.create(&new),
                PrepareStage::VerifyRoot => verify_dir_secure(&self.probe(&path), 1000),
                PrepareStage::VerifyTmp => verify_dir_secure(&self.probe(&tmp), 1000),
                PrepareStage::VerifyNew => verify_dir_secure(&self.probe(&new), 1000),
                PrepareStage::VerifyAncestors => {
                    let chain = ancestors(&path.as_bytes().to_vec())
                        .into_iter()
                        .map(|up| self.probe(&String::from_utf8(up).unwrap()))
                        .collect();
                    verify_ancestor_chain(&chain, 1000)
                }
                PrepareStage::SweepTmp => {
                    let (end, _, _) = sweep(&self.tmp, Ok(()));
                    self.tmp.retain(|removable| !removable);
                    match end.stage {
                        SweepStage::Failed(fault) => Err(fault.text),
                        _ => Ok(()),
                    }
                }
                PrepareStage::Ready => return Ok(path),
                PrepareStage::Failed(text) => return Err(text.clone()),
            };
            stage = stage.next(ended);
        }
    }
}

#[test]
fn prepared_queue_is_prepared_again() {
    let mut tree = Tree {
        dirs: [("/".to_string(), 0o755), ("/srv".to_string(), 0o755)].into(),
        tmp: vec![true],
        new: BTreeMap::new(),
    };
    assert_eq!(tree.prepare("/srv/queue/"), Ok("/srv/queue".to_string()));
    assert!(tree.tmp.is_empty());
    let dirs = tree.dirs.clone();
    assert_eq!(dirs["/srv/queue"], 0o700);
    assert_eq!(dirs["/srv/queue/tmp"], 0o700);
    assert_eq!(dirs["/srv/queue/new"], 0o700);

    tree.tmp = vec![true, true];
    tree.new.insert("1.job".to_string(), b"queued".to_vec());
    assert_eq!(tree.prepare("/srv/queue"), Ok("/srv/queue".to_string()));
    assert!(tree.tmp.is_empty());
    assert_eq!(tree.new["1.job"], b"queued");
    assert_eq!(tree.dirs, dirs);

    tree.tmp = vec![true, false];
    assert!(tree.prepare("/srv/queue").is_err());
    assert_eq!(tree.tmp, [false]);
    assert_eq!(tree.new["1.job"], b"queued");
}
