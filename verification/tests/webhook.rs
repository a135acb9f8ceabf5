use std::collections::BTreeMap;

use gh_webhook_spool::enqueue::{
    after_create, after_find_new, after_find_new_again, after_inspect, after_remove, after_rename,
    after_sync, after_write, begin, outcome_of, Creation, EnqueueResult, Stage,
};
use gh_webhook_spool::fs_security::AclLookup;
use gh_webhook_spool::headers::Headers;
use gh_webhook_spool::payload::parse_payload;
use gh_webhook_spool::spool::{job_file, Job, ENVELOPE_SCHEMA};
use gh_webhook_spool::webhook::{
    content_type_is_json, has_labels, is_valid_delivery, is_valid_event, process,
    sanitize_for_log, AppState, Outcome, Reason, Verdict, MAX_DELIVERY_ID_LEN, MAX_EVENT_LEN,
};
use hmac::{Hmac, Mac};
use serde_json::Value;
use sha2::Sha256;

fn sign(secret: &[u8], body: &[u8]) -> String {
    let mut mac = Hmac::<Sha256>::new_from_slice(secret).unwrap();
    mac.update(body);
    format!("sha256={}", hex::encode(mac.finalize().into_bytes()))
}

fn state_with(repo_ids: &[u64], labels: &[&str]) -> AppState {
    AppState {
        secret: b"shhh".to_vec(),
        allowed_repo_ids: repo_ids.iter().copied().collect(),
        expected_labels: labels.iter().map(|l| l.to_string()).collect(),
    }
}

fn fields(entries: &[(&str, &str)]) -> Headers {
    Headers {
        entries: entries
            .iter()
            .map(|(name, value)| (name.to_string(), value.as_bytes().to_vec()))
            .collect(),
    }
}

fn headers(event: &str, delivery: &str, sig: &str) -> Headers {
    fields(&[
        ("x-github-event", event),
        ("x-github-delivery", delivery),
        ("x-hub-signature-256", sig),
        ("content-type", "application/json"),
    ])
}

fn object(members: Vec<(&str, Value)>) -> Value {
    let mut map = serde_json::Map::new();
    for (name, value) in members {
        map.insert(name.to_string(), value);
    }
    Value::Object(map)
}

fn wfjob_body(repo_id: u64, full_name: &str, action: &str, labels: &[&str]) -> Vec<u8> {
    wfjob_body_with_id(repo_id, full_name, action, labels, 1)
}

fn wfjob_body_with_id(
    repo_id: u64,
    full_name: &str,
    action: &str,
    labels: &[&str],
    workflow_job_id: u64,
) -> Vec<u8> {
    wfjob_body_full(
        repo_id,
        full_name,
        action,
        labels,
        workflow_job_id,
        true,
        Some("private"),
    )
}

fn wfjob_body_full(
    repo_id: u64,
    full_name: &str,
    action: &str,
    labels: &[&str],
    workflow_job_id: u64,
    private: bool,
    visibility: Option<&str>,
) -> Vec<u8> {
    let labels_json: Vec<Value> = labels.iter().map(|l| Value::from(*l)).collect();
    let mut repo = vec![
        ("id", Value::from(repo_id)),
        ("full_name", Value::from(full_name)),
        ("private", Value::from(private)),
    ];
    if let Some(v) = visibility {
        repo.push(("visibility", Value::from(v)));
    }
    serde_json::to_vec(&object(vec![
        ("action", Value::from(action)),
        (
            "workflow_job",
            object(vec![
                ("id", Value::from(workflow_job_id)),
                ("labels", Value::from(labels_json)),
            ]),
        ),
        ("repository", object(repo)),
    ]))
    .unwrap()
}

/// A queue in memory.
#[derive(Default)]
struct Spool {
    tmp: BTreeMap<String, Vec<u8>>,
    new: BTreeMap<String, Vec<u8>>,
}

impl Spool {
    fn enqueue(&mut self, filename: &str, contents: &[u8]) -> Option<EnqueueResult> {
        let mut stage = begin(filename);
        loop {
            stage = match stage {
                Stage::FindNew => after_find_new(self.new.contains_key(filename)),
                Stage::CreateTmp => after_create(if self.tmp.contains_key(filename) {
                    Creation::AlreadyThere
                } else {
                    self.tmp.insert(filename.to_string(), Vec::new());
                    Creation::Created
                }),
                Stage::FindNewAgain => after_find_new_again(self.new.contains_key(filename)),
                Stage::InspectTmp => after_inspect(&AclLookup::NotConsulted),
                Stage::WriteTmp => {
                    self.tmp.insert(filename.to_string(), contents.to_vec());
                    after_write(Ok(()))
                }
                Stage::Rename => {
                    let file = self.tmp.remove(filename).unwrap();
                    self.new.insert(filename.to_string(), file);
                    after_rename(Ok(()))
                }
                Stage::SyncNew(end) => after_sync(end, Ok(())),
                Stage::RemoveTmp(fault) => {
                    self.tmp.remove(filename);
                    after_remove(fault)
                }
                Stage::Done(end) => return Some(end),
                Stage::Failed(_) => return None,
            };
        }
    }

    fn deliver(&mut self, state: &AppState, headers: &Headers, body: &[u8]) -> Outcome {
        let verdict = process(state, headers, body);
        match verdict.outcome() {
            Some(outcome) => outcome,
            None => match verdict {
                Verdict::Enqueue(job) => {
                    let filename = job.filename();
                    let file = job_file(&job.into_envelope(1716643200000), body).unwrap();
                    outcome_of(self.enqueue(&filename, &file))
                }
                _ => unreachable!(),
            },
        }
    }
}

fn reason_of(verdict: Verdict) -> Reason {
    match verdict {
        Verdict::Respond(reason) => reason,
        _ => panic!("not answered at once"),
    }
}

fn job_of(verdict: Verdict) -> Job {
    match verdict {
        Verdict::Enqueue(job) => job,
        _ => panic!("not enqueued"),
    }
}

#[test]
fn accepted_job_is_written_with_its_envelope() {
    let mut spool = Spool::default();
    let state = state_with(&[42], &[]);
    let body = wfjob_body(42, "octo/cat", "queued", &["self-hosted"]);
    let sig = sign(&state.secret, &body);
    let h = headers("workflow_job", "deadbeef-0001", &sig);

    assert_eq!(spool.deliver(&state, &h, &body), Outcome::Accepted);
    assert!(spool.tmp.is_empty());
    assert_eq!(spool.new.len(), 1);
    let contents = &spool.new["1.job"];
    let nl = contents.iter().position(|&b| b == b'\n').unwrap();
    let envelope: Value = serde_json::from_slice(&contents[..nl]).unwrap();
    assert_eq!(envelope["schema"], 2);
    assert_eq!(ENVELOPE_SCHEMA, 2);
    assert_eq!(envelope["event"], "workflow_job");
    assert_eq!(envelope["delivery"], "deadbeef-0001");
    assert_eq!(envelope["repo_id"], 42);
    assert_eq!(envelope["repo"], "octo/cat");
    assert_eq!(envelope["action"], "queued");
    assert_eq!(envelope["workflow_job_id"], 1);
    assert_eq!(envelope["head_branch"], "");
    assert_eq!(envelope["head_sha"], "");
    assert_eq!(envelope["job_name"], "");
    assert_eq!(envelope["received_at_ms"], 1716643200000u64);
    assert_eq!(envelope["signature"], sig);
    assert_eq!(&contents[nl + 1..], body.as_slice());
}

#[test]
fn envelope_line_has_its_members_in_order() {
    let state = state_with(&[42], &[]);
    let body = serde_json::to_vec(&object(vec![
        ("action", Value::from("queued")),
        (
            "workflow_job",
            object(vec![
                ("id", Value::from(7)),
                ("labels", Value::from(Vec::<Value>::new())),
                ("head_branch", Value::from("main")),
                ("head_sha", Value::from("9f86d081")),
                ("name", Value::from("a \"b\"\nc")),
            ]),
        ),
        (
            "repository",
            object(vec![
                ("id", Value::from(42)),
                ("full_name", Value::from("octo/cat")),
                ("private", Value::from(true)),
                ("visibility", Value::from("private")),
            ]),
        ),
    ]))
    .unwrap();
    let sig = sign(&state.secret, &body);
    let job = job_of(process(&state, &headers("workflow_job", "d-1", &sig), &body));
    let line = job.into_envelope(5).to_line().unwrap();
    let expected = format!(
        "{{\"schema\":2,\"event\":\"workflow_job\",\"delivery\":\"d-1\",\"repo_id\":42,\"repo\":\"octo/cat\",\"action\":\"queued\",\"workflow_job_id\":7,\"head_branch\":\"main\",\"head_sha\":\"9f86d081\",\"job_name\":\"a \\\"b\\\"\\nc\",\"received_at_ms\":5,\"signature\":\"{sig}\"}}"
    );
    assert_eq!(String::from_utf8(line).unwrap(), expected);
}

#[test]
fn duplicate_delivery_acked_idempotently() {
    let mut spool = Spool::default();
    let state = state_with(&[42], &[]);
    let body = wfjob_body(42, "octo/cat", "queued", &[]);
    let sig = sign(&state.secret, &body);
    let h = headers("workflow_job", "dup-delivery", &sig);

    assert_eq!(spool.deliver(&state, &h, &body), Outcome::Accepted);
    assert_eq!(spool.deliver(&state, &h, &body), Outcome::Duplicate);
    assert_eq!(spool.new.len(), 1);
}

#[test]
fn replay_with_fresh_delivery_header_still_dedupes() {
    let mut spool = Spool::default();
    let state = state_with(&[42], &[]);
    let body = wfjob_body_with_id(42, "octo/cat", "queued", &[], 9001);
    let sig = sign(&state.secret, &body);

    let h1 = headers("workflow_job", "real-delivery", &sig);
    assert_eq!(spool.deliver(&state, &h1, &body), Outcome::Accepted);
    let first = spool.new["9001.job"].clone();

    let h2 = headers("workflow_job", "attacker-replay-xyz", &sig);
    assert_eq!(spool.deliver(&state, &h2, &body), Outcome::Duplicate);
    assert_eq!(spool.new.len(), 1);
    assert_eq!(spool.new["9001.job"], first);
}

#[test]
fn label_filter_requires_all_expected_labels_present() {
    let mut spool = Spool::default();
    let state = state_with(&[42], &["self-hosted", "my-fleet"]);

    let body_partial = wfjob_body_with_id(42, "octo/cat", "queued", &["my-fleet", "linux"], 1);
    let sig = sign(&state.secret, &body_partial);
    let h = headers("workflow_job", "label-part", &sig);
    assert_eq!(
        spool.deliver(&state, &h, &body_partial),
        Outcome::Acknowledged
    );

    let body_full = wfjob_body_with_id(
        42,
        "octo/cat",
        "queued",
        &["self-hosted", "my-fleet", "linux"],
        2,
    );
    let sig = sign(&state.secret, &body_full);
    let h = headers("workflow_job", "label-full", &sig);
    assert_eq!(spool.deliver(&state, &h, &body_full), Outcome::Accepted);
}

#[test]
fn wrong_signature_is_unauthorized_and_does_not_enqueue() {
    let mut spool = Spool::default();
    let state = state_with(&[42], &[]);
    let body = wfjob_body(42, "octo/cat", "queued", &[]);
    let bad_sig = sign(b"different-secret", &body);
    let h = headers("workflow_job", "deadbeef-0002", &bad_sig);

    assert_eq!(spool.deliver(&state, &h, &body), Outcome::Unauthorized);
    assert!(spool.new.is_empty());
}

#[test]
fn missing_signature_header_is_unauthorized() {
    let state = state_with(&[42], &[]);
    let body = wfjob_body(42, "octo/cat", "queued", &[]);
    let h = fields(&[
        ("x-github-event", "workflow_job"),
        ("x-github-delivery", "d-0003"),
    ]);
    let out = process(&state, &h, &body).outcome();
    assert_eq!(out, Some(Outcome::Unauthorized));
}

#[test]
fn sha1_only_signature_is_unauthorized() {
    let state = state_with(&[42], &[]);
    let body = wfjob_body(42, "octo/cat", "queued", &[]);
    let h = fields(&[
        ("x-github-event", "workflow_job"),
        ("x-github-delivery", "d-0004"),
        ("x-hub-signature", "sha1=abcdef"),
    ]);
    let out = process(&state, &h, &body).outcome();
    assert_eq!(out, Some(Outcome::Unauthorized));
}

#[test]
fn malformed_signatures_are_unauthorized() {
    let state = state_with(&[42], &[]);
    let body = wfjob_body(42, "octo/cat", "queued", &[]);
    let good = sign(&state.secret, &body);
    for sig in [
        "".to_string(),
        "sha256=".to_string(),
        good["sha256=".len()..].to_string(),
        good[..good.len() - 1].to_string(),
        good[..good.len() - 2].to_string(),
        format!("{good}00"),
        format!("{}zz", &good[..good.len() - 2]),
        format!("SHA256={}", &good["sha256=".len()..]),
    ] {
        let h = headers("workflow_job", "d-sig", &sig);
        assert_eq!(reason_of(process(&state, &h, &body)), Reason::BadSignature);
    }
}

#[test]
fn upper_case_signature_is_stored_in_lower_case() {
    let state = state_with(&[42], &[]);
    let body = wfjob_body(42, "octo/cat", "queued", &[]);
    let sig = sign(&state.secret, &body);
    let shouted = format!("sha256={}", sig["sha256=".len()..].to_uppercase());
    assert_ne!(sig, shouted);
    let job = job_of(process(&state, &headers("workflow_job", "d", &shouted), &body));
    assert_eq!(job.signature, sig);
}

#[test]
fn allowlisted_public_repo_acknowledged_but_not_enqueued() {
    let mut spool = Spool::default();
    let state = state_with(&[42], &[]);
    let body = wfjob_body_full(42, "octo/cat", "queued", &[], 1, false, Some("public"));
    let sig = sign(&state.secret, &body);
    let h = headers("workflow_job", "deadbeef-pub1", &sig);

    assert_eq!(spool.deliver(&state, &h, &body), Outcome::Acknowledged);
    assert!(spool.new.is_empty());
    match process(&state, &h, &body) {
        Verdict::RefuseRepository(e) => {
            assert_eq!(e.delivery, "deadbeef-pub1");
            assert_eq!(e.repo_id, 42);
            assert!(!e.private);
            assert_eq!(e.visibility, Some("public".to_string()));
        }
        _ => panic!("the operator must be told"),
    }
}

#[test]
fn allowlisted_internal_repo_acknowledged_but_not_enqueued() {
    let mut spool = Spool::default();
    let state = state_with(&[42], &[]);
    let body = wfjob_body_full(42, "octo/cat", "queued", &[], 1, true, Some("internal"));
    let sig = sign(&state.secret, &body);
    let h = headers("workflow_job", "deadbeef-int1", &sig);

    assert_eq!(spool.deliver(&state, &h, &body), Outcome::Acknowledged);
    assert!(spool.new.is_empty());
}

#[test]
fn missing_visibility_field_acknowledged() {
    let mut spool = Spool::default();
    let state = state_with(&[42], &[]);
    let body = wfjob_body_full(42, "octo/cat", "queued", &[], 1, true, None);
    let sig = sign(&state.secret, &body);
    let h = headers("workflow_job", "deadbeef-novis", &sig);
    assert_eq!(spool.deliver(&state, &h, &body), Outcome::Acknowledged);
    assert!(spool.new.is_empty());
}

#[test]
fn missing_private_field_acknowledged() {
    let mut spool = Spool::default();
    let state = state_with(&[42], &[]);
    let body = serde_json::to_vec(&object(vec![
        ("action", Value::from("queued")),
        (
            "workflow_job",
            object(vec![
                ("id", Value::from(1)),
                ("labels", Value::from(Vec::<Value>::new())),
            ]),
        ),
        (
            "repository",
            object(vec![
                ("id", Value::from(42)),
                ("full_name", Value::from("octo/cat")),
                ("visibility", Value::from("private")),
            ]),
        ),
    ]))
    .unwrap();
    let sig = sign(&state.secret, &body);
    let h = headers("workflow_job", "deadbeef-noprv", &sig);
    assert_eq!(spool.deliver(&state, &h, &body), Outcome::Acknowledged);
}

#[test]
fn unallowed_repo_acknowledged_but_not_enqueued() {
    let mut spool = Spool::default();
    let state = state_with(&[42], &[]);
    let body = wfjob_body(999, "someone/else", "queued", &[]);
    let sig = sign(&state.secret, &body);
    let h = headers("workflow_job", "deadbeef-0005", &sig);

    assert_eq!(spool.deliver(&state, &h, &body), Outcome::Acknowledged);
    assert!(spool.new.is_empty());
    assert_eq!(
        reason_of(process(&state, &h, &body)),
        Reason::RepositoryNotAllowed
    );
}

#[test]
fn ping_event_acknowledged() {
    let state = state_with(&[42], &[]);
    let body = br#"{"zen":"Speak like a human."}"#;
    let sig = sign(&state.secret, body);
    let h = headers("ping", "deadbeef-0006", &sig);
    let verdict = process(&state, &h, body);
    assert_eq!(verdict.outcome(), Some(Outcome::Acknowledged));
    assert_eq!(reason_of(verdict), Reason::Ping);
}

#[test]
fn non_workflow_job_event_is_acknowledged() {
    let mut spool = Spool::default();
    let state = state_with(&[42], &[]);
    let body = wfjob_body(42, "octo/cat", "opened", &[]);
    let sig = sign(&state.secret, &body);
    let h = headers("pull_request", "deadbeef-pr01", &sig);

    assert_eq!(spool.deliver(&state, &h, &body), Outcome::Acknowledged);
    assert!(spool.new.is_empty());
    assert_eq!(reason_of(process(&state, &h, &body)), Reason::OtherEvent);
}

#[test]
fn event_header_must_be_there_and_well_formed() {
    let state = state_with(&[42], &[]);
    let body = wfjob_body(42, "octo/cat", "queued", &[]);
    let sig = sign(&state.secret, &body);
    let without = fields(&[("x-hub-signature-256", &sig)]);
    assert_eq!(reason_of(process(&state, &without, &body)), Reason::BadEvent);
    let h = headers("Workflow_Job", "d", &sig);
    let verdict = process(&state, &h, &body);
    assert_eq!(verdict.outcome(), Some(Outcome::BadRequest));
    let mut raw = headers("workflow_job", "d", &sig);
    raw.entries[0].1 = vec![b'w', 0xff];
    assert_eq!(reason_of(process(&state, &raw, &body)), Reason::BadEvent);
}

#[test]
fn first_value_of_a_repeated_field_counts() {
    let state = state_with(&[42], &[]);
    let body = wfjob_body(42, "octo/cat", "queued", &[]);
    let sig = sign(&state.secret, &body);
    let mut h = headers("ping", "d", &sig);
    h.entries
        .push(("x-github-event".to_string(), b"workflow_job".to_vec()));
    assert_eq!(reason_of(process(&state, &h, &body)), Reason::Ping);
}

#[test]
fn workflow_job_completed_action_is_acknowledged() {
    let state = state_with(&[42], &[]);
    let body = wfjob_body(42, "octo/cat", "completed", &[]);
    let sig = sign(&state.secret, &body);
    let h = headers("workflow_job", "deadbeef-done", &sig);
    let verdict = process(&state, &h, &body);
    assert_eq!(verdict.outcome(), Some(Outcome::Acknowledged));
    assert_eq!(reason_of(verdict), Reason::NotQueued);
}

#[test]
fn workflow_job_without_label_match_is_acknowledged() {
    let state = state_with(&[42], &["my-fleet"]);
    let body = wfjob_body(42, "octo/cat", "queued", &["self-hosted", "linux"]);
    let sig = sign(&state.secret, &body);
    let h = headers("workflow_job", "deadbeef-label", &sig);
    let verdict = process(&state, &h, &body);
    assert_eq!(verdict.outcome(), Some(Outcome::Acknowledged));
    assert_eq!(reason_of(verdict), Reason::LabelsMissing);
}

#[test]
fn workflow_job_with_label_match_is_enqueued() {
    let mut spool = Spool::default();
    let state = state_with(&[42], &["my-fleet"]);
    let body = wfjob_body(42, "octo/cat", "queued", &["self-hosted", "my-fleet"]);
    let sig = sign(&state.secret, &body);
    let h = headers("workflow_job", "deadbeef-mat1", &sig);
    assert_eq!(spool.deliver(&state, &h, &body), Outcome::Accepted);
}

#[test]
fn unsafe_delivery_id_is_rejected() {
    let state = state_with(&[42], &[]);
    let body = wfjob_body(42, "octo/cat", "queued", &[]);
    let sig = sign(&state.secret, &body);
    let h = headers("workflow_job", "../etc/passwd", &sig);
    let verdict = process(&state, &h, &body);
    assert_eq!(verdict.outcome(), Some(Outcome::BadRequest));
    assert_eq!(reason_of(verdict), Reason::BadDelivery);
}

#[test]
fn form_urlencoded_content_type_is_bad_request() {
    let state = state_with(&[42], &[]);
    let body = wfjob_body(42, "octo/cat", "queued", &[]);
    let sig = sign(&state.secret, &body);
    let mut h = headers("workflow_job", "deadbeef-ct01", &sig);
    h.entries[3].1 = b"application/x-www-form-urlencoded".to_vec();
    let verdict = process(&state, &h, &body);
    assert_eq!(verdict.outcome(), Some(Outcome::BadRequest));
    assert_eq!(reason_of(verdict), Reason::WrongContentType);
}

#[test]
fn content_type_takes_any_case_and_parameters() {
    for value in [
        "application/json",
        "Application/JSON",
        " application/json ",
        "application/json; charset=utf-8",
        "\tapplication/json\t;x=;y",
    ] {
        assert!(content_type_is_json(&fields(&[("content-type", value)])));
    }
    for value in ["", ";application/json", "application/jsonx", "application / json", "text/json"] {
        assert!(!content_type_is_json(&fields(&[("content-type", value)])));
    }
    assert!(!content_type_is_json(&fields(&[])));
}

#[test]
fn invalid_json_after_valid_hmac_is_bad_request() {
    let state = state_with(&[42], &[]);
    let body = b"not json {";
    let sig = sign(&state.secret, body);
    let h = headers("workflow_job", "deadbeef-0007", &sig);
    let verdict = process(&state, &h, body);
    assert_eq!(verdict.outcome(), Some(Outcome::BadRequest));
    assert_eq!(reason_of(verdict), Reason::MalformedBody);
}

#[test]
fn workflow_job_without_repository_is_acknowledged() {
    let state = state_with(&[42], &[]);
    let body = br#"{"action":"queued"}"#;
    let sig = sign(&state.secret, body);
    let h = headers("workflow_job", "deadbeef-0008", &sig);
    let verdict = process(&state, &h, body);
    assert_eq!(verdict.outcome(), Some(Outcome::Acknowledged));
    assert_eq!(reason_of(verdict), Reason::NoRepository);
}

#[test]
fn workflow_job_without_id_field_is_acknowledged() {
    let state = state_with(&[42], &[]);
    let body = serde_json::to_vec(&object(vec![
        ("action", Value::from("queued")),
        (
            "workflow_job",
            object(vec![("labels", Value::from(vec![Value::from("self-hosted")]))]),
        ),
        (
            "repository",
            object(vec![
                ("id", Value::from(42)),
                ("full_name", Value::from("octo/cat")),
                ("private", Value::from(true)),
                ("visibility", Value::from("private")),
            ]),
        ),
    ]))
    .unwrap();
    let sig = sign(&state.secret, &body);
    let h = headers("workflow_job", "no-id", &sig);
    let verdict = process(&state, &h, &body);
    assert_eq!(verdict.outcome(), Some(Outcome::Acknowledged));
    assert_eq!(reason_of(verdict), Reason::NoJobId);
}

#[test]
fn every_answer_has_its_status() {
    assert_eq!(Outcome::Accepted.status(), 200);
    assert_eq!(Outcome::Duplicate.status(), 200);
    assert_eq!(Outcome::Acknowledged.status(), 200);
    assert_eq!(Outcome::InFlight.status(), 503);
    assert_eq!(Outcome::Unauthorized.status(), 401);
    assert_eq!(Outcome::BadRequest.status(), 400);
    assert_eq!(Outcome::InternalError.status(), 500);
}

#[test]
fn dropped_deliveries_have_their_statuses() {
    let state = state_with(&[42], &[]);
    let body = wfjob_body(42, "octo/cat", "completed", &[]);
    let sig = sign(&state.secret, &body);
    let code = |h: &Headers, body: &[u8]| process(&state, h, body).outcome().unwrap().status();
    assert_eq!(code(&headers("workflow_job", "d", "sha256=00"), &body), 401);
    assert_eq!(code(&headers("Push", "d", &sig), &body), 400);
    assert_eq!(code(&headers("push", "../x", &sig), &body), 200);
    assert_eq!(code(&headers("workflow_job", "../x", &sig), &body), 400);
    assert_eq!(code(&headers("workflow_job", "d", &sig), &body), 200);
    let garbled = sign(&state.secret, b"{");
    assert_eq!(code(&headers("workflow_job", "d", &garbled), b"{"), 400);
}

#[test]
fn payload_fields_are_read_by_their_types() {
    let p = parse_payload(
        br#"{"action":7,"repository":{"id":-1,"private":"true","visibility":null,"full_name":["x"]},
            "workflow_job":{"id":18446744073709551615,"labels":["a",1,"b",null],"name":"n","head_sha":"s"}}"#,
    )
    .unwrap();
    assert_eq!(p.repo_id, None);
    assert!(!p.private);
    assert_eq!(p.visibility, None);
    assert_eq!(p.repo, "");
    assert_eq!(p.action, "");
    assert_eq!(p.workflow_job_id, Some(u64::MAX));
    assert_eq!(p.labels, vec!["a".to_string(), "b".to_string()]);
    assert_eq!(p.head_branch, "");
    assert_eq!(p.head_sha, "s");
    assert_eq!(p.job_name, "n");

    let empty = parse_payload(b"[]").unwrap();
    assert_eq!(empty.repo_id, None);
    assert!(empty.labels.is_empty());
    let float = parse_payload(br#"{"repository":{"id":42.0},"workflow_job":{"labels":"a"}}"#).unwrap();
    assert_eq!(float.repo_id, None);
    assert!(float.labels.is_empty());
    assert!(parse_payload(b"").is_none());
    assert!(parse_payload(b"{} x").is_none());
}

#[test]
fn labels_are_matched_as_a_subset() {
    let list = |l: &[&str]| -> Vec<String> { l.iter().map(|s| s.to_string()).collect() };
    assert!(has_labels(&list(&[]), &list(&[])));
    assert!(has_labels(&list(&["a", "b", "a"]), &list(&["b", "x", "a"])));
    assert!(!has_labels(&list(&["a", "A"]), &list(&["a"])));
    assert!(!has_labels(&list(&["a"]), &list(&[])));
}

#[test]
fn validators_cut_off_at_their_lengths() {
    assert!(is_valid_delivery(&"a".repeat(MAX_DELIVERY_ID_LEN)));
    assert!(!is_valid_delivery("caf\u{e9}"));
    assert!(is_valid_event(&"e".repeat(MAX_EVENT_LEN)));
    assert!(!is_valid_event(&"e".repeat(MAX_EVENT_LEN + 1)));
}

#[test]
fn log_text_is_left_alone_by_a_second_pass() {
    let once = sanitize_for_log("a\u{7f}b\u{85}c\u{a0}\u{1f600}\td");
    assert_eq!(once, "abc\u{a0}\u{1f600}d");
    assert_eq!(sanitize_for_log(&once), once);
    let long = sanitize_for_log(&"\u{e9}\n".repeat(300));
    assert_eq!(long.chars().count(), 128);
}

#[test]
fn delivery_validator_accepts_uuid_shape_only() {
    assert!(is_valid_delivery("72d3162e-cc78-11e3-81ab-4c9367dc0958"));
    assert!(is_valid_delivery("abc_123"));
    assert!(!is_valid_delivery(""));
    assert!(!is_valid_delivery("a/b"));
    assert!(!is_valid_delivery("../x"));
    assert!(!is_valid_delivery("abc.def"));
    assert!(!is_valid_delivery(&"a".repeat(MAX_DELIVERY_ID_LEN + 1)));
}

#[test]
fn sanitize_for_log_strips_control_chars_and_caps_length() {
    assert_eq!(sanitize_for_log("octo/cat"), "octo/cat");
    assert_eq!(sanitize_for_log("evil\nfake-log-line"), "evilfake-log-line");
    assert_eq!(sanitize_for_log("\x1b[31mred\x1b[0m"), "[31mred[0m");
    let long: String = "a".repeat(500);
    assert_eq!(sanitize_for_log(&long).len(), 128);
}

#[test]
fn event_validator_accepts_github_event_names() {
    assert!(is_valid_event("push"));
    assert!(is_valid_event("pull_request"));
    assert!(is_valid_event("ping"));
    assert!(is_valid_event("workflow_job"));
    assert!(is_valid_event("workflow_v2")); // forward-compat: digits OK
    assert!(is_valid_event("event_123"));
    assert!(!is_valid_event(""));
    assert!(!is_valid_event("Push"));
    assert!(!is_valid_event("pull-request"));
    assert!(!is_valid_event("../x"));
}
