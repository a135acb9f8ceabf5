//! The policy on a webhook delivery: authenticate it over the raw bytes, then
//! apply the event, repository, visibility, action and label gates.

use std::collections::HashSet;

use vstd::prelude::*;

use crate::auth::{hmac_matches, hmac_sha256, read_signature, signature_of};
use crate::headers::Headers;
use crate::payload::{parse_payload, payload_in, views, Payload, PayloadView};
use crate::spool::{Job, JobView};
use crate::text::{lower, same, to_lower, trim_end, trim_start, trimmed_until, until, view_of};

verus! {

/// Longest delivery identifier that is accepted.
pub const MAX_DELIVERY_ID_LEN: usize = 64;

/// Longest event name that is accepted. The longest one in use has 31
/// characters; the rest is room for names to come.
pub const MAX_EVENT_LEN: usize = 40;

/// Longest text that a log line takes from a payload.
pub const MAX_LOG_CHARS: usize = 128;

/// A character of a delivery identifier.
pub open spec fn delivery_char(c: char) -> bool {
    'a' <= c <= 'z' || 'A' <= c <= 'Z' || '0' <= c <= '9' || c == '-' || c == '_'
}

/// A delivery identifier: 1 to 64 letters, digits, `-` and `_`.
pub open spec fn delivery_ok(s: Seq<char>) -> bool {
    &&& 0 < s.len() <= MAX_DELIVERY_ID_LEN
    &&& forall|i: int| 0 <= i < s.len() ==> delivery_char(#[trigger] s[i])
}

/// A character of an event name.
pub open spec fn event_char(c: char) -> bool {
    'a' <= c <= 'z' || '0' <= c <= '9' || c == '_'
}

/// An event name: 1 to 40 lower-case letters, digits and `_`.
pub open spec fn event_ok(s: Seq<char>) -> bool {
    &&& 0 < s.len() <= MAX_EVENT_LEN
    &&& forall|i: int| 0 <= i < s.len() ==> event_char(#[trigger] s[i])
}

/// Whether `s` can stand as a delivery identifier.
pub fn is_valid_delivery(s: &str) -> (r: bool)
    ensures
        r == delivery_ok(s@),
{
    let mut count: usize = 0;
    for c in it: s.chars()
        invariant
            it.seq() == s@,
            count == it.index(),
            count <= MAX_DELIVERY_ID_LEN,
            forall|i: int| 0 <= i < count ==> delivery_char(#[trigger] s@[i]),
    {
        let good = ('a' <= c && c <= 'z') || ('A' <= c && c <= 'Z') || ('0' <= c && c <= '9') || c
            == '-' || c == '_';
        if !good || count == MAX_DELIVERY_ID_LEN {
            assert(s@[count as int] == c);
            return false;
        }
        count += 1;
    }
    count > 0
}

/// Whether `s` can stand as an event name. Digits are taken too, so that a
/// name to come is acknowledged and dropped rather than refused.
pub fn is_valid_event(s: &str) -> (r: bool)
    ensures
        r == event_ok(s@),
{
    let mut count: usize = 0;
    for c in it: s.chars()
        invariant
            it.seq() == s@,
            count == it.index(),
            count <= MAX_EVENT_LEN,
            forall|i: int| 0 <= i < count ==> event_char(#[trigger] s@[i]),
    {
        let good = ('a' <= c && c <= 'z') || ('0' <= c && c <= '9') || c == '_';
        if !good || count == MAX_EVENT_LEN {
            assert(s@[count as int] == c);
            return false;
        }
        count += 1;
    }
    count > 0
}

/// A control character: U+0000 to U+001F and U+007F to U+009F.
pub open spec fn control_char(c: char) -> bool {
    c <= '\u{1f}' || '\u{7f}' <= c <= '\u{9f}'
}

/// A text without its control characters.
pub open spec fn printable(s: Seq<char>) -> Seq<char> {
    s.filter(|c: char| !control_char(c))
}

/// A text as a log line takes it: without control characters, and cut after
/// the first 128 of the others.
pub open spec fn log_text(s: Seq<char>) -> Seq<char> {
    if printable(s).len() <= MAX_LOG_CHARS {
        printable(s)
    } else {
        printable(s).take(MAX_LOG_CHARS as int)
    }
}

/// Makes a text from a payload fit for a log line.
pub fn sanitize_for_log(s: &str) -> (r: String)
    ensures
        r@ == log_text(s@),
{
    let mut out = String::new();
    let mut count: usize = 0;
    for c in it: s.chars()
        invariant
            it.seq() == s@,
            out@ == log_text(s@.take(it.index() as int)),
            count == out@.len(),
            count <= MAX_LOG_CHARS,
    {
        let ghost before = s@.take(it.index() as int);
        let ghost after = s@.take(it.index() + 1);
        proof {
            assert(after == before.push(c));
            assert(after.drop_last() == before);
            reveal(Seq::filter);
        }
        let control = c <= '\u{1f}' || ('\u{7f}' <= c && c <= '\u{9f}');
        if !control && count < MAX_LOG_CHARS {
            out.push(c);
            count += 1;
        }
    }
    assert(s@.take(s@.len() as int) == s@);
    out
}

/// The media type of a `content-type` value: what stands before the first `;`,
/// without blanks around it, in lower case.
pub open spec fn media_type(value: Seq<char>) -> Seq<char> {
    lower(trim_end(trim_start(until(value, ';'))))
}

/// A request declares a JSON body.
pub open spec fn declares_json(headers: Headers) -> bool {
    match headers.field("content-type"@) {
        Some(value) => media_type(value) == "application/json"@,
        None => false,
    }
}

/// Whether the request declares a JSON body, in any case and with any
/// parameters.
pub fn content_type_is_json(headers: &Headers) -> (r: bool)
    ensures
        r == declares_json(*headers),
{
    match headers.get("content-type") {
        Some(value) => {
            let main = to_lower(trimmed_until(value.as_str(), ';').as_str());
            same(main.as_str(), "application/json")
        },
        None => false,
    }
}

/// What the service is configured with.
pub struct AppState {
    /// The shared secret.
    pub secret: Vec<u8>,
    /// The values of `repository.id` that may enqueue.
    pub allowed_repo_ids: HashSet<u64>,
    /// The labels that a job must carry, all of them.
    pub expected_labels: Vec<String>,
}

/// Why a delivery is answered without being enqueued.
#[derive(Clone, Copy, Debug, PartialEq, Eq, Structural)]
pub enum Reason {
    /// No signature, a malformed one, or one that does not match.
    BadSignature,
    /// No event name, or one that is not well-formed.
    BadEvent,
    /// The health check.
    Ping,
    /// An event other than `workflow_job`.
    OtherEvent,
    /// No delivery identifier, or one that is not well-formed.
    BadDelivery,
    /// The body is not declared as JSON.
    WrongContentType,
    /// The body is no JSON.
    MalformedBody,
    /// The payload has no `repository.id`.
    NoRepository,
    /// The repository is not on the allowlist.
    RepositoryNotAllowed,
    /// The action is not `queued`.
    NotQueued,
    /// The payload has no `workflow_job.id`.
    NoJobId,
    /// A required label is missing.
    LabelsMissing,
}

/// The answer to a delivery.
#[derive(Clone, Copy, Debug, PartialEq, Eq, Structural)]
pub enum Outcome {
    /// Newly enqueued.
    Accepted,
    /// Already enqueued by an earlier delivery.
    Duplicate,
    /// Deliberately not enqueued.
    Acknowledged,
    /// Another writer holds the job's temporary file. GitHub does not redeliver
    /// by itself.
    InFlight,
    /// The signature does not verify.
    Unauthorized,
    /// The request is malformed.
    BadRequest,
    /// The job could not be written. GitHub does not redeliver by itself.
    InternalError,
}

impl Outcome {
    /// The HTTP status code of the answer.
    pub open spec fn code(self) -> u16 {
        match self {
            Outcome::Accepted | Outcome::Duplicate | Outcome::Acknowledged => 200,
            Outcome::InFlight => 503,
            Outcome::Unauthorized => 401,
            Outcome::BadRequest => 400,
            Outcome::InternalError => 500,
        }
    }

    /// The HTTP status code of the answer.
    pub fn status(self) -> (r: u16)
        ensures
            r == self.code(),
    {
        match self {
            Outcome::Accepted | Outcome::Duplicate | Outcome::Acknowledged => 200,
            Outcome::InFlight => 503,
            Outcome::Unauthorized => 401,
            Outcome::BadRequest => 400,
            Outcome::InternalError => 500,
        }
    }
}

impl Reason {
    /// How the delivery is answered.
    pub open spec fn answer(self) -> Outcome {
        match self {
            Reason::BadSignature => Outcome::Unauthorized,
            Reason::BadEvent | Reason::BadDelivery | Reason::WrongContentType
            | Reason::MalformedBody => Outcome::BadRequest,
            _ => Outcome::Acknowledged,
        }
    }

    /// How the delivery is answered.
    pub fn outcome(self) -> (r: Outcome)
        ensures
            r == self.answer(),
    {
        match self {
            Reason::BadSignature => Outcome::Unauthorized,
            Reason::BadEvent | Reason::BadDelivery | Reason::WrongContentType
            | Reason::MalformedBody => Outcome::BadRequest,
            _ => Outcome::Acknowledged,
        }
    }
}

/// An allowlisted repository that is not private, as the payload shows it.
pub struct Exposure {
    pub delivery: String,
    pub repo_id: u64,
    pub private: bool,
    pub visibility: Option<String>,
}

/// The model of an [`Exposure`].
pub struct ExposureView {
    pub delivery: Seq<char>,
    pub repo_id: u64,
    pub private: bool,
    pub visibility: Option<Seq<char>>,
}

impl View for Exposure {
    type V = ExposureView;

    open spec fn view(&self) -> ExposureView {
        ExposureView {
            delivery: self.delivery@,
            repo_id: self.repo_id,
            private: self.private,
            visibility: view_of(self.visibility),
        }
    }
}

/// What becomes of a delivery.
pub enum Verdict {
    /// It is answered and dropped.
    Respond(Reason),
    /// It is acknowledged and dropped, and the operator is told: the allowlist
    /// names a repository that is not private.
    RefuseRepository(Exposure),
    /// It goes to the queue.
    Enqueue(Job),
}

/// The model of a [`Verdict`].
pub enum VerdictView {
    Respond(Reason),
    RefuseRepository(ExposureView),
    Enqueue(JobView),
}

impl View for Verdict {
    type V = VerdictView;

    open spec fn view(&self) -> VerdictView {
        match *self {
            Verdict::Respond(reason) => VerdictView::Respond(reason),
            Verdict::RefuseRepository(exposure) => VerdictView::RefuseRepository(exposure@),
            Verdict::Enqueue(job) => VerdictView::Enqueue(job@),
        }
    }
}

impl VerdictView {
    /// How a delivery that is not enqueued is answered.
    pub open spec fn answer(self) -> Option<Outcome> {
        match self {
            VerdictView::Respond(reason) => Some(reason.answer()),
            VerdictView::RefuseRepository(_) => Some(Outcome::Acknowledged),
            VerdictView::Enqueue(_) => None,
        }
    }
}

impl Verdict {
    /// How the delivery is answered; `None` where it is to be enqueued, and the
    /// answer depends on how that ends.
    pub fn outcome(&self) -> (r: Option<Outcome>)
        ensures
            r == self@.answer(),
    {
        match self {
            Verdict::Respond(reason) => Some(reason.outcome()),
            Verdict::RefuseRepository(_) => Some(Outcome::Acknowledged),
            Verdict::Enqueue(_) => None,
        }
    }
}

/// Every expected label is among those of a job.
pub open spec fn labels_present(expected: Seq<Seq<char>>, labels: Seq<Seq<char>>) -> bool {
    forall|i: int| 0 <= i < expected.len() ==> labels.contains(#[trigger] expected[i])
}

/// Whether every expected label is among those of a job.
pub fn has_labels(expected: &Vec<String>, labels: &Vec<String>) -> (r: bool)
    ensures
        r == labels_present(views(expected@), views(labels@)),
{
    let mut i: usize = 0;
    while i < expected.len()
        invariant
            i <= expected@.len(),
            forall|k: int|
                0 <= k < i ==> views(labels@).contains(#[trigger] views(expected@)[k]),
        decreases expected@.len() - i,
    {
        let mut found = false;
        let mut j: usize = 0;
        while j < labels.len() && !found
            invariant
                i < expected@.len(),
                j <= labels@.len(),
                found ==> views(labels@).contains(views(expected@)[i as int]),
                !found ==> forall|k: int|
                    0 <= k < j ==> views(labels@)[k] != views(expected@)[i as int],
            decreases labels@.len() - j,
        {
            if same(labels[j].as_str(), expected[i].as_str()) {
                assert(views(labels@)[j as int] == views(expected@)[i as int]);
                found = true;
            }
            j += 1;
        }
        if !found {
            assert(!views(labels@).contains(views(expected@)[i as int]));
            return false;
        }
        i += 1;
    }
    true
}

/// The fields that a job's envelope takes from a request.
pub struct Admission {
    pub event: String,
    pub delivery: String,
}

/// What the header fields of an authentic request say: the event and delivery
/// of a `workflow_job` with a JSON body, or why it goes no further.
pub open spec fn admission(headers: Headers) -> Result<(Seq<char>, Seq<char>), Reason> {
    let event = or_empty(headers.field("x-github-event"@));
    let delivery = or_empty(headers.field("x-github-delivery"@));
    if !event_ok(event) {
        Err(Reason::BadEvent)
    } else if event == "ping"@ {
        Err(Reason::Ping)
    } else if event != "workflow_job"@ {
        Err(Reason::OtherEvent)
    } else if !delivery_ok(delivery) {
        Err(Reason::BadDelivery)
    } else if !declares_json(headers) {
        Err(Reason::WrongContentType)
    } else {
        Ok((event, delivery))
    }
}

/// An optional text, empty where there is none.
pub open spec fn or_empty(s: Option<Seq<char>>) -> Seq<char> {
    match s {
        Some(s) => s,
        None => Seq::empty(),
    }
}

/// An optional text, empty where there is none.
fn text_or_empty(s: Option<String>) -> (r: String)
    ensures
        r@ == or_empty(view_of(s)),
{
    match s {
        Some(s) => s,
        None => String::new(),
    }
}

/// Applies the gates on the header fields of an authentic request.
pub fn screen(headers: &Headers) -> (r: Result<Admission, Reason>)
    ensures
        match r {
            Ok(a) => admission(*headers) == Ok::<(Seq<char>, Seq<char>), Reason>(
                (a.event@, a.delivery@),
            ),
            Err(reason) => admission(*headers) == Err::<(Seq<char>, Seq<char>), Reason>(reason),
        },
{
    let event = text_or_empty(headers.get("x-github-event"));
    if !is_valid_event(event.as_str()) {
        return Err(Reason::BadEvent);
    }
    if same(event.as_str(), "ping") {
        return Err(Reason::Ping);
    }
    // Only workflow_job starts runners: anything else that a webhook sends is
    // dropped here.
    if !same(event.as_str(), "workflow_job") {
        return Err(Reason::OtherEvent);
    }
    let delivery = text_or_empty(headers.get("x-github-delivery"));
    if !is_valid_delivery(delivery.as_str()) {
        return Err(Reason::BadDelivery);
    }
    if !content_type_is_json(headers) {
        return Err(Reason::WrongContentType);
    }
    Ok(Admission { event, delivery })
}

/// The verdict on the payload of an authentic, admitted request whose signature
/// has the lower-case digits `digits`.
pub open spec fn judgement(
    ids: Set<u64>,
    expected: Seq<Seq<char>>,
    digits: Seq<char>,
    event: Seq<char>,
    delivery: Seq<char>,
    p: PayloadView,
) -> VerdictView {
    match p.repo_id {
        None => VerdictView::Respond(Reason::NoRepository),
        Some(repo_id) => if !ids.contains(repo_id) {
            VerdictView::Respond(Reason::RepositoryNotAllowed)
        } else if !p.private || p.visibility != Some("private"@) {
            VerdictView::RefuseRepository(
                ExposureView { delivery, repo_id, private: p.private, visibility: p.visibility },
            )
        } else if p.action != "queued"@ {
            VerdictView::Respond(Reason::NotQueued)
        } else {
            match p.workflow_job_id {
                None => VerdictView::Respond(Reason::NoJobId),
                Some(workflow_job_id) => if !labels_present(expected, p.labels) {
                    VerdictView::Respond(Reason::LabelsMissing)
                } else {
                    VerdictView::Enqueue(
                        JobView {
                            event,
                            delivery,
                            repo_id,
                            repo: p.repo,
                            action: p.action,
                            workflow_job_id,
                            head_branch: p.head_branch,
                            head_sha: p.head_sha,
                            job_name: p.job_name,
                            signature: "sha256="@ + digits,
                        },
                    )
                },
            }
        },
    }
}

/// Applies the gates on the payload.
pub fn judge(state: &AppState, digits: &str, admission: Admission, payload: Payload) -> (r: Verdict)
    ensures
        r@ == judgement(
            state.allowed_repo_ids@,
            views(state.expected_labels@),
            digits@,
            admission.event@,
            admission.delivery@,
            payload@,
        ),
{
    broadcast use vstd::std_specs::hash::group_hash_axioms;

    let repo_id: u64 = match payload.repo_id {
        Some(repo_id) => repo_id,
        None => return Verdict::Respond(Reason::NoRepository),
    };
    if !state.allowed_repo_ids.contains(&repo_id) {
        return Verdict::Respond(Reason::RepositoryNotAllowed);
    }
    // An internal repository reports private == true, so the visibility counts
    // too; a payload without it is refused.
    let visible_privately = match &payload.visibility {
        Some(visibility) => same(visibility.as_str(), "private"),
        None => false,
    };
    if !payload.private || !visible_privately {
        return Verdict::RefuseRepository(
            Exposure {
                delivery: admission.delivery,
                repo_id,
                private: payload.private,
                visibility: payload.visibility,
            },
        );
    }
    if !same(payload.action.as_str(), "queued") {
        return Verdict::Respond(Reason::NotQueued);
    }
    let workflow_job_id: u64 = match payload.workflow_job_id {
        Some(id) => id,
        None => return Verdict::Respond(Reason::NoJobId),
    };
    if !has_labels(&state.expected_labels, &payload.labels) {
        return Verdict::Respond(Reason::LabelsMissing);
    }
    let mut signature = "sha256=".to_owned();
    signature.append(digits);
    Verdict::Enqueue(
        Job {
            event: admission.event,
            delivery: admission.delivery,
            repo_id,
            repo: payload.repo,
            action: payload.action,
            workflow_job_id,
            head_branch: payload.head_branch,
            head_sha: payload.head_sha,
            job_name: payload.job_name,
            signature,
        },
    )
}

/// The digits of an authentic request's signature, in lower case.
pub open spec fn authentic(secret: Seq<u8>, headers: Headers, body: Seq<u8>) -> Option<Seq<char>> {
    match signature_of(headers.field("x-hub-signature-256"@)) {
        Some((tag, digits)) => if tag == hmac_sha256(secret, body) {
            Some(digits)
        } else {
            None
        },
        None => None,
    }
}

/// What becomes of a request.
pub open spec fn verdict(
    secret: Seq<u8>,
    ids: Set<u64>,
    expected: Seq<Seq<char>>,
    headers: Headers,
    body: Seq<u8>,
) -> VerdictView {
    match authentic(secret, headers, body) {
        None => VerdictView::Respond(Reason::BadSignature),
        Some(digits) => match admission(headers) {
            Err(reason) => VerdictView::Respond(reason),
            Ok((event, delivery)) => match payload_in(body) {
                None => VerdictView::Respond(Reason::MalformedBody),
                Some(payload) => judgement(ids, expected, digits, event, delivery, payload),
            },
        },
    }
}

/// Decides what becomes of a request: its signature is checked over the raw
/// bytes before anything is read out of them.
pub fn process(state: &AppState, headers: &Headers, body: &[u8]) -> (r: Verdict)
    ensures
        r@ == verdict(
            state.secret@,
            state.allowed_repo_ids@,
            views(state.expected_labels@),
            *headers,
            body@,
        ),
{
    let signature = match read_signature(&headers.get("x-hub-signature-256")) {
        Some(signature) => signature,
        None => return Verdict::Respond(Reason::BadSignature),
    };
    if !hmac_matches(state.secret.as_slice(), body, signature.tag.as_slice()) {
        return Verdict::Respond(Reason::BadSignature);
    }
    let admission = match screen(headers) {
        Ok(admission) => admission,
        Err(reason) => return Verdict::Respond(reason),
    };
    match parse_payload(body) {
        Some(payload) => judge(state, signature.digits.as_str(), admission, payload),
        None => Verdict::Respond(Reason::MalformedBody),
    }
}

} // verus!
