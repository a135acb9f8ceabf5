//! Laws of what becomes of a delivery and of what is written for it, from the raw
//! request to the answer and to the file.

use vstd::prelude::*;

use crate::auth::hmac_sha256;
use crate::enqueue::{outcome_of, EnqueueResult};
use crate::headers::Headers;
use crate::json::{object_of, parsed, written, Json};
use crate::payload::{nested, payload_of, texts, views, Payload};
use crate::request_laws::{
    among, carries, declares, has, has_id, has_in, has_text, identifies_a_delivery, labelled,
    lemma_among, lemma_authentic, lemma_declares, lemma_field, lemma_nested, lemma_payload_says,
    names_an_event, signed, text_or_none,
};
use crate::spool::{frame, is_safe_filename, job_file, received_at_ms, Envelope, Job};
use crate::text_laws::{lemma_digits_denote, numeral, well_formed_numeral};
use crate::webhook::{
    delivery_ok, event_ok, judge, labels_present, or_empty, process, screen, Admission, AppState,
    Outcome, Reason, Verdict,
};
use crate::webhook_laws::{hex_text, law_envelope_has_its_members};

verus! {

/// A verdict answers at once, for this reason.
pub open spec fn answers(r: Verdict, reason: Reason) -> bool {
    r matches Verdict::Respond(given) && given == reason
}

/// A request is signed under the secret.
pub open spec fn authorized(state: AppState, headers: Headers, body: Seq<u8>) -> bool {
    signed(headers, hmac_sha256(state.secret@, body))
}

/// A request carries a delivery identifier.
pub open spec fn identified(headers: Headers) -> bool {
    exists|id: Seq<char>| #[trigger]
        carries(headers, "x-github-delivery"@, id) && identifies_a_delivery(id)
}

/// A request carries an event name.
pub open spec fn names_its_event(headers: Headers) -> bool {
    exists|event: Seq<char>| #[trigger]
        carries(headers, "x-github-event"@, event) && names_an_event(event)
}

/// A signed request of a `workflow_job` under a delivery identifier, with a content type
/// of JSON.
pub open spec fn admitted(state: AppState, headers: Headers, body: Seq<u8>) -> bool {
    &&& authorized(state, headers, body)
    &&& carries(headers, "x-github-event"@, "workflow_job"@)
    &&& identified(headers)
    &&& declares(headers)
}

/// A document names a repository.
pub open spec fn names_repository(document: Json) -> bool {
    exists|id: u64| has_id(document, "repository"@, id)
}

/// A document names a repository of the allowlist.
pub open spec fn allowed(state: AppState, document: Json) -> bool {
    exists|id: u64|
        #![trigger has_id(document, "repository"@, id)]
        has_id(document, "repository"@, id) && state.allowed_repo_ids@.contains(id)
}

/// A document says of its repository that it is private, and visible privately.
pub open spec fn private(document: Json) -> bool {
    &&& has_in(document, "repository"@, "private"@, Json::Bool(true))
    &&& has_text(document, "repository"@, "visibility"@, "private"@)
}

/// A document says that the action is `queued`.
pub open spec fn queued(document: Json) -> bool {
    has(document, "action"@, Json::Text("queued"@))
}

/// A document names a job.
pub open spec fn names_job(document: Json) -> bool {
    exists|id: u64| has_id(document, "workflow_job"@, id)
}

/// The job of a document carries every expected label.
pub open spec fn fully_labelled(state: AppState, document: Json) -> bool {
    forall|i: int|
        0 <= i < state.expected_labels@.len() ==> labelled(
            document,
            (#[trigger] state.expected_labels@[i])@,
        )
}

/// A label is among the texts of a list exactly where it is one of its items.
proof fn lemma_text_is_an_item(items: Seq<Json>, label: Seq<char>)
    ensures
        texts(items).contains(label) <==> items.contains(Json::Text(label)),
    decreases items.len(),
{
    if items.len() > 0 {
        let front = items.drop_last();
        lemma_text_is_an_item(front, label);
        assert(items == front.push(items.last()));
        if texts(items).contains(label) {
            let i = choose|i: int| 0 <= i < texts(items).len() && texts(items)[i] == label;
            if i < texts(front).len() {
                assert(texts(front)[i] == label);
                let j = choose|j: int| 0 <= j < front.len() && front[j] == Json::Text(label);
                assert(items[j] == Json::Text(label));
            } else {
                assert(items[items.len() - 1] == Json::Text(label));
            }
        }
        if items.contains(Json::Text(label)) {
            let j = choose|j: int| 0 <= j < items.len() && items[j] == Json::Text(label);
            if j < front.len() {
                assert(front[j] == Json::Text(label));
                let i = choose|i: int| 0 <= i < texts(front).len() && texts(front)[i] == label;
                assert(texts(items)[i] == label);
            } else {
                assert(texts(items)[texts(items).len() - 1] == label);
            }
        }
    }
}

/// A label is among those that are read of a document exactly where its job carries it.
proof fn lemma_labelled(document: Json, label: Seq<char>)
    ensures
        payload_of(document).labels.contains(label) <==> labelled(document, label),
{
    let (outer, inner) = ("workflow_job"@, "labels"@);
    match nested(document, outer, inner) {
        Some(Json::Array(items)) => {
            lemma_nested(document, outer, inner, Json::Array(items));
            lemma_text_is_an_item(items, label);
            assert(has_in(document, outer, inner, Json::Array(items)));
            if labelled(document, label) {
                let others = choose|others: Seq<Json>|
                    #![trigger has_in(document, "workflow_job"@, "labels"@, Json::Array(others))]
                    has_in(document, "workflow_job"@, "labels"@, Json::Array(others))
                        && others.contains(Json::Text(label));
                lemma_nested(document, outer, inner, Json::Array(others));
                assert(others == items);
            }
        },
        _ => {
            if labelled(document, label) {
                let others = choose|others: Seq<Json>|
                    #![trigger has_in(document, "workflow_job"@, "labels"@, Json::Array(others))]
                    has_in(document, "workflow_job"@, "labels"@, Json::Array(others))
                        && others.contains(Json::Text(label));
                lemma_nested(document, outer, inner, Json::Array(others));
            }
        },
    }
}

/// The label gate passes exactly where the job carries every expected label.
proof fn lemma_fully_labelled(state: AppState, document: Json)
    ensures
        labels_present(views(state.expected_labels@), payload_of(document).labels)
            <==> fully_labelled(state, document),
{
    let want = views(state.expected_labels@);
    let have = payload_of(document).labels;
    if labels_present(want, have) {
        assert forall|i: int| 0 <= i < state.expected_labels@.len() implies labelled(
            document,
            (#[trigger] state.expected_labels@[i])@,
        ) by {
            assert(have.contains(want[i]));
            lemma_labelled(document, want[i]);
        }
    } else {
        let i = choose|i: int| 0 <= i < want.len() && !have.contains(#[trigger] want[i]);
        lemma_labelled(document, want[i]);
        assert(want[i] == state.expected_labels@[i]@);
    }
}

/// What the gates on the header fields go by.
proof fn lemma_header_gates(headers: Headers)
    ensures
        event_ok(or_empty(headers.field("x-github-event"@))) <==> names_its_event(headers),
        delivery_ok(or_empty(headers.field("x-github-delivery"@))) <==> identified(headers),
        forall|event: Seq<char>|
            event.len() > 0 ==> (or_empty(headers.field("x-github-event"@)) == event <==> (
            #[trigger] carries(headers, "x-github-event"@, event))),
        headers.field("x-github-delivery"@) matches Some(id) ==> carries(
            headers,
            "x-github-delivery"@,
            id,
        ),
        "workflow_job"@.len() == 12,
        "ping"@.len() == 4,
        event_ok("workflow_job"@),
        event_ok("ping"@),
{
    reveal_strlit("workflow_job");
    reveal_strlit("ping");
    let (event, id) = ("x-github-event"@, "x-github-delivery"@);
    assert forall|text: Seq<char>| text.len() > 0 implies (or_empty(headers.field(event)) == text
        <==> (#[trigger] carries(headers, event, text))) by {
        lemma_field(headers, event, text);
    }
    assert forall|text: Seq<char>| text.len() > 0 implies (or_empty(headers.field(id)) == text <==> (
    #[trigger] carries(headers, id, text))) by {
        lemma_field(headers, id, text);
    }
    if event_ok(or_empty(headers.field(event))) {
        assert(carries(headers, event, or_empty(headers.field(event))));
    }
    if names_its_event(headers) {
        let text = choose|text: Seq<char>| #[trigger]
            carries(headers, event, text) && names_an_event(text);
        assert(event_ok(text));
    }
    if delivery_ok(or_empty(headers.field(id))) {
        assert(carries(headers, id, or_empty(headers.field(id))));
    }
    if identified(headers) {
        let text = choose|text: Seq<char>| #[trigger]
            carries(headers, id, text) && identifies_a_delivery(text);
        assert(delivery_ok(text));
    }
    if let Some(text) = headers.field(id) {
        lemma_field(headers, id, text);
    }
}

/// A request is stopped by its header fields exactly so: it is refused as unsigned
/// exactly where its first signature does not spell the HMAC of the body under the
/// secret, of whatever length; then goes what its event, its delivery identifier and its
/// content type say; and then whether its body parses.
pub proof fn law_header_gates_stop_exactly_what_they_name(
    state: &AppState,
    headers: &Headers,
    body: &[u8],
    r: Verdict,
)
    requires
        call_ensures(process, (state, headers, body), r),
    ensures
        ({
            let signed = authorized(*state, *headers, body@);
            let event = "x-github-event"@;
            let of_job = signed && carries(*headers, event, "workflow_job"@);
            &&& answers(r, Reason::BadSignature) <==> !signed
            &&& answers(r, Reason::BadEvent) <==> signed && !names_its_event(*headers)
            &&& answers(r, Reason::Ping) <==> signed && carries(*headers, event, "ping"@)
            &&& answers(r, Reason::OtherEvent) <==> signed && names_its_event(*headers) && !carries(
                *headers,
                event,
                "ping"@,
            ) && !carries(*headers, event, "workflow_job"@)
            &&& answers(r, Reason::BadDelivery) <==> of_job && !identified(*headers)
            &&& answers(r, Reason::WrongContentType) <==> of_job && identified(*headers)
                && !declares(*headers)
            &&& answers(r, Reason::MalformedBody) <==> admitted(*state, *headers, body@) && parsed(
                body@,
            ) is None
        }),
{
    lemma_authentic(state.secret@, *headers, body@);
    lemma_header_gates(*headers);
    lemma_declares(*headers);
    assert("workflow_job"@ != "ping"@);
}

/// An admitted request is stopped by its document exactly so, gate by gate: whether it
/// names a repository, an allowed one, a private one; whether the action is `queued`,
/// whether it names a job, and whether that carries every expected label, each compared
/// whole.
pub proof fn law_document_gates_stop_exactly_what_they_name(
    state: &AppState,
    headers: &Headers,
    body: &[u8],
    r: Verdict,
)
    requires
        call_ensures(process, (state, headers, body), r),
    ensures
        ({
            let document = parsed(body@)->0;
            let read = admitted(*state, *headers, body@) && parsed(body@) is Some;
            let own = read && allowed(*state, document) && private(document);
            &&& answers(r, Reason::NoRepository) <==> read && !names_repository(document)
            &&& answers(r, Reason::RepositoryNotAllowed) <==> read && names_repository(document)
                && !allowed(*state, document)
            &&& r is RefuseRepository <==> read && allowed(*state, document) && !private(document)
            &&& answers(r, Reason::NotQueued) <==> own && !queued(document)
            &&& answers(r, Reason::NoJobId) <==> own && queued(document) && !names_job(document)
            &&& answers(r, Reason::LabelsMissing) <==> own && queued(document) && names_job(
                document,
            ) && !fully_labelled(*state, document)
            &&& r is Enqueue <==> own && queued(document) && names_job(document) && fully_labelled(
                *state,
                document,
            )
        }),
{
    lemma_authentic(state.secret@, *headers, body@);
    lemma_header_gates(*headers);
    lemma_declares(*headers);
    assert("workflow_job"@ != "ping"@);
    if let Some(document) = parsed(body@) {
        let p = payload_of(document);
        lemma_payload_says(document);
        lemma_fully_labelled(*state, document);
        lemma_queued(document);
        if let Some(id) = p.repo_id {
            assert(has_id(document, "repository"@, id));
        }
        if names_repository(document) {
            let id = choose|id: u64| has_id(document, "repository"@, id);
            assert(p.repo_id == Some(id));
        }
        if allowed(*state, document) {
            let id = choose|id: u64|
                #![trigger has_id(document, "repository"@, id)]
                has_id(document, "repository"@, id) && state.allowed_repo_ids@.contains(id);
            assert(p.repo_id == Some(id));
        }
        if let Some(id) = p.workflow_job_id {
            assert(has_id(document, "workflow_job"@, id));
        }
        if names_job(document) {
            let id = choose|id: u64| has_id(document, "workflow_job"@, id);
            assert(p.workflow_job_id == Some(id));
        }
        assert(has_text(document, "repository"@, "visibility"@, "private"@) <==> p.visibility
            == Some("private"@));
    }
}

/// The action that is read is `queued` exactly where the document says so.
proof fn lemma_queued(document: Json)
    ensures
        payload_of(document).action == "queued"@ <==> queued(document),
{
    reveal_strlit("queued");
    lemma_payload_says(document);
    if queued(document) {
        assert(has(document, "action"@, Json::Text("queued"@)));
    }
}

/// A job that is enqueued is the one that the signed document names: its identifier is
/// `workflow_job.id`, its repository `repository.id`, and its hints are the document's,
/// unchanged; its delivery is the one that the request carries, and its signature the
/// HMAC of the body in small digits.
pub proof fn law_enqueued_job_is_the_one_of_the_document(
    state: &AppState,
    headers: &Headers,
    body: &[u8],
    r: Verdict,
)
    requires
        call_ensures(process, (state, headers, body), r),
    ensures
        r matches Verdict::Enqueue(job) ==> {
            let document = parsed(body@)->0;
            &&& job.event@ == "workflow_job"@
            &&& carries(*headers, "x-github-delivery"@, job.delivery@)
            &&& has_id(document, "repository"@, job.repo_id)
            &&& state.allowed_repo_ids@.contains(job.repo_id)
            &&& text_or_none(document, "repository"@, "full_name"@, job.repo@)
            &&& job.action@ == "queued"@
            &&& has_id(document, "workflow_job"@, job.workflow_job_id)
            &&& text_or_none(document, "workflow_job"@, "head_branch"@, job.head_branch@)
            &&& text_or_none(document, "workflow_job"@, "head_sha"@, job.head_sha@)
            &&& text_or_none(document, "workflow_job"@, "name"@, job.job_name@)
            &&& job.signature@ == "sha256="@ + hex_text(hmac_sha256(state.secret@, body@))
        },
{
    lemma_authentic(state.secret@, *headers, body@);
    lemma_header_gates(*headers);
    if let Some(document) = parsed(body@) {
        lemma_payload_says(document);
        if let Verdict::Enqueue(job) = r {
            assert(job@ == r@->Enqueue_0);
            assert(has_id(document, "repository"@, job.repo_id));
            assert(has_id(document, "workflow_job"@, job.workflow_job_id));
        }
    }
}

/// What the operator is told of a repository that is not private is what the document
/// says of it.
pub proof fn law_exposure_is_what_the_document_says(
    state: &AppState,
    headers: &Headers,
    body: &[u8],
    r: Verdict,
)
    requires
        call_ensures(process, (state, headers, body), r),
    ensures
        r matches Verdict::RefuseRepository(e) ==> {
            let document = parsed(body@)->0;
            &&& carries(*headers, "x-github-delivery"@, e.delivery@)
            &&& has_id(document, "repository"@, e.repo_id)
            &&& e.private <==> has_in(document, "repository"@, "private"@, Json::Bool(true))
            &&& match e.visibility {
                Some(text) => has_text(document, "repository"@, "visibility"@, text@),
                None => forall|text: Seq<char>|
                    !(#[trigger] has_text(document, "repository"@, "visibility"@, text)),
            }
        },
{
    lemma_authentic(state.secret@, *headers, body@);
    lemma_header_gates(*headers);
    if let Some(document) = parsed(body@) {
        lemma_payload_says(document);
        if let Verdict::RefuseRepository(e) = r {
            assert(e@ == r@->RefuseRepository_0);
            assert(has_id(document, "repository"@, e.repo_id));
            if let Some(text) = e.visibility {
                assert(e@.visibility == Some(text@));
                assert(has_text(document, "repository"@, "visibility"@, text@));
            }
        }
    }
}

/// [`screen`] lets a request through exactly where its event is `workflow_job`, it
/// carries a delivery identifier and its content type names JSON, and gives those two
/// texts; otherwise it names the first of them that stops it.
pub proof fn law_screen_lets_jobs_through_alone(
    headers: &Headers,
    r: Result<Admission, Reason>,
)
    requires
        call_ensures(screen, (headers,), r),
    ensures
        ({
            let event = "x-github-event"@;
            let of_job = carries(*headers, event, "workflow_job"@);
            &&& r is Ok <==> of_job && identified(*headers) && declares(*headers)
            &&& r matches Ok(a) ==> {
                &&& a.event@ == "workflow_job"@
                &&& carries(*headers, "x-github-delivery"@, a.delivery@)
            }
            &&& r matches Err(reason) ==> reason == if !names_its_event(*headers) {
                Reason::BadEvent
            } else if carries(*headers, event, "ping"@) {
                Reason::Ping
            } else if !of_job {
                Reason::OtherEvent
            } else if !identified(*headers) {
                Reason::BadDelivery
            } else {
                Reason::WrongContentType
            }
        }),
{
    lemma_header_gates(*headers);
    lemma_declares(*headers);
    assert("workflow_job"@ != "ping"@);
}

/// [`judge`] enqueues a job exactly where the payload passes every gate, with the
/// payload's own fields and the digits that it is given, all of them; otherwise the first
/// gate that stops it decides.
pub proof fn law_judge_goes_by_the_payload(
    state: &AppState,
    digits: &str,
    admission: Admission,
    payload: Payload,
    r: Verdict,
)
    requires
        call_ensures(judge, (state, digits, admission, payload), r),
    ensures
        ({
            let listed = payload.repo_id matches Some(id) && state.allowed_repo_ids@.contains(id);
            let private = payload.private && (payload.visibility matches Some(v) && v@
                == "private"@);
            let queued = payload.action@ == "queued"@;
            let labels = forall|i: int|
                0 <= i < state.expected_labels@.len() ==> among(
                    payload.labels@,
                    (#[trigger] state.expected_labels@[i])@,
                );
            &&& answers(r, Reason::NoRepository) <==> payload.repo_id is None
            &&& answers(r, Reason::RepositoryNotAllowed) <==> payload.repo_id is Some && !listed
            &&& r is RefuseRepository <==> listed && !private
            &&& answers(r, Reason::NotQueued) <==> listed && private && !queued
            &&& answers(r, Reason::NoJobId) <==> listed && private && queued
                && payload.workflow_job_id is None
            &&& answers(r, Reason::LabelsMissing) <==> listed && private && queued
                && payload.workflow_job_id is Some && !labels
            &&& r is Enqueue <==> listed && private && queued && payload.workflow_job_id is Some
                && labels
            &&& r matches Verdict::RefuseRepository(e) ==> {
                &&& e.delivery@ == admission.delivery@
                &&& Some(e.repo_id) == payload.repo_id
                &&& e.private == payload.private
                &&& e.visibility is Some <==> payload.visibility is Some
                &&& e.visibility matches Some(v) ==> v@ == (payload.visibility->0)@
            }
            &&& r matches Verdict::Enqueue(job) ==> {
                &&& job.event@ == admission.event@
                &&& job.delivery@ == admission.delivery@
                &&& Some(job.repo_id) == payload.repo_id
                &&& job.repo@ == payload.repo@
                &&& job.action@ == payload.action@
                &&& Some(job.workflow_job_id) == payload.workflow_job_id
                &&& job.head_branch@ == payload.head_branch@
                &&& job.head_sha@ == payload.head_sha@
                &&& job.job_name@ == payload.job_name@
                &&& job.signature@ == "sha256="@ + digits@
            }
        }),
{
    lemma_among(state.expected_labels@, payload.labels@);
    match r {
        Verdict::Enqueue(job) => {
            assert(job@ == r@->Enqueue_0);
        },
        Verdict::RefuseRepository(e) => {
            assert(e@ == r@->RefuseRepository_0);
            assert(e@.visibility == payload@.visibility);
        },
        Verdict::Respond(_) => {},
    }
}

/// The status of every answer.
pub proof fn law_every_outcome_has_its_status(outcome: Outcome, code: u16)
    requires
        call_ensures(Outcome::status, (outcome,), code),
    ensures
        code == 200 <==> outcome == Outcome::Accepted || outcome == Outcome::Duplicate || outcome
            == Outcome::Acknowledged,
        code == 503 <==> outcome == Outcome::InFlight,
        code == 401 <==> outcome == Outcome::Unauthorized,
        code == 400 <==> outcome == Outcome::BadRequest,
        code == 500 <==> outcome == Outcome::InternalError,
{
}

/// The answer to every reason.
pub proof fn law_every_reason_has_its_answer(reason: Reason, outcome: Outcome)
    requires
        call_ensures(Reason::outcome, (reason,), outcome),
    ensures
        outcome == Outcome::Unauthorized <==> reason == Reason::BadSignature,
        outcome == Outcome::BadRequest <==> reason == Reason::BadEvent || reason
            == Reason::BadDelivery || reason == Reason::WrongContentType || reason
            == Reason::MalformedBody,
        outcome == Outcome::Unauthorized || outcome == Outcome::BadRequest || outcome
            == Outcome::Acknowledged,
{
}

/// What is decided on a request has its answer, but where the job is to be enqueued.
pub proof fn law_every_decision_has_its_answer(
    verdict: Verdict,
    r: Option<Outcome>,
    reason: Reason,
    outcome: Outcome,
)
    requires
        call_ensures(Verdict::outcome, (&verdict,), r),
        call_ensures(Reason::outcome, (reason,), outcome),
    ensures
        r is None <==> verdict is Enqueue,
        answers(verdict, reason) ==> r == Some(outcome),
        verdict is RefuseRepository ==> r == Some(Outcome::Acknowledged),
{
}

/// The answer to every end of an enqueue.
pub proof fn law_every_end_has_its_answer(end: Option<EnqueueResult>, r: Outcome)
    requires
        call_ensures(outcome_of, (end,), r),
    ensures
        r == Outcome::Accepted <==> end == Some(EnqueueResult::Wrote),
        r == Outcome::Duplicate <==> end == Some(EnqueueResult::Duplicate),
        r == Outcome::InFlight <==> end == Some(EnqueueResult::InFlight),
        r == Outcome::InternalError <==> end is None,
{
}

/// The file of a job is named by the decimal numeral of its identifier and `.job`.
pub proof fn law_file_is_named_by_the_job_identifier(job: &Job, name: String)
    requires
        call_ensures(Job::filename, (job,), name),
    ensures
        name@.len() > 4,
        name@.skip(name@.len() - 4) == ".job"@,
        ({
            let stem = name@.take(name@.len() - 4);
            well_formed_numeral(stem, 10) && numeral(stem, 10) == job.workflow_job_id
        }),
{
    reveal_strlit(".job");
    let stem = crate::text::digits(job.workflow_job_id as nat, 10);
    lemma_digits_denote(job.workflow_job_id as nat, 10);
    assert(name@.take(name@.len() - 4) == stem);
    assert(name@.skip(name@.len() - 4) == ".job"@);
}

/// An envelope has the fields of its job, unchanged, the time, and schema 2.
pub proof fn law_envelope_keeps_the_job(job: Job, received_at_ms: u64, r: Envelope)
    requires
        call_ensures(Job::into_envelope, (job, received_at_ms), r),
    ensures
        r.schema == 2,
        r.event@ == job.event@,
        r.delivery@ == job.delivery@,
        r.repo_id == job.repo_id,
        r.repo@ == job.repo@,
        r.action@ == job.action@,
        r.workflow_job_id == job.workflow_job_id,
        r.head_branch@ == job.head_branch@,
        r.head_sha@ == job.head_sha@,
        r.job_name@ == job.job_name@,
        r.received_at_ms == received_at_ms,
        r.signature@ == job.signature@,
{
    let (e, j) = (r@, job@);
    assert(e.job == j);
    assert(e.job.event == r.event@ && j.event == job.event@);
}

/// A document is an envelope's object: it has the twelve members, each the envelope's
/// own field, and no other.
pub open spec fn is_object_of(document: Json, e: Envelope) -> bool {
    &&& document is Object
    &&& document->Object_0.dom() == set![
        "schema"@,
        "event"@,
        "delivery"@,
        "repo_id"@,
        "repo"@,
        "action"@,
        "workflow_job_id"@,
        "head_branch"@,
        "head_sha"@,
        "job_name"@,
        "received_at_ms"@,
        "signature"@,
    ]
    &&& has(document, "schema"@, Json::Number(Some(e.schema as u64)))
    &&& has(document, "event"@, Json::Text(e.event@))
    &&& has(document, "delivery"@, Json::Text(e.delivery@))
    &&& has(document, "repo_id"@, Json::Number(Some(e.repo_id)))
    &&& has(document, "repo"@, Json::Text(e.repo@))
    &&& has(document, "action"@, Json::Text(e.action@))
    &&& has(document, "workflow_job_id"@, Json::Number(Some(e.workflow_job_id)))
    &&& has(document, "head_branch"@, Json::Text(e.head_branch@))
    &&& has(document, "head_sha"@, Json::Text(e.head_sha@))
    &&& has(document, "job_name"@, Json::Text(e.job_name@))
    &&& has(document, "received_at_ms"@, Json::Number(Some(e.received_at_ms)))
    &&& has(document, "signature"@, Json::Text(e.signature@))
}

/// The names of an object are those of the list that it is made of.
proof fn lemma_object_names(members: Seq<(Seq<char>, Json)>, name: Seq<char>)
    ensures
        object_of(members).dom().contains(name) <==> exists|i: int|
            0 <= i < members.len() && (#[trigger] members[i]).0 == name,
    decreases members.len(),
{
    if members.len() > 0 {
        let front = members.drop_last();
        lemma_object_names(front, name);
        assert(members[members.len() - 1] == members.last());
        if exists|i: int| 0 <= i < front.len() && (#[trigger] front[i]).0 == name {
            let i = choose|i: int| 0 <= i < front.len() && (#[trigger] front[i]).0 == name;
            assert(members[i].0 == name);
        }
        if exists|i: int| 0 <= i < members.len() && (#[trigger] members[i]).0 == name {
            let i = choose|i: int| 0 <= i < members.len() && (#[trigger] members[i]).0 == name;
            if i < front.len() {
                assert(front[i].0 == name);
            }
        }
    }
}

/// The object of an envelope's members is the envelope's object.
proof fn lemma_object(e: Envelope)
    ensures
        is_object_of(Json::Object(object_of(e@.members())), e),
{
    let all = e@.members();
    let document = Json::Object(object_of(all));
    assert(all.len() == 12);
    assert forall|i: int| 0 <= i < 12 implies has(
        document,
        (#[trigger] all[i]).0,
        all[i].1,
    ) by {
        law_envelope_has_its_members(e@, i);
    }
    assert(has(document, all[0].0, all[0].1));
    assert(has(document, all[1].0, all[1].1));
    assert(has(document, all[2].0, all[2].1));
    assert(has(document, all[3].0, all[3].1));
    assert(has(document, all[4].0, all[4].1));
    assert(has(document, all[5].0, all[5].1));
    assert(has(document, all[6].0, all[6].1));
    assert(has(document, all[7].0, all[7].1));
    assert(has(document, all[8].0, all[8].1));
    assert(has(document, all[9].0, all[9].1));
    assert(has(document, all[10].0, all[10].1));
    assert(has(document, all[11].0, all[11].1));
    let names = set![
        "schema"@,
        "event"@,
        "delivery"@,
        "repo_id"@,
        "repo"@,
        "action"@,
        "workflow_job_id"@,
        "head_branch"@,
        "head_sha"@,
        "job_name"@,
        "received_at_ms"@,
        "signature"@,
    ];
    assert forall|name: Seq<char>| #[trigger]
        object_of(all).dom().contains(name) <==> names.contains(name) by {
        lemma_object_names(all, name);
        if names.contains(name) {
            assert(name == all[0].0 || name == all[1].0 || name == all[2].0 || name == all[3].0
                || name == all[4].0 || name == all[5].0 || name == all[6].0 || name == all[7].0
                || name == all[8].0 || name == all[9].0 || name == all[10].0 || name == all[11].0);
        }
    }
    assert(object_of(all).dom() =~= names);
}

/// The line of an envelope parses to its object: twelve members, each of them the
/// envelope's own field, unchanged and of any length. It holds no newline, and its
/// members are written in this order.
pub proof fn law_line_parses_to_the_envelope(e: &Envelope, r: Option<Vec<u8>>)
    requires
        call_ensures(Envelope::to_line, (e,), r),
    ensures
        r matches Some(line) && {
            &&& parsed(line@) matches Some(document) && is_object_of(document, *e)
            &&& forall|i: int| 0 <= i < line@.len() ==> #[trigger] line@[i] != 10
            &&& line@ == written(
                seq![
                    ("schema"@, Json::Number(Some(e.schema as u64))),
                    ("event"@, Json::Text(e.event@)),
                    ("delivery"@, Json::Text(e.delivery@)),
                    ("repo_id"@, Json::Number(Some(e.repo_id))),
                    ("repo"@, Json::Text(e.repo@)),
                    ("action"@, Json::Text(e.action@)),
                    ("workflow_job_id"@, Json::Number(Some(e.workflow_job_id))),
                    ("head_branch"@, Json::Text(e.head_branch@)),
                    ("head_sha"@, Json::Text(e.head_sha@)),
                    ("job_name"@, Json::Text(e.job_name@)),
                    ("received_at_ms"@, Json::Number(Some(e.received_at_ms))),
                    ("signature"@, Json::Text(e.signature@)),
                ],
            )
        },
{
    lemma_object(*e);
    let line = r->0;
    assert forall|i: int| 0 <= i < line@.len() implies #[trigger] line@[i] != 10 by {
        assert(line@.contains(line@[i]));
    }
}

/// The first newline of a file stands at `n`.
pub open spec fn first_newline(file: Seq<u8>, n: int) -> bool {
    &&& 0 <= n < file.len()
    &&& file[n] == 10
    &&& forall|i: int| 0 <= i < n ==> #[trigger] file[i] != 10
}

/// A job's file, split at its first newline, is a line that parses to the envelope's
/// object, and the body, byte for byte.
pub proof fn law_file_is_the_envelope_and_the_body(
    e: &Envelope,
    body: &[u8],
    r: Option<Vec<u8>>,
)
    requires
        call_ensures(job_file, (e, body), r),
    ensures
        r matches Some(file) && {
            &&& exists|n: int| first_newline(file@, n)
            &&& forall|n: int| #[trigger]
                first_newline(file@, n) ==> {
                    &&& parsed(file@.take(n)) matches Some(document) && is_object_of(document, *e)
                    &&& file@.skip(n + 1) == body@
                }
        },
{
    lemma_object(*e);
    let file = r->0@;
    let m = written(e@.members()).len() as int;
    assert(first_newline(file, m));
    assert forall|n: int| #[trigger] first_newline(file, n) implies n == m by {
        if n < m {
            assert(file[n] != 10);
        } else if m < n {
            assert(file[m] != 10);
        }
    }
}

/// A frame is the line, a newline and the body, and nothing else.
pub proof fn law_frame_is_line_newline_body(header_line: &[u8], body: &[u8], r: Vec<u8>)
    requires
        call_ensures(frame, (header_line, body), r),
    ensures
        r@ == header_line@ + seq![10u8] + body@,
{
    assert(header_line@.push(10u8) == header_line@ + seq![10u8]);
}

/// A file name is accepted exactly where it is not empty, has at most 128 bytes, does
/// not begin with a dot, and holds neither `/` nor NUL.
pub proof fn law_filename_is_accepted_exactly_where_it_stays_inside(name: &str, r: bool)
    requires
        call_ensures(is_safe_filename, (name,), r),
    ensures
        r <==> {
            &&& name@.len() > 0
            &&& vstd::utf8::encode_utf8(name@).len() <= 128
            &&& name@[0] as int != 46
            &&& forall|i: int|
                0 <= i < name@.len() ==> (#[trigger] name@[i]) as int != 47 && name@[i] as int != 0
        },
{
}

/// The time of an envelope is the clock's where it fits, and zero otherwise.
pub proof fn law_time_is_the_clocks_where_it_fits(since_epoch: Option<u128>, r: u64)
    requires
        call_ensures(received_at_ms, (since_epoch,), r),
    ensures
        since_epoch matches Some(ms) && ms <= 0xffff_ffff_ffff_ffff ==> since_epoch == Some(
            r as u128,
        ),
        !(since_epoch matches Some(ms) && ms <= 0xffff_ffff_ffff_ffff) ==> r == 0,
{
}

} // verus!
