//! Laws of the policy on a delivery, and of what is written for a job.

use vstd::prelude::*;

use crate::auth::{hex_value, hmac_sha256, unhex};
use crate::enqueue::{answer_to, EnqueueResult, StageView};
use crate::headers::Headers;
use crate::json::{object_of, Json};
use crate::payload::payload_in;
use crate::queue_laws::{
    ending, enqueued, law_enqueue_is_idempotent, law_new_job_is_written, Faults, Queue,
};
use crate::spool::{
    filename_safe, framed, job_contents, job_filename, EnvelopeView, JobView, ENVELOPE_SCHEMA,
};
use crate::text::{after_prefix, digit, digits, lower, lower_char};
use crate::webhook::{
    admission, authentic, control_char, declares_json, delivery_ok, event_ok, labels_present,
    log_text, or_empty, printable, verdict, Outcome, MAX_LOG_CHARS,
};

verus! {

/// The lower-case hexadecimal digit of a value below sixteen.
pub open spec fn hex_digit(v: u8) -> char {
    if v < 10 {
        (48 + v) as char
    } else {
        (87 + v) as char
    }
}

/// Bytes in lower-case hexadecimal digits.
pub open spec fn hex_text(bytes: Seq<u8>) -> Seq<char> {
    Seq::new(
        2 * bytes.len(),
        |i: int|
            if i % 2 == 0 {
                hex_digit(bytes[i / 2] / 16)
            } else {
                hex_digit(bytes[i / 2] % 16)
            },
    )
}

/// The lower-case digits of a hexadecimal text are those of the bytes it spells.
pub(crate) proof fn lemma_unhex_lower(s: Seq<char>)
    requires
        unhex(s) is Some,
    ensures
        lower(s) == hex_text(unhex(s)->0),
{
    let bytes = unhex(s)->0;
    assert forall|i: int| 0 <= i < s.len() implies #[trigger] lower(s)[i] == hex_text(bytes)[i] by {
        let k = i / 2;
        assert(hex_value(s[2 * k]) is Some);
        assert(hex_value(s[2 * k + 1]) is Some);
        let high = hex_value(s[2 * k])->0;
        let low = hex_value(s[2 * k + 1])->0;
        assert(high < 16 && low < 16);
        assert(bytes[k] == 16 * high + low);
        assert(bytes[k] / 16 == high);
        assert(bytes[k] % 16 == low);
        assert(lower_char(s[2 * k]) == hex_digit(high));
        assert(lower_char(s[2 * k + 1]) == hex_digit(low));
        assert(i == 2 * k || i == 2 * k + 1);
    }
    assert(lower(s).len() == hex_text(bytes).len());
}

/// A request whose signature does not verify is answered so whatever else it
/// holds, and whatever the service is configured with.
pub proof fn law_unauthentic_is_unauthorized(
    secret: Seq<u8>,
    ids: Set<u64>,
    expected: Seq<Seq<char>>,
    headers: Headers,
    body: Seq<u8>,
)
    ensures
        authentic(secret, headers, body) is None <==> verdict(
            secret,
            ids,
            expected,
            headers,
            body,
        ).answer() == Some(Outcome::Unauthorized),
{
}

/// A job is enqueued exactly where the signature verifies, the event is
/// `workflow_job` under a well-formed delivery identifier with a JSON body, the
/// repository is allowlisted, private and of private visibility, the action is
/// `queued`, the job has an identifier, and it carries every expected label.
pub proof fn law_enqueued_exactly_where_every_gate_passes(
    secret: Seq<u8>,
    ids: Set<u64>,
    expected: Seq<Seq<char>>,
    headers: Headers,
    body: Seq<u8>,
)
    ensures
        verdict(secret, ids, expected, headers, body) is Enqueue <==> {
            &&& authentic(secret, headers, body) is Some
            &&& headers.field("x-github-event"@) == Some("workflow_job"@)
            &&& delivery_ok(or_empty(headers.field("x-github-delivery"@)))
            &&& declares_json(headers)
            &&& payload_in(body) matches Some(p) && {
                &&& p.repo_id matches Some(id) && ids.contains(id)
                &&& p.private
                &&& p.visibility == Some("private"@)
                &&& p.action == "queued"@
                &&& p.workflow_job_id is Some
                &&& labels_present(expected, p.labels)
            }
        },
{
    reveal_strlit("workflow_job");
    reveal_strlit("ping");
    assert(event_ok("workflow_job"@));
    assert("workflow_job"@.len() != "ping"@.len());
}

/// The allowlist cannot be probed: an authentic, well-formed `workflow_job`
/// delivery that is not enqueued is acknowledged, whichever gate stopped it.
pub proof fn law_every_gate_answers_alike(
    secret: Seq<u8>,
    ids: Set<u64>,
    expected: Seq<Seq<char>>,
    headers: Headers,
    body: Seq<u8>,
)
    requires
        authentic(secret, headers, body) is Some,
        admission(headers) is Ok,
        payload_in(body) is Some,
        !(verdict(secret, ids, expected, headers, body) is Enqueue),
    ensures
        verdict(secret, ids, expected, headers, body).answer() == Some(Outcome::Acknowledged),
{
}

/// A delivery that is not enqueued is answered with 401 where its signature does not
/// verify, with 400 where its event, delivery identifier, content type or body is
/// malformed, and with 200 otherwise.
pub proof fn law_dropped_delivery_has_its_status(
    secret: Seq<u8>,
    ids: Set<u64>,
    expected: Seq<Seq<char>>,
    headers: Headers,
    body: Seq<u8>,
)
    requires
        !(verdict(secret, ids, expected, headers, body) is Enqueue),
    ensures
        ({
            let answer = verdict(secret, ids, expected, headers, body).answer();
            let event = or_empty(headers.field("x-github-event"@));
            &&& answer is Some
            &&& answer->0.code() == if authentic(secret, headers, body) is None {
                401u16
            } else if !event_ok(event) {
                400u16
            } else if event != "workflow_job"@ {
                200u16
            } else if !delivery_ok(or_empty(headers.field("x-github-delivery"@))) {
                400u16
            } else if !declares_json(headers) || payload_in(body) is None {
                400u16
            } else {
                200u16
            }
        }),
{
    reveal_strlit("workflow_job");
    reveal_strlit("ping");
    assert("workflow_job"@.len() != "ping"@.len());
}

/// A replay of a signed body under other header fields gets the same file name,
/// and the same envelope but for the delivery identifier.
pub proof fn law_replay_gets_the_same_file(
    secret: Seq<u8>,
    ids: Set<u64>,
    expected: Seq<Seq<char>>,
    headers: Headers,
    replayed: Headers,
    body: Seq<u8>,
)
    requires
        verdict(secret, ids, expected, headers, body) is Enqueue,
        verdict(secret, ids, expected, replayed, body) is Enqueue,
    ensures
        ({
            let first = verdict(secret, ids, expected, headers, body)->Enqueue_0;
            let second = verdict(secret, ids, expected, replayed, body)->Enqueue_0;
            &&& job_filename(first.workflow_job_id) == job_filename(second.workflow_job_id)
            &&& second == (JobView { delivery: second.delivery, ..first })
        }),
{
    law_stored_signature_is_the_tag(secret, ids, expected, headers, body);
    law_stored_signature_is_the_tag(secret, ids, expected, replayed, body);
    law_enqueued_exactly_where_every_gate_passes(secret, ids, expected, headers, body);
    law_enqueued_exactly_where_every_gate_passes(secret, ids, expected, replayed, body);
}

/// A replay of a signed body under other header fields, after the job was written,
/// is a duplicate: the queue stays as it is, with the file of the first delivery.
pub proof fn law_replay_is_a_duplicate(
    secret: Seq<u8>,
    ids: Set<u64>,
    expected: Seq<Seq<char>>,
    headers: Headers,
    replayed: Headers,
    body: Seq<u8>,
    received: (u64, u64),
    queue: Queue,
    faults: (Faults, Faults),
)
    requires
        verdict(secret, ids, expected, headers, body) is Enqueue,
        verdict(secret, ids, expected, replayed, body) is Enqueue,
        delivered(
            verdict(secret, ids, expected, headers, body)->Enqueue_0,
            received.0,
            body,
            queue,
            faults.0,
        ).0 == StageView::Done(EnqueueResult::Wrote),
        !faults.1.find,
        faults.1.sync is None,
    ensures
        ({
            let first = verdict(secret, ids, expected, headers, body)->Enqueue_0;
            let second = verdict(secret, ids, expected, replayed, body)->Enqueue_0;
            let after = delivered(first, received.0, body, queue, faults.0).1;
            delivered(second, received.1, body, after, faults.1) == (
                StageView::Done(EnqueueResult::Duplicate),
                after,
            )
        }),
{
    let first = verdict(secret, ids, expected, headers, body)->Enqueue_0;
    let second = verdict(secret, ids, expected, replayed, body)->Enqueue_0;
    law_replay_gets_the_same_file(secret, ids, expected, headers, replayed, body);
    law_enqueue_is_idempotent(
        queue,
        job_filename(first.workflow_job_id),
        job_contents(envelope_of(first, received.0), body),
        job_contents(envelope_of(second, received.1), body),
        faults.0,
        faults.1,
    );
}

/// The envelope of a job, received at this time.
pub open spec fn envelope_of(job: JobView, received_at_ms: u64) -> EnvelopeView {
    EnvelopeView { schema: ENVELOPE_SCHEMA, job, received_at_ms }
}

/// A job that came with this body is enqueued.
pub open spec fn delivered(
    job: JobView,
    received_at_ms: u64,
    body: Seq<u8>,
    queue: Queue,
    faults: Faults,
) -> (StageView, Queue) {
    enqueued(
        queue,
        job_filename(job.workflow_job_id),
        job_contents(envelope_of(job, received_at_ms), body),
        faults,
    )
}

/// A job that is new to a queue where nothing fails is written under its name, with
/// its envelope and the raw body, and answered as accepted.
pub proof fn law_accepted_job_is_in_the_queue(
    job: JobView,
    received_at_ms: u64,
    body: Seq<u8>,
    queue: Queue,
    faults: Faults,
)
    requires
        faults.none(),
        !queue.tmp.dom().contains(job_filename(job.workflow_job_id)),
        !queue.new.dom().contains(job_filename(job.workflow_job_id)),
    ensures
        ({
            let (end, after) = delivered(job, received_at_ms, body, queue, faults);
            let file = job_filename(job.workflow_job_id);
            &&& answer_to(ending(end)) == Outcome::Accepted
            &&& after.new == queue.new.insert(
                file,
                job_contents(envelope_of(job, received_at_ms), body),
            )
            &&& after.durable == after.new
            &&& after.tmp == queue.tmp
        }),
{
    let file = job_filename(job.workflow_job_id);
    law_job_filename_is_safe(job.workflow_job_id);
    law_new_job_is_written(
        queue,
        file,
        job_contents(envelope_of(job, received_at_ms), body),
        faults,
    );
}

/// The signature that is stored with a job is `sha256=` and the HMAC of the body
/// in lower-case digits, in whatever case it was sent.
pub proof fn law_stored_signature_is_the_tag(
    secret: Seq<u8>,
    ids: Set<u64>,
    expected: Seq<Seq<char>>,
    headers: Headers,
    body: Seq<u8>,
)
    requires
        verdict(secret, ids, expected, headers, body) is Enqueue,
    ensures
        verdict(secret, ids, expected, headers, body)->Enqueue_0.signature == "sha256="@ + hex_text(
            hmac_sha256(secret, body),
        ),
{
    let sent = after_prefix(headers.field("x-hub-signature-256"@)->0, "sha256="@)->0;
    lemma_unhex_lower(sent);
}

/// What is enqueued is named after the job that the signed body names, in a
/// repository that the signed body names.
pub proof fn law_enqueued_job_is_the_signed_one(
    secret: Seq<u8>,
    ids: Set<u64>,
    expected: Seq<Seq<char>>,
    headers: Headers,
    body: Seq<u8>,
)
    requires
        verdict(secret, ids, expected, headers, body) is Enqueue,
    ensures
        ({
            let job = verdict(secret, ids, expected, headers, body)->Enqueue_0;
            let p = payload_in(body)->0;
            &&& Some(job.workflow_job_id) == p.workflow_job_id
            &&& Some(job.repo_id) == p.repo_id
            &&& ids.contains(job.repo_id)
            &&& job.event == "workflow_job"@
            &&& job.action == "queued"@
            &&& job.repo == p.repo
            &&& job.head_branch == p.head_branch
            &&& job.head_sha == p.head_sha
            &&& job.job_name == p.job_name
            &&& delivery_ok(job.delivery)
        }),
{
}

/// A job that carries the expected labels still does with more labels, and with
/// fewer expected of it.
pub proof fn law_labels_are_a_subset(
    expected: Seq<Seq<char>>,
    fewer: Seq<Seq<char>>,
    labels: Seq<Seq<char>>,
    more: Seq<Seq<char>>,
)
    requires
        labels_present(expected, labels),
        forall|l: Seq<char>| labels.contains(l) ==> #[trigger] more.contains(l),
        forall|l: Seq<char>| #[trigger] fewer.contains(l) ==> expected.contains(l),
    ensures
        labels_present(fewer, more),
{
    assert forall|i: int| 0 <= i < fewer.len() implies more.contains(#[trigger] fewer[i]) by {
        assert(fewer.contains(fewer[i]));
        let j = choose|j: int| 0 <= j < expected.len() && expected[j] == fewer[i];
        assert(labels.contains(expected[j]));
    }
}

/// A number has at least one digit, and all of them are `0` to `9`.
proof fn lemma_digits(n: nat)
    ensures
        digits(n, 10).len() > 0,
        forall|i: int| 0 <= i < digits(n, 10).len() ==> '0' <= #[trigger] digits(n, 10)[i] <= '9',
    decreases n,
{
    if n >= 10 {
        lemma_digits(n / 10);
    }
}

/// Ten to the power of `k`.
spec fn pow10(k: nat) -> nat
    decreases k,
{
    if k == 0 {
        1
    } else {
        10 * pow10((k - 1) as nat)
    }
}

/// A number below ten to the power of `k` has at most `k` digits.
proof fn lemma_digits_len(n: nat, k: nat)
    requires
        n < pow10(k),
        k > 0,
    ensures
        digits(n, 10).len() <= k,
    decreases k,
{
    if n >= 10 {
        assert(k > 1) by {
            reveal_with_fuel(pow10, 2);
        }
        lemma_digits_len(n / 10, (k - 1) as nat);
    }
}

/// Numbers of the same digits are the same.
proof fn lemma_digits_injective(a: nat, b: nat)
    requires
        digits(a, 10) == digits(b, 10),
    ensures
        a == b,
    decreases a,
{
    lemma_digits(a / 10);
    lemma_digits(b / 10);
    if a < 10 {
        assert(digits(a, 10).len() == 1);
        if b >= 10 {
            assert(digits(b, 10).len() > 1);
        }
        assert(digits(a, 10)[0] == digit(a));
        assert(digits(b, 10)[0] == digit(b));
    } else {
        assert(digits(a, 10).len() > 1);
        if b < 10 {
            assert(digits(b, 10).len() == 1);
        }
        assert(digits(a, 10).drop_last() == digits(a / 10, 10));
        assert(digits(b, 10).drop_last() == digits(b / 10, 10));
        assert(digits(a, 10).last() == digit(a % 10));
        assert(digits(b, 10).last() == digit(b % 10));
        lemma_digits_injective(a / 10, b / 10);
    }
}

/// Jobs of different identifiers get different files.
pub proof fn law_job_files_are_distinct(a: u64, b: u64)
    requires
        job_filename(a) == job_filename(b),
    ensures
        a == b,
{
    reveal_strlit(".job");
    let da = digits(a as nat, 10);
    let db = digits(b as nat, 10);
    assert(da == job_filename(a).take(job_filename(a).len() - 4));
    assert(db == job_filename(b).take(job_filename(b).len() - 4));
    lemma_digits_injective(a as nat, b as nat);
}

/// The file name of a job is always one that the queue takes.
pub proof fn law_job_filename_is_safe(workflow_job_id: u64)
    ensures
        filename_safe(job_filename(workflow_job_id)),
{
    reveal_strlit(".job");
    let number = digits(workflow_job_id as nat, 10);
    let name = job_filename(workflow_job_id);
    lemma_digits(workflow_job_id as nat);
    assert(workflow_job_id < pow10(20)) by {
        reveal_with_fuel(pow10, 21);
    }
    lemma_digits_len(workflow_job_id as nat, 20);
    assert(name[0] == number[0]);
    assert forall|i: int| 0 <= i < name.len() implies '.' <= #[trigger] name[i] <= 'z' && name[i]
        != '/' by {
        if i < number.len() {
            assert(name[i] == number[i]);
        } else {
            assert(name[i] == ".job"@[i - number.len()]);
        }
    }
    assert(vstd::utf8::is_ascii_chars(name));
    vstd::utf8::is_ascii_chars_encode_utf8(name);
}

/// A job's file splits at its first newline into the envelope line and the raw
/// body, byte for byte, whatever the body holds.
pub proof fn law_file_splits_at_the_first_newline(header_line: Seq<u8>, body: Seq<u8>)
    requires
        !header_line.contains(10u8),
    ensures
        ({
            let file = framed(header_line, body);
            let n = header_line.len() as int;
            &&& file[n] == 10u8
            &&& forall|i: int| 0 <= i < n ==> #[trigger] file[i] != 10u8
            &&& file.take(n) == header_line
            &&& file.skip(n + 1) == body
        }),
{
    let file = framed(header_line, body);
    let n = header_line.len() as int;
    assert forall|i: int| 0 <= i < n implies #[trigger] file[i] != 10u8 by {
        assert(header_line.contains(header_line[i]));
    }
}

/// A text without control characters is printable as it is.
proof fn lemma_printable_is_kept(s: Seq<char>)
    requires
        forall|i: int| 0 <= i < s.len() ==> !control_char(#[trigger] s[i]),
    ensures
        printable(s) == s,
    decreases s.len(),
{
    reveal(Seq::filter);
    if s.len() > 0 {
        lemma_printable_is_kept(s.drop_last());
        assert(s == s.drop_last().push(s.last()));
    }
}

/// Every member of an envelope's JSON object is there under its name.
pub proof fn law_envelope_has_its_members(envelope: EnvelopeView, i: int)
    requires
        0 <= i < envelope.members().len(),
    ensures
        Json::Object(object_of(envelope.members())).member(envelope.members()[i].0) == Some(
            envelope.members()[i].1,
        ),
{
    let all = envelope.members();
    crate::spool::lemma_names_differ();
    assert forall|j: int, k: int| 0 <= j < k < all.len() implies (#[trigger] all[j]).0 != (
    #[trigger] all[k]).0 by {}
    lemma_object_member(all, i);
}

/// Where no name occurs twice, each member of a list is in the object it makes.
proof fn lemma_object_member(members: Seq<(Seq<char>, Json)>, i: int)
    requires
        0 <= i < members.len(),
        forall|j: int, k: int|
            0 <= j < k < members.len() ==> (#[trigger] members[j]).0 != (#[trigger] members[k]).0,
    ensures
        object_of(members).dom().contains(members[i].0),
        object_of(members)[members[i].0] == members[i].1,
    decreases members.len(),
{
    if i < members.len() - 1 {
        lemma_object_member(members.drop_last(), i);
    }
}

/// A text in a log line has no control character and at most 128 characters, and
/// is left alone by a second pass.
pub proof fn law_log_text_is_safe(s: Seq<char>)
    ensures
        log_text(s).len() <= MAX_LOG_CHARS,
        forall|i: int| 0 <= i < log_text(s).len() ==> !control_char(#[trigger] log_text(s)[i]),
        log_text(log_text(s)) == log_text(s),
{
    let keep = |c: char| !control_char(c);
    assert forall|i: int| 0 <= i < printable(s).len() implies !control_char(
        #[trigger] printable(s)[i],
    ) by {
        s.lemma_filter_pred(keep, i);
    }
    lemma_printable_is_kept(log_text(s));
}

} // verus!
