//! What is written for an accepted job, and under which name.

use vstd::prelude::*;

use crate::json::{
    members, new_object, object_of, parsed, put_number, put_text, write_object, written, Json,
};
use crate::text::{decimal, digits, starts_with};

verus! {

/// Version of the envelope's fields.
pub const ENVELOPE_SCHEMA: u32 = 2;

/// An accepted job.
pub struct Job {
    pub event: String,
    pub delivery: String,
    pub repo_id: u64,
    pub repo: String,
    pub action: String,
    pub workflow_job_id: u64,
    pub head_branch: String,
    pub head_sha: String,
    pub job_name: String,
    pub signature: String,
}

/// The model of a [`Job`].
pub struct JobView {
    pub event: Seq<char>,
    pub delivery: Seq<char>,
    pub repo_id: u64,
    pub repo: Seq<char>,
    pub action: Seq<char>,
    pub workflow_job_id: u64,
    pub head_branch: Seq<char>,
    pub head_sha: Seq<char>,
    pub job_name: Seq<char>,
    pub signature: Seq<char>,
}

impl View for Job {
    type V = JobView;

    open spec fn view(&self) -> JobView {
        JobView {
            event: self.event@,
            delivery: self.delivery@,
            repo_id: self.repo_id,
            repo: self.repo@,
            action: self.action@,
            workflow_job_id: self.workflow_job_id,
            head_branch: self.head_branch@,
            head_sha: self.head_sha@,
            job_name: self.job_name@,
            signature: self.signature@,
        }
    }
}

/// The metadata that is written ahead of the body. It is not covered by the
/// signature: a consumer derives what it trusts from the verified body.
pub struct Envelope {
    pub schema: u32,
    pub event: String,
    pub delivery: String,
    pub repo_id: u64,
    pub repo: String,
    pub action: String,
    pub workflow_job_id: u64,
    pub head_branch: String,
    pub head_sha: String,
    pub job_name: String,
    pub received_at_ms: u64,
    pub signature: String,
}

/// The model of an [`Envelope`].
pub struct EnvelopeView {
    pub schema: u32,
    pub job: JobView,
    pub received_at_ms: u64,
}

impl View for Envelope {
    type V = EnvelopeView;

    open spec fn view(&self) -> EnvelopeView {
        EnvelopeView {
            schema: self.schema,
            job: JobView {
                event: self.event@,
                delivery: self.delivery@,
                repo_id: self.repo_id,
                repo: self.repo@,
                action: self.action@,
                workflow_job_id: self.workflow_job_id,
                head_branch: self.head_branch@,
                head_sha: self.head_sha@,
                job_name: self.job_name@,
                signature: self.signature@,
            },
            received_at_ms: self.received_at_ms,
        }
    }
}

/// The name of a job's file: `{workflow_job_id}.job`.
pub open spec fn job_filename(workflow_job_id: u64) -> Seq<char> {
    digits(workflow_job_id as nat, 10) + ".job"@
}

impl Job {
    /// The name of the job's file. It is made of a signed field, so that a
    /// replay under another delivery identifier gets the same one.
    pub fn filename(&self) -> (r: String)
        ensures
            r@ == job_filename(self@.workflow_job_id),
    {
        let mut name = decimal(self.workflow_job_id);
        name.append(".job");
        name
    }

    /// The job's envelope, received at the given time.
    pub fn into_envelope(self, received_at_ms: u64) -> (r: Envelope)
        ensures
            r@ == (EnvelopeView { schema: ENVELOPE_SCHEMA, job: self@, received_at_ms }),
    {
        Envelope {
            schema: ENVELOPE_SCHEMA,
            event: self.event,
            delivery: self.delivery,
            repo_id: self.repo_id,
            repo: self.repo,
            action: self.action,
            workflow_job_id: self.workflow_job_id,
            head_branch: self.head_branch,
            head_sha: self.head_sha,
            job_name: self.job_name,
            received_at_ms,
            signature: self.signature,
        }
    }
}

impl EnvelopeView {
    /// The members of the envelope's JSON object, in the order in which they are
    /// written.
    pub open spec fn members(self) -> Seq<(Seq<char>, Json)> {
        seq![
            ("schema"@, Json::Number(Some(self.schema as u64))),
            ("event"@, Json::Text(self.job.event)),
            ("delivery"@, Json::Text(self.job.delivery)),
            ("repo_id"@, Json::Number(Some(self.job.repo_id))),
            ("repo"@, Json::Text(self.job.repo)),
            ("action"@, Json::Text(self.job.action)),
            ("workflow_job_id"@, Json::Number(Some(self.job.workflow_job_id))),
            ("head_branch"@, Json::Text(self.job.head_branch)),
            ("head_sha"@, Json::Text(self.job.head_sha)),
            ("job_name"@, Json::Text(self.job.job_name)),
            ("received_at_ms"@, Json::Number(Some(self.received_at_ms))),
            ("signature"@, Json::Text(self.job.signature)),
        ]
    }
}

impl Envelope {
    /// The envelope as a line of JSON, without its newline. It reads back as the
    /// envelope's members, and holds no newline of its own. The writer's type
    /// leaves room for a failure, which an envelope never meets.
    pub fn to_line(&self) -> (r: Option<Vec<u8>>)
        ensures
            r matches Some(line) && {
                &&& line@ == written(self@.members())
                &&& parsed(line@) == Some(Json::Object(object_of(self@.members())))
                &&& !line@.contains(10u8)
            },
    {
        proof {
            lemma_names_differ();
        }
        let mut object = new_object();
        put_number(&mut object, "schema", self.schema as u64);
        put_text(&mut object, "event", self.event.as_str());
        put_text(&mut object, "delivery", self.delivery.as_str());
        put_number(&mut object, "repo_id", self.repo_id);
        put_text(&mut object, "repo", self.repo.as_str());
        put_text(&mut object, "action", self.action.as_str());
        put_number(&mut object, "workflow_job_id", self.workflow_job_id);
        put_text(&mut object, "head_branch", self.head_branch.as_str());
        put_text(&mut object, "head_sha", self.head_sha.as_str());
        put_text(&mut object, "job_name", self.job_name.as_str());
        put_number(&mut object, "received_at_ms", self.received_at_ms);
        put_text(&mut object, "signature", self.signature.as_str());
        assert(members(object) == self@.members());
        match write_object(&object) {
            Ok(line) => Some(line),
            Err(_) => None,
        }
    }
}

/// The names of the envelope's members are distinct: they differ in their length
/// or in their first character.
pub(crate) proof fn lemma_names_differ()
    ensures
        "schema"@.len() == 6,
        "event"@.len() == 5,
        "delivery"@.len() == 8,
        "repo_id"@.len() == 7,
        "repo"@.len() == 4,
        "action"@.len() == 6,
        "workflow_job_id"@.len() == 15,
        "head_branch"@.len() == 11,
        "head_sha"@.len() == 8,
        "job_name"@.len() == 8,
        "received_at_ms"@.len() == 14,
        "signature"@.len() == 9,
        "schema"@[0] == 's',
        "action"@[0] == 'a',
        "delivery"@[0] == 'd',
        "head_sha"@[0] == 'h',
        "job_name"@[0] == 'j',
{
    reveal_strlit("schema");
    reveal_strlit("event");
    reveal_strlit("delivery");
    reveal_strlit("repo_id");
    reveal_strlit("repo");
    reveal_strlit("action");
    reveal_strlit("workflow_job_id");
    reveal_strlit("head_branch");
    reveal_strlit("head_sha");
    reveal_strlit("job_name");
    reveal_strlit("received_at_ms");
    reveal_strlit("signature");
}

/// The time that an envelope records, from the milliseconds since the epoch
/// that a clock gives: 0 where it gives none or they do not fit.
pub fn received_at_ms(since_epoch: Option<u128>) -> (r: u64)
    ensures
        r == match since_epoch {
            Some(ms) => if ms <= u64::MAX {
                ms as u64
            } else {
                0
            },
            None => 0,
        },
{
    match since_epoch {
        Some(ms) => {
            if ms <= u64::MAX as u128 {
                ms as u64
            } else {
                0
            }
        },
        None => 0,
    }
}

/// The contents of a job's file: the envelope line, a newline, the raw body.
pub open spec fn framed(header_line: Seq<u8>, body: Seq<u8>) -> Seq<u8> {
    header_line.push(10u8) + body
}

/// The contents of a job's file.
pub fn frame(header_line: &[u8], body: &[u8]) -> (r: Vec<u8>)
    ensures
        r@ == framed(header_line@, body@),
{
    let mut out: Vec<u8> = Vec::new();
    out.extend_from_slice(header_line);
    out.push(10u8);
    out.extend_from_slice(body);
    assert(out@ == framed(header_line@, body@));
    out
}

/// The contents of the file that is written for an accepted job.
pub open spec fn job_contents(envelope: EnvelopeView, body: Seq<u8>) -> Seq<u8> {
    framed(written(envelope.members()), body)
}

/// The contents of the file that is written for an accepted job. Cut at the first
/// newline, they are a line that parses to the envelope, and the raw body.
pub fn job_file(envelope: &Envelope, body: &[u8]) -> (r: Option<Vec<u8>>)
    ensures
        r matches Some(file) && {
            let n = written(envelope@.members()).len() as int;
            &&& file@ == job_contents(envelope@, body@)
            &&& 0 <= n < file@.len() && file@[n] == 10u8
            &&& forall|i: int| 0 <= i < n ==> #[trigger] file@[i] != 10u8
            &&& parsed(file@.take(n)) == Some(Json::Object(object_of(envelope@.members())))
            &&& file@.skip(n + 1) == body@
        },
{
    match envelope.to_line() {
        Some(line) => {
            let file = frame(line.as_slice(), body);
            proof {
                assert forall|i: int| 0 <= i < line@.len() implies #[trigger] file@[i] != 10u8 by {
                    assert(line@.contains(line@[i]));
                }
                assert(file@.take(line@.len() as int) == line@);
            }
            Some(file)
        },
        None => None,
    }
}

/// Longest file name that is accepted, in bytes.
pub const MAX_FILENAME_BYTES: usize = 128;

/// A file name that cannot lead out of the queue's directories.
pub open spec fn filename_safe(name: Seq<char>) -> bool {
    &&& 0 < name.len()
    &&& vstd::utf8::encode_utf8(name).len() <= MAX_FILENAME_BYTES
    &&& name[0] != '.'
    &&& forall|i: int| 0 <= i < name.len() ==> #[trigger] name[i] != '/' && name[i] != '\0'
}

/// Whether a file name cannot lead out of the queue's directories.
pub fn is_safe_filename(name: &str) -> (r: bool)
    ensures
        r == filename_safe(name@),
{
    if name.is_empty() || name.as_bytes().len() > MAX_FILENAME_BYTES || starts_with(name, '.') {
        return false;
    }
    for c in it: name.chars()
        invariant
            it.seq() == name@,
            forall|i: int| 0 <= i < it.index() ==> #[trigger] name@[i] != '/' && name@[i] != '\0',
    {
        if c == '/' || c == '\0' {
            assert(name@[it.index() as int] == c);
            return false;
        }
    }
    true
}

} // verus!
