//! The shared secret: where it comes from, what its file must show, and what a
//! usable one is. A stage names the one file operation that comes next; the
//! function of that stage takes what the operation gave and says what follows.

use vstd::prelude::*;

use crate::fs_security::{
    chain_fault, fd_acl_fault, reject_grant_acl_fd, verify_ancestor_chain, AclLookup, FileKind,
    Probe, Stat, GROUP_OTHER_ANY, PERMISSIONS,
};
use crate::text::{decimal, digits, octal, reports, starts_with, view_of};

verus! {

/// Largest secret file that is read.
pub const MAX_SECRET_FILE_BYTES: u64 = 4096;

/// How much of a secret file is read at most: enough to see that it is too large.
pub const SECRET_READ_CAP: u64 = 4097;

/// Shortest secret that is accepted.
pub const MIN_SECRET_BYTES: usize = 16;

/// Where the secret comes from.
pub enum SecretSource {
    /// The environment, as this text.
    Environment(String),
    /// The file of this path.
    File(String),
}

/// Why no source can be settled on.
pub open spec fn source_fault(env_secret: Option<Seq<char>>, env_file: Option<Seq<char>>) -> Option<
    Seq<char>,
> {
    if env_secret is Some && env_file is Some {
        Some(
            "both GH_WEBHOOK_SECRET and GH_WEBHOOK_SECRET_FILE are set; unset one (the file is recommended — env vars are visible via /proc/PID/environ)"@,
        )
    } else if env_secret == Some(Seq::<char>::empty()) {
        Some("GH_WEBHOOK_SECRET is set but empty"@)
    } else if env_secret is None && env_file is None {
        Some("set GH_WEBHOOK_SECRET_FILE (recommended) or GH_WEBHOOK_SECRET"@)
    } else {
        None
    }
}

/// Settles on the source of the secret. Two sources are refused: which of them is
/// stale cannot be known.
pub fn secret_source(env_secret: Option<String>, env_file: Option<String>) -> (r: Result<
    SecretSource,
    String,
>)
    ensures
        reports(r, source_fault(view_of(env_secret), view_of(env_file))),
        match r {
            Ok(SecretSource::Environment(s)) => view_of(env_secret) == Some(s@),
            Ok(SecretSource::File(path)) => view_of(env_file) == Some(path@),
            Err(_) => true,
        },
{
    match (env_secret, env_file) {
        (Some(_), Some(_)) => Err(
            "both GH_WEBHOOK_SECRET and GH_WEBHOOK_SECRET_FILE are set; unset one (the file is recommended — env vars are visible via /proc/PID/environ)".to_owned(),
        ),
        (Some(s), None) => {
            if s.as_str().is_empty() {
                assert(s@ == Seq::<char>::empty());
                Err("GH_WEBHOOK_SECRET is set but empty".to_owned())
            } else {
                Ok(SecretSource::Environment(s))
            }
        },
        (None, Some(path)) => Ok(SecretSource::File(path)),
        (None, None) => Err(
            "set GH_WEBHOOK_SECRET_FILE (recommended) or GH_WEBHOOK_SECRET".to_owned(),
        ),
    }
}

/// Why a secret of this length is refused.
pub open spec fn length_fault(len: nat) -> Option<Seq<char>> {
    if len < MIN_SECRET_BYTES {
        Some(
            "webhook secret is "@ + digits(len, 10)
                + " bytes; refusing to start with anything shorter than "@ + digits(
                MIN_SECRET_BYTES as nat,
                10,
            ),
        )
    } else {
        None
    }
}

/// Accepts a secret only if it is long enough.
pub fn check_length(bytes: Vec<u8>) -> (r: Result<Vec<u8>, String>)
    ensures
        reports(r, length_fault(bytes@.len())),
        r matches Ok(secret) ==> secret@ == bytes@,
{
    if bytes.len() < MIN_SECRET_BYTES {
        let mut text = "webhook secret is ".to_owned();
        text.append(decimal(bytes.len() as u64).as_str());
        text.append(" bytes; refusing to start with anything shorter than ");
        text.append(decimal(MIN_SECRET_BYTES as u64).as_str());
        Err(text)
    } else {
        Ok(bytes)
    }
}

/// Bytes without the line ends that they end with.
pub open spec fn without_line_end(bytes: Seq<u8>) -> Seq<u8>
    decreases bytes.len(),
{
    if bytes.len() > 0 && (bytes.last() == 10u8 || bytes.last() == 13u8) {
        without_line_end(bytes.drop_last())
    } else {
        bytes
    }
}

/// Drops the line ends that bytes end with. One that is left in the key makes every
/// signature fail.
fn strip_line_end(bytes: Vec<u8>) -> (r: Vec<u8>)
    ensures
        r@ == without_line_end(bytes@),
{
    let mut kept = bytes;
    while kept.len() > 0 && (kept[kept.len() - 1] == 10u8 || kept[kept.len() - 1] == 13u8)
        invariant
            without_line_end(kept@) == without_line_end(bytes@),
        decreases kept@.len(),
    {
        kept.pop();
    }
    kept
}

/// The secret of the environment: the bytes of its text, without the line ends that
/// they end with.
pub fn environment_secret(s: &str) -> (r: Result<Vec<u8>, String>)
    ensures
        reports(r, length_fault(without_line_end(vstd::utf8::encode_utf8(s@)).len())),
        r matches Ok(secret) ==> secret@ == without_line_end(vstd::utf8::encode_utf8(s@)),
{
    check_length(strip_line_end(s.as_bytes_vec()))
}

/// Why the contents of a secret file are refused.
pub open spec fn contents_fault(bytes: Seq<u8>) -> Option<Seq<char>> {
    if without_line_end(bytes).len() == 0 {
        Some("secret file is empty"@)
    } else {
        length_fault(without_line_end(bytes).len())
    }
}

/// The secret of a file: its contents without the line ends that they end with.
pub fn file_secret(contents: Vec<u8>) -> (r: Result<Vec<u8>, String>)
    ensures
        reports(r, contents_fault(contents@)),
        r matches Ok(secret) ==> secret@ == without_line_end(contents@),
{
    let bytes = strip_line_end(contents);
    if bytes.len() == 0 {
        return Err("secret file is empty".to_owned());
    }
    check_length(bytes)
}

/// The operation that comes next on the way to a secret file's contents.
pub enum SecretStage {
    /// Look up what the path names, without following a final symbolic link.
    Inspect,
    /// Resolve the path.
    Canonicalize,
    /// Look up every ancestor of the resolved path.
    InspectAncestors,
    /// Open the resolved path, unless it ends in a symbolic link.
    Open,
    /// Look up the metadata of the open file.
    InspectFile,
    /// Look up the access-control list of the open file.
    InspectAcl,
    /// Read the open file, up to the cap.
    Read,
    /// Nothing: these are the contents.
    Done(Vec<u8>),
    /// Nothing: the file is refused.
    Refused(String),
}

/// The model of a [`SecretStage`].
pub enum SecretStageView {
    Inspect,
    Canonicalize,
    InspectAncestors,
    Open,
    InspectFile,
    InspectAcl,
    Read,
    Done(Seq<u8>),
    Refused(Seq<char>),
}

impl View for SecretStage {
    type V = SecretStageView;

    open spec fn view(&self) -> SecretStageView {
        match *self {
            SecretStage::Inspect => SecretStageView::Inspect,
            SecretStage::Canonicalize => SecretStageView::Canonicalize,
            SecretStage::InspectAncestors => SecretStageView::InspectAncestors,
            SecretStage::Open => SecretStageView::Open,
            SecretStage::InspectFile => SecretStageView::InspectFile,
            SecretStage::InspectAcl => SecretStageView::InspectAcl,
            SecretStage::Read => SecretStageView::Read,
            SecretStage::Done(bytes) => SecretStageView::Done(bytes@),
            SecretStage::Refused(text) => SecretStageView::Refused(text@),
        }
    }
}

/// The stage that is entered where there is no fault, or the refusal.
pub open spec fn unless(fault: Option<Seq<char>>, next: SecretStageView) -> SecretStageView {
    match fault {
        None => next,
        Some(text) => SecretStageView::Refused(text),
    }
}

/// The text that a message about a secret file begins with.
pub open spec fn file_label(path: Seq<char>) -> Seq<char> {
    "secret file "@ + path
}

/// The text that a message about a secret file begins with.
fn label(path: &str) -> (r: String)
    ensures
        r@ == file_label(path@),
{
    let mut text = "secret file ".to_owned();
    text.append(path);
    text
}

/// A path is absolute if it begins with `/`.
pub open spec fn absolute(path: Seq<char>) -> bool {
    path.len() > 0 && path[0] == '/'
}

/// Why a path is refused before anything is looked up.
pub open spec fn relative_fault(path: Seq<char>) -> Option<Seq<char>> {
    if absolute(path) {
        None
    } else {
        Some("GH_WEBHOOK_SECRET_FILE must be an absolute path; got "@ + path)
    }
}

/// Begins reading a secret file. A relative path is refused: it has no ancestors
/// that could be verified.
pub fn begin_secret_file(path: &str) -> (r: SecretStage)
    ensures
        r@ == unless(relative_fault(path@), SecretStageView::Inspect),
{
    if starts_with(path, '/') {
        SecretStage::Inspect
    } else {
        let mut text = "GH_WEBHOOK_SECRET_FILE must be an absolute path; got ".to_owned();
        text.append(path);
        SecretStage::Refused(text)
    }
}

/// Why a path is refused for what it names.
pub open spec fn link_fault(path: Seq<char>, found: Result<FileKind, String>) -> Option<Seq<char>> {
    match found {
        Err(text) => Some(file_label(path) + " cannot be stat'd: "@ + text@),
        Ok(kind) => if kind == FileKind::Symlink {
            Some(
                file_label(path)
                    + " is a symlink; configure the real path so the ancestor lockdown applies to it"@,
            )
        } else {
            None
        },
    }
}

/// After [`SecretStage::Inspect`].
pub fn after_inspect(path: &str, found: Result<FileKind, String>) -> (r: SecretStage)
    ensures
        r@ == unless(link_fault(path@, found), SecretStageView::Canonicalize),
{
    let mut text = label(path);
    match found {
        Err(error) => {
            text.append(" cannot be stat'd: ");
            text.append(error.as_str());
            SecretStage::Refused(text)
        },
        Ok(FileKind::Symlink) => {
            text.append(
                " is a symlink; configure the real path so the ancestor lockdown applies to it",
            );
            SecretStage::Refused(text)
        },
        Ok(_) => SecretStage::Canonicalize,
    }
}

/// Why a path that cannot be resolved is refused.
pub open spec fn resolve_fault(path: Seq<char>, ended: Result<(), String>) -> Option<Seq<char>> {
    match ended {
        Err(text) => Some(file_label(path) + " cannot be canonicalized: "@ + text@),
        Ok(()) => None,
    }
}

/// After [`SecretStage::Canonicalize`].
pub fn after_canonicalize(path: &str, ended: Result<(), String>) -> (r: SecretStage)
    ensures
        r@ == unless(resolve_fault(path@, ended), SecretStageView::InspectAncestors),
{
    match ended {
        Err(error) => {
            let mut text = label(path);
            text.append(" cannot be canonicalized: ");
            text.append(error.as_str());
            SecretStage::Refused(text)
        },
        Ok(()) => SecretStage::InspectAncestors,
    }
}

/// After [`SecretStage::InspectAncestors`].
pub fn after_ancestors(chain: &Vec<Probe>, our_uid: u32) -> (r: SecretStage)
    ensures
        r@ == unless(chain_fault(chain@, our_uid), SecretStageView::Open),
{
    match verify_ancestor_chain(chain, our_uid) {
        Ok(()) => SecretStage::Open,
        Err(text) => SecretStage::Refused(text),
    }
}

/// Why a file that cannot be opened is refused.
pub open spec fn open_fault(path: Seq<char>, ended: Result<(), String>) -> Option<Seq<char>> {
    match ended {
        Err(text) => Some(
            file_label(path) + " cannot be opened: "@ + text@
                + " (O_NOFOLLOW rejects a symlink at the final path component)"@,
        ),
        Ok(()) => None,
    }
}

/// After [`SecretStage::Open`].
pub fn after_open(path: &str, ended: Result<(), String>) -> (r: SecretStage)
    ensures
        r@ == unless(open_fault(path@, ended), SecretStageView::InspectFile),
{
    match ended {
        Err(error) => {
            let mut text = label(path);
            text.append(" cannot be opened: ");
            text.append(error.as_str());
            text.append(" (O_NOFOLLOW rejects a symlink at the final path component)");
            SecretStage::Refused(text)
        },
        Ok(()) => SecretStage::InspectFile,
    }
}

/// Why an open file is refused for its metadata.
pub open spec fn file_fault(path: Seq<char>, found: Result<Stat, String>, our_uid: u32) -> Option<
    Seq<char>,
> {
    match found {
        Err(text) => Some(file_label(path) + " cannot be stat'd via fd: "@ + text@),
        Ok(stat) => if stat.kind != FileKind::File {
            Some(
                file_label(path)
                    + " is not a regular file (devices/sockets/FIFOs rejected)"@,
            )
        } else if stat.uid != our_uid {
            Some(
                file_label(path) + " is owned by uid "@ + digits(stat.uid as nat, 10)
                    + " but this process runs as uid "@ + digits(our_uid as nat, 10),
            )
        } else if stat.mode & GROUP_OTHER_ANY != 0 {
            Some(
                file_label(path) + " mode "@ + digits((stat.mode & PERMISSIONS) as nat, 8)
                    + " is too permissive; require 0600 or stricter"@,
            )
        } else if stat.size > MAX_SECRET_FILE_BYTES {
            Some(
                file_label(path) + " is "@ + digits(stat.size as nat, 10)
                    + " bytes; refusing to read more than "@ + digits(
                    MAX_SECRET_FILE_BYTES as nat,
                    10,
                ),
            )
        } else {
            None
        },
    }
}

/// After [`SecretStage::InspectFile`]: the file must be a regular one, owned by
/// this process, closed to group and others, and not too large.
pub fn after_inspect_file(path: &str, found: Result<Stat, String>, our_uid: u32) -> (r: SecretStage)
    ensures
        r@ == unless(file_fault(path@, found, our_uid), SecretStageView::InspectAcl),
{
    let mut text = label(path);
    let stat = match found {
        Ok(stat) => stat,
        Err(error) => {
            text.append(" cannot be stat'd via fd: ");
            text.append(error.as_str());
            return SecretStage::Refused(text);
        },
    };
    match stat.kind {
        FileKind::File => {},
        _ => {
            text.append(" is not a regular file (devices/sockets/FIFOs rejected)");
            return SecretStage::Refused(text);
        },
    }
    if stat.uid != our_uid {
        text.append(" is owned by uid ");
        text.append(decimal(stat.uid as u64).as_str());
        text.append(" but this process runs as uid ");
        text.append(decimal(our_uid as u64).as_str());
        return SecretStage::Refused(text);
    }
    if stat.mode & GROUP_OTHER_ANY != 0 {
        text.append(" mode ");
        text.append(octal(stat.mode & PERMISSIONS).as_str());
        text.append(" is too permissive; require 0600 or stricter");
        return SecretStage::Refused(text);
    }
    if stat.size > MAX_SECRET_FILE_BYTES {
        text.append(" is ");
        text.append(decimal(stat.size).as_str());
        text.append(" bytes; refusing to read more than ");
        text.append(decimal(MAX_SECRET_FILE_BYTES).as_str());
        return SecretStage::Refused(text);
    }
    SecretStage::InspectAcl
}

/// After [`SecretStage::InspectAcl`].
pub fn after_inspect_acl(path: &str, lookup: &AclLookup) -> (r: SecretStage)
    ensures
        r@ == unless(fd_acl_fault(*lookup, file_label(path@)), SecretStageView::Read),
{
    match reject_grant_acl_fd(lookup, label(path).as_str()) {
        Ok(()) => SecretStage::Read,
        Err(text) => SecretStage::Refused(text),
    }
}

/// What reading the file leads to.
pub open spec fn after_read_view(path: Seq<char>, read: Result<Vec<u8>, String>) -> SecretStageView {
    match read {
        Err(text) => SecretStageView::Refused(text@),
        Ok(bytes) => if bytes@.len() > MAX_SECRET_FILE_BYTES {
            SecretStageView::Refused(
                file_label(path) + " grew past "@ + digits(MAX_SECRET_FILE_BYTES as nat, 10)
                    + " bytes during read; refusing to use a truncated/raced secret"@,
            )
        } else {
            SecretStageView::Done(bytes@)
        },
    }
}

/// After [`SecretStage::Read`]. A file that grew since its size was looked up is
/// refused rather than cut.
pub fn after_read(path: &str, read: Result<Vec<u8>, String>) -> (r: SecretStage)
    ensures
        r@ == after_read_view(path@, read),
{
    match read {
        Err(text) => SecretStage::Refused(text),
        Ok(bytes) => {
            if bytes.len() as u64 > MAX_SECRET_FILE_BYTES {
                let mut text = label(path);
                text.append(" grew past ");
                text.append(decimal(MAX_SECRET_FILE_BYTES).as_str());
                text.append(" bytes during read; refusing to use a truncated/raced secret");
                SecretStage::Refused(text)
            } else {
                SecretStage::Done(bytes)
            }
        },
    }
}

} // verus!
