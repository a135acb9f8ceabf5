//! What a file's metadata must show before it is trusted: ownership, mode bits
//! and, where the platform has them, access-control lists. The callers look the
//! metadata up; the rules on it stand here.

use vstd::prelude::*;

use crate::text::{decimal, digits, octal, reports};

verus! {

/// Mode of the spool directories: the owner's alone.
pub const SPOOL_DIR_MODE: u32 = 0o700;

/// Mode of an enqueued file: the owner's alone.
pub const SPOOL_FILE_MODE: u32 = 0o600;

/// Every permission bit of group and others.
pub const GROUP_OTHER_ANY: u32 = 0o077;

/// The write bits of group and others.
pub const GROUP_OTHER_WRITE: u32 = 0o022;

/// All permission bits.
pub const PERMISSIONS: u32 = 0o777;

/// Tag of an access-control entry that grants access.
pub const ACL_EXTENDED_ALLOW: i32 = 1;

/// Error number of a lookup that found no access-control list.
pub const ENOENT: i32 = 2;

/// What a path names, without following a final symbolic link.
#[derive(Clone, Copy, Debug, PartialEq, Eq, Structural)]
pub enum FileKind {
    Dir,
    File,
    Symlink,
    Other,
}

/// The metadata that the rules look at.
#[derive(Clone, Copy, Debug, PartialEq, Eq, Structural)]
pub struct Stat {
    pub kind: FileKind,
    pub uid: u32,
    pub mode: u32,
    pub size: u64,
}

/// The outcome of looking up an object's access-control list.
pub enum AclLookup {
    /// The platform is trusted by its mode bits alone.
    NotConsulted,
    /// No list came back, with this error number and its text.
    Missing { errno: i32, text: String },
    /// The tag of each entry; `None` where it could not be read.
    Entries(Vec<Option<i32>>),
}

/// An entry of the list grants access.
pub open spec fn some_allow(entries: Seq<Option<i32>>) -> bool {
    exists|i: int| 0 <= i < entries.len() && #[trigger] entries[i] == Some(ACL_EXTENDED_ALLOW)
}

/// Why a lookup does not say whether access is granted.
pub open spec fn acl_unknown(lookup: AclLookup) -> Option<Seq<char>> {
    match lookup {
        AclLookup::Missing { errno, text } => if errno == ENOENT {
            None
        } else {
            Some("ACL lookup failed: "@ + text@)
        },
        _ => None,
    }
}

/// The lookup shows an entry that grants access.
pub open spec fn acl_grants(lookup: AclLookup) -> bool {
    match lookup {
        AclLookup::Entries(entries) => some_allow(entries@),
        _ => false,
    }
}

/// Whether the list grants access. An object without a list grants none; a
/// lookup that failed for another reason is an error, never a pass.
pub fn acl_grants_access(lookup: &AclLookup) -> (r: Result<bool, String>)
    ensures
        reports(r, acl_unknown(*lookup)),
        r matches Ok(grants) ==> grants == acl_grants(*lookup),
{
    match lookup {
        AclLookup::NotConsulted => Ok(false),
        AclLookup::Missing { errno, text } => {
            if *errno == ENOENT {
                Ok(false)
            } else {
                let mut message = "ACL lookup failed: ".to_owned();
                message.append(text.as_str());
                Err(message)
            }
        },
        AclLookup::Entries(entries) => {
            let mut i: usize = 0;
            while i < entries.len()
                invariant
                    i <= entries@.len(),
                    *lookup == AclLookup::Entries(*entries),
                    forall|j: int|
                        0 <= j < i ==> #[trigger] entries@[j] != Some(ACL_EXTENDED_ALLOW),
                decreases entries@.len() - i,
            {
                let tag: Option<i32> = entries[i];
                match tag {
                    Some(tag) => {
                        if tag == ACL_EXTENDED_ALLOW {
                            assert(entries@[i as int] == Some(ACL_EXTENDED_ALLOW));
                            return Ok(true);
                        }
                    },
                    None => {},
                }
                i += 1;
            }
            Ok(false)
        },
    }
}

/// Why an open file is refused for its access-control list.
pub open spec fn fd_acl_fault(lookup: AclLookup, label: Seq<char>) -> Option<Seq<char>> {
    match acl_unknown(lookup) {
        Some(text) => Some(label + ": "@ + text),
        None => if acl_grants(lookup) {
            Some(
                label
                    + " carries an access-granting (ALLOW) ACL; clear it with `chmod -N` — this binary's filesystem security relies on POSIX mode bits only, and an ACL can grant another local user access despite a 0600/0700 mode"@,
            )
        } else {
            None
        },
    }
}

/// Refuses an open file whose list grants access, or could not be read. Entries
/// that deny access are tolerated.
pub fn reject_grant_acl_fd(lookup: &AclLookup, label: &str) -> (r: Result<(), String>)
    ensures
        reports(r, fd_acl_fault(*lookup, label@)),
{
    match acl_grants_access(lookup) {
        Err(text) => {
            let mut message = label.to_owned();
            message.append(": ");
            message.append(text.as_str());
            Err(message)
        },
        Ok(grants) => {
            if grants {
                let mut message = label.to_owned();
                message.append(
                    " carries an access-granting (ALLOW) ACL; clear it with `chmod -N` — this binary's filesystem security relies on POSIX mode bits only, and an ACL can grant another local user access despite a 0600/0700 mode",
                );
                Err(message)
            } else {
                Ok(())
            }
        },
    }
}

/// Why a path is refused for its access-control list. There is no lookup for a
/// path that holds a NUL byte.
pub open spec fn path_acl_fault(lookup: Option<AclLookup>, path: Seq<char>) -> Option<Seq<char>> {
    match lookup {
        None => Some("path "@ + path + " contains an interior NUL byte"@),
        Some(lookup) => match acl_unknown(lookup) {
            Some(text) => Some(path + ": "@ + text),
            None => if acl_grants(lookup) {
                Some(
                    path + " carries an access-granting (ALLOW) ACL; clear it with `chmod -N "@
                        + path
                        + "` — this binary's filesystem security relies on POSIX mode bits only"@,
                )
            } else {
                None
            },
        },
    }
}

/// Refuses a path whose list grants access, or could not be read. Entries that
/// deny access are tolerated: system directories carry them by default.
pub fn reject_grant_acl_path_nofollow(lookup: &Option<AclLookup>, path: &str) -> (r: Result<
    (),
    String,
>)
    ensures
        reports(r, path_acl_fault(*lookup, path@)),
{
    match lookup {
        None => {
            let mut message = "path ".to_owned();
            message.append(path);
            message.append(" contains an interior NUL byte");
            Err(message)
        },
        Some(lookup) => match acl_grants_access(lookup) {
            Err(text) => {
                let mut message = path.to_owned();
                message.append(": ");
                message.append(text.as_str());
                Err(message)
            },
            Ok(grants) => {
                if grants {
                    let mut message = path.to_owned();
                    message.append(
                        " carries an access-granting (ALLOW) ACL; clear it with `chmod -N ",
                    );
                    message.append(path);
                    message.append(
                        "` — this binary's filesystem security relies on POSIX mode bits only",
                    );
                    Err(message)
                } else {
                    Ok(())
                }
            },
        },
    }
}

/// A path and what looking it up gave.
pub struct Probe {
    /// The path, as messages show it.
    pub path: String,
    /// The metadata, or the text of the error that looking it up gave.
    pub stat: Result<Stat, String>,
    /// The access-control list; `None` where the path holds a NUL byte.
    pub acl: Option<AclLookup>,
}

/// Why a spool directory is refused.
pub open spec fn dir_fault(probe: Probe, our_uid: u32) -> Option<Seq<char>> {
    match probe.stat {
        Err(text) => Some(text@),
        Ok(stat) => if stat.kind != FileKind::Dir {
            Some(
                probe.path@
                    + " is not a directory (symlinks are rejected for spool components)"@,
            )
        } else if stat.uid != our_uid {
            Some(
                probe.path@ + " is owned by uid "@ + digits(stat.uid as nat, 10)
                    + " but this process runs as uid "@ + digits(our_uid as nat, 10),
            )
        } else if stat.mode & GROUP_OTHER_ANY != 0 {
            Some(
                probe.path@ + " is group/other accessible (mode "@ + digits(
                    (stat.mode & PERMISSIONS) as nat,
                    8,
                ) + "); spool components must be 0700 or stricter"@,
            )
        } else {
            path_acl_fault(probe.acl, probe.path@)
        },
    }
}

/// Accepts a spool directory only if it is a real directory, owned by this
/// process, and closed to group and others.
pub fn verify_dir_secure(probe: &Probe, our_uid: u32) -> (r: Result<(), String>)
    ensures
        reports(r, dir_fault(*probe, our_uid)),
{
    let stat = match &probe.stat {
        Ok(stat) => *stat,
        Err(text) => return Err(text.clone()),
    };
    let mut message = probe.path.clone();
    match stat.kind {
        FileKind::Dir => {},
        _ => {
            message.append(" is not a directory (symlinks are rejected for spool components)");
            return Err(message);
        },
    }
    if stat.uid != our_uid {
        message.append(" is owned by uid ");
        message.append(decimal(stat.uid as u64).as_str());
        message.append(" but this process runs as uid ");
        message.append(decimal(our_uid as u64).as_str());
        return Err(message);
    }
    if stat.mode & GROUP_OTHER_ANY != 0 {
        message.append(" is group/other accessible (mode ");
        message.append(octal(stat.mode & PERMISSIONS).as_str());
        message.append("); spool components must be 0700 or stricter");
        return Err(message);
    }
    reject_grant_acl_path_nofollow(&probe.acl, probe.path.as_str())
}

/// Why an ancestor of a trusted path is refused.
pub open spec fn ancestor_fault(probe: Probe, our_uid: u32) -> Option<Seq<char>> {
    match probe.stat {
        Err(text) => Some("ancestor "@ + probe.path@ + " cannot be stat'd: "@ + text@),
        Ok(stat) => if stat.kind != FileKind::Dir {
            Some(
                "ancestor "@ + probe.path@
                    + " of spool root is not a real directory (symlinks rejected)"@,
            )
        } else if stat.uid != 0 && stat.uid != our_uid {
            Some(
                "ancestor "@ + probe.path@ + " of spool root is owned by uid "@ + digits(
                    stat.uid as nat,
                    10,
                ) + " (must be root or "@ + digits(our_uid as nat, 10) + ")"@,
            )
        } else if stat.mode & GROUP_OTHER_WRITE != 0 {
            Some(
                "ancestor "@ + probe.path@ + " of spool root has group/other write bits (mode "@
                    + digits((stat.mode & PERMISSIONS) as nat, 8) + ")"@,
            )
        } else {
            path_acl_fault(probe.acl, probe.path@)
        },
    }
}

/// Accepts an ancestor only if it is a real directory, owned by root or by this
/// process, that group and others cannot write to.
pub fn verify_ancestor(probe: &Probe, our_uid: u32) -> (r: Result<(), String>)
    ensures
        reports(r, ancestor_fault(*probe, our_uid)),
{
    let mut message = "ancestor ".to_owned();
    message.append(probe.path.as_str());
    let stat = match &probe.stat {
        Ok(stat) => *stat,
        Err(text) => {
            message.append(" cannot be stat'd: ");
            message.append(text.as_str());
            return Err(message);
        },
    };
    match stat.kind {
        FileKind::Dir => {},
        _ => {
            message.append(" of spool root is not a real directory (symlinks rejected)");
            return Err(message);
        },
    }
    if stat.uid != 0 && stat.uid != our_uid {
        message.append(" of spool root is owned by uid ");
        message.append(decimal(stat.uid as u64).as_str());
        message.append(" (must be root or ");
        message.append(decimal(our_uid as u64).as_str());
        message.append(")");
        return Err(message);
    }
    if stat.mode & GROUP_OTHER_WRITE != 0 {
        message.append(" of spool root has group/other write bits (mode ");
        message.append(octal(stat.mode & PERMISSIONS).as_str());
        message.append(")");
        return Err(message);
    }
    reject_grant_acl_path_nofollow(&probe.acl, probe.path.as_str())
}

/// Why a chain of ancestors is refused: the fault of the first that has one.
pub open spec fn chain_fault(chain: Seq<Probe>, our_uid: u32) -> Option<Seq<char>>
    decreases chain.len(),
{
    if chain.len() == 0 {
        None
    } else {
        match ancestor_fault(chain[0], our_uid) {
            Some(text) => Some(text),
            None => chain_fault(chain.skip(1), our_uid),
        }
    }
}

/// Verifies every ancestor of a path, from its parent up to the root.
pub fn verify_ancestor_chain(chain: &Vec<Probe>, our_uid: u32) -> (r: Result<(), String>)
    ensures
        reports(r, chain_fault(chain@, our_uid)),
{
    let mut i: usize = 0;
    assert(chain@.skip(0) == chain@);
    while i < chain.len()
        invariant
            i <= chain@.len(),
            chain_fault(chain@, our_uid) == chain_fault(chain@.skip(i as int), our_uid),
        decreases chain@.len() - i,
    {
        match verify_ancestor(&chain[i], our_uid) {
            Ok(()) => {},
            Err(text) => return Err(text),
        }
        assert(chain@.skip(i as int).skip(1) == chain@.skip(i + 1));
        i += 1;
    }
    Ok(())
}

/// How many leading bytes of a path name where it starts from, and are no component
/// that could be cut off: the `/` of an absolute path, or the `.` that a relative path
/// may begin with.
pub open spec fn anchor(path: Seq<u8>) -> nat {
    if path.len() == 0 {
        0
    } else if path[0] == 47u8 {
        1
    } else if path[0] == 46u8 && (path.len() == 1 || path[1] == 47u8) {
        1
    } else {
        0
    }
}

/// A path ends with a separator, or with a `.` that is a component of its own: the
/// path without it names the same.
pub open spec fn ends_idly(path: Seq<u8>) -> bool {
    ||| path.last() == 47u8
    ||| path.last() == 46u8 && path.len() >= 2 && path[path.len() - 2] == 47u8
}

/// A path without the separators and the `.` components that it ends with.
pub open spec fn trimmed(path: Seq<u8>) -> Seq<u8>
    decreases path.len(),
{
    if path.len() > anchor(path) && ends_idly(path) {
        trimmed(path.drop_last())
    } else {
        path
    }
}

/// A path without its last bytes up to a separator or to its anchor.
pub open spec fn up_to_separator(path: Seq<u8>, anchor: nat) -> Seq<u8>
    decreases path.len(),
{
    if path.len() <= anchor || path.last() == 47u8 {
        path
    } else {
        up_to_separator(path.drop_last(), anchor)
    }
}

/// The parent of a path: the path without its final component. Separators that are
/// doubled or trailing make no component, nor does a `.` but for one that a relative
/// path begins with. The root has no parent, nor has the empty path; that of a path of
/// one relative component is the empty path.
pub open spec fn parent(path: Seq<u8>) -> Option<Seq<u8>> {
    let named = trimmed(path);
    if named.len() > anchor(named) {
        Some(trimmed(up_to_separator(named, anchor(named))))
    } else if named.len() > 0 && named[0] == 46u8 {
        Some(Seq::empty())
    } else {
        None
    }
}

/// The ancestors of a path, from its parent up to the root; those of a relative path
/// end with its first component.
pub open spec fn ancestors_of(path: Seq<u8>) -> Seq<Seq<u8>>
    decreases path.len(),
{
    match parent(path) {
        Some(up) => if 0 < up.len() < path.len() {
            seq![up] + ancestors_of(up)
        } else {
            Seq::empty()
        },
        None => Seq::empty(),
    }
}

/// Trimming leaves a beginning of the path, which ends idly no more.
pub(crate) proof fn lemma_trimmed(path: Seq<u8>)
    ensures
        trimmed(path).len() <= path.len(),
        trimmed(path) == path.take(trimmed(path).len() as int),
        trimmed(path).len() > anchor(trimmed(path)) ==> !ends_idly(trimmed(path)),
        path.len() > 0 ==> trimmed(path).len() > 0,
        trimmed(trimmed(path)) == trimmed(path),
    decreases path.len(),
{
    if path.len() > anchor(path) && ends_idly(path) {
        let rest = path.drop_last();
        lemma_trimmed(rest);
        assert(rest.take(trimmed(path).len() as int) == path.take(trimmed(path).len() as int));
        if rest.len() == 0 {
            assert(path[0] == 47u8);
        }
    } else {
        assert(path.take(path.len() as int) == path);
    }
}

/// The cut leaves a beginning of the path, of at least the length of the anchor, with
/// no separator beyond it.
pub(crate) proof fn lemma_up_to_separator(path: Seq<u8>, anchor: nat)
    requires
        anchor <= path.len(),
    ensures
        anchor <= up_to_separator(path, anchor).len() <= path.len(),
        up_to_separator(path, anchor) == path.take(up_to_separator(path, anchor).len() as int),
        up_to_separator(path, anchor).len() == anchor || up_to_separator(path, anchor).last()
            == 47u8,
        forall|i: int|
            up_to_separator(path, anchor).len() <= i < path.len() ==> #[trigger] path[i] != 47u8,
    decreases path.len(),
{
    if path.len() > anchor && path.last() != 47u8 {
        let rest = path.drop_last();
        lemma_up_to_separator(rest, anchor);
        let n = up_to_separator(path, anchor).len() as int;
        assert(rest.take(n) == path.take(n));
        assert forall|i: int| n <= i < path.len() implies #[trigger] path[i] != 47u8 by {
            if i < rest.len() {
                assert(rest[i] != 47u8);
            }
        }
    } else {
        assert(path.take(path.len() as int) == path);
    }
}

/// A parent is shorter than its path.
pub(crate) proof fn lemma_parent_is_shorter(path: Seq<u8>)
    ensures
        parent(path) matches Some(up) ==> up.len() < path.len(),
{
    let named = trimmed(path);
    lemma_trimmed(path);
    if named.len() > anchor(named) {
        lemma_up_to_separator(named, anchor(named));
        lemma_trimmed(up_to_separator(named, anchor(named)));
        assert(named.last() != 47u8);
    }
}

/// How many of the first `end` bytes of a path are its anchor.
fn anchor_len(path: &Vec<u8>, end: usize) -> (r: usize)
    requires
        end <= path@.len(),
    ensures
        r == anchor(path@.take(end as int)),
        r <= end,
{
    if end == 0 {
        0
    } else if path[0] == 47u8 {
        1
    } else if path[0] == 46u8 && (end == 1 || path[1] == 47u8) {
        1
    } else {
        0
    }
}

/// How many bytes are left of the first `end` of a path when they are trimmed.
fn trimmed_len(path: &Vec<u8>, end: usize) -> (r: usize)
    requires
        end <= path@.len(),
    ensures
        r <= end,
        path@.take(r as int) == trimmed(path@.take(end as int)),
{
    let mut n: usize = end;
    while n > anchor_len(path, n) && (path[n - 1] == 47u8 || (path[n - 1] == 46u8 && n >= 2
        && path[n - 2] == 47u8))
        invariant
            n <= end <= path@.len(),
            trimmed(path@.take(n as int)) == trimmed(path@.take(end as int)),
        decreases n,
    {
        assert(path@.take(n as int).drop_last() == path@.take(n - 1));
        n -= 1;
    }
    n
}

/// The first `end` bytes of a path.
fn beginning(path: &Vec<u8>, end: usize) -> (r: Vec<u8>)
    requires
        end <= path@.len(),
    ensures
        r@ == path@.take(end as int),
{
    let mut out: Vec<u8> = Vec::new();
    let mut i: usize = 0;
    while i < end
        invariant
            i <= end <= path@.len(),
            out@ == path@.take(i as int),
        decreases end - i,
    {
        out.push(path[i]);
        assert(path@.take(i + 1) == path@.take(i as int).push(path@[i as int]));
        i += 1;
    }
    out
}

/// A path without the separators and the `.` components that it ends with.
pub(crate) fn trim_path(path: &Vec<u8>) -> (r: Vec<u8>)
    ensures
        r@ == trimmed(path@),
{
    assert(path@.take(path@.len() as int) == path@);
    beginning(path, trimmed_len(path, path.len()))
}

/// The parent of a path.
pub fn parent_of(path: &Vec<u8>) -> (r: Option<Vec<u8>>)
    ensures
        match r {
            Some(up) => parent(path@) == Some(up@) && up@.len() < path@.len(),
            None => parent(path@) is None,
        },
{
    proof {
        assert(path@.take(path@.len() as int) == path@);
        lemma_parent_is_shorter(path@);
    }
    let named: usize = trimmed_len(path, path.len());
    let base: usize = anchor_len(path, named);
    if named > base {
        let mut cut: usize = named;
        while cut > base && path[cut - 1] != 47u8
            invariant
                base <= cut <= named <= path@.len(),
                up_to_separator(path@.take(cut as int), base as nat) == up_to_separator(
                    path@.take(named as int),
                    base as nat,
                ),
            decreases cut,
        {
            assert(path@.take(cut as int).drop_last() == path@.take(cut - 1));
            cut -= 1;
        }
        Some(beginning(path, trimmed_len(path, cut)))
    } else if named > 0 && path[0] == 46u8 {
        Some(Vec::new())
    } else {
        None
    }
}

/// The ancestors of a path, from its parent up to the root: the directories that
/// [`verify_ancestor_chain`] is to be given.
pub fn ancestors(path: &Vec<u8>) -> (r: Vec<Vec<u8>>)
    ensures
        r@.map_values(|v: Vec<u8>| v@) == ancestors_of(path@),
{
    let mut out: Vec<Vec<u8>> = Vec::new();
    let ghost model = |v: Vec<u8>| v@;
    let mut next = parent_of(path);
    assert(out@.map_values(model) == Seq::<Seq<u8>>::empty());
    assert(ancestors_of(path@) == above(next));
    loop
        invariant_except_break
            model == (|v: Vec<u8>| v@),
            ancestors_of(path@) == out@.map_values(model) + above(next),
        ensures
            ancestors_of(path@) == out@.map_values(|v: Vec<u8>| v@),
        decreases
                match next {
                    Some(up) => up@.len() + 1,
                    None => 0,
                },
    {
        match next {
            None => {
                assert(out@.map_values(model) + Seq::<Seq<u8>>::empty() == out@.map_values(model));
                break;
            },
            Some(up) => {
                if up.len() == 0 {
                    assert(out@.map_values(model) + Seq::<Seq<u8>>::empty() == out@.map_values(
                        model,
                    ));
                    break;
                }
                next = parent_of(&up);
                let ghost before = out@;
                let ghost step = up@;
                out.push(up);
                assert(out@.map_values(model) == before.map_values(model).push(step));
                assert(ancestors_of(step) == above(next));
            },
        }
    }
    out
}

/// The ancestors of a path whose parent is this one.
spec fn above(parent: Option<Vec<u8>>) -> Seq<Seq<u8>> {
    match parent {
        Some(up) => if up@.len() > 0 {
            seq![up@] + ancestors_of(up@)
        } else {
            Seq::empty()
        },
        None => Seq::empty(),
    }
}

} // verus!
