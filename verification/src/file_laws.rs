//! Laws of the checks on files, directories and paths, and of the way to the secret,
//! stated of what the functions are given and what they return.

use vstd::prelude::*;

use crate::fs_laws::{
    law_chain_passes_exactly_where_every_ancestor_is_sound, lemma_without_line_end, sound_ancestor,
};
use crate::fs_security::{
    acl_grants_access, ancestor_fault, ancestors, ancestors_of, anchor, chain_fault, ends_idly,
    lemma_parent_is_shorter, lemma_trimmed, lemma_up_to_separator, parent, parent_of,
    reject_grant_acl_fd, reject_grant_acl_path_nofollow, trimmed, up_to_separator,
    verify_ancestor, verify_ancestor_chain, verify_dir_secure, AclLookup, FileKind, Probe, Stat,
};
use crate::prepare::{check_root_kind, create_dir_mode, lookup_path};
use crate::secret::{
    after_ancestors, after_canonicalize, after_inspect, after_inspect_acl, after_inspect_file,
    after_open, after_read, begin_secret_file, check_length, environment_secret, file_secret,
    secret_source, without_line_end, SecretSource, SecretStage,
};
use crate::text::digits;
use crate::text_laws::{lemma_digits_denote, numeral, well_formed_numeral};

verus! {

/// A text is the numeral of a number in base `radix`.
pub open spec fn writes(text: Seq<char>, n: int, radix: nat) -> bool {
    well_formed_numeral(text, radix) && numeral(text, radix) == n
}

/// The digits of a number write it.
proof fn lemma_writes(n: nat, radix: nat)
    requires
        radix == 10 || radix == 8,
    ensures
        writes(digits(n, radix), n as int, radix),
{
    lemma_digits_denote(n, radix);
}

/// A numeral without a leading zero denotes a positive number.
proof fn lemma_numeral_is_positive(text: Seq<char>, radix: nat)
    requires
        radix == 10 || radix == 8,
        well_formed_numeral(text, radix),
        text[0] as int != 48,
    ensures
        numeral(text, radix) > 0,
    decreases text.len(),
{
    let front = text.drop_last();
    assert(48 <= text[text.len() - 1] as int);
    assert(48 <= text[0] as int);
    if front.len() == 0 {
        assert(numeral(front, radix) == 0);
        assert(radix * 0 == 0);
    } else {
        assert forall|i: int| 0 <= i < front.len() implies 48 <= #[trigger] front[i] as int && (
        front[i] as int) < 48 + radix by {
            assert(front[i] == text[i]);
        }
        lemma_numeral_is_positive(front, radix);
    }
}

/// A number has one numeral.
proof fn lemma_numeral_is_unique(one: Seq<char>, other: Seq<char>, radix: nat)
    requires
        radix == 10 || radix == 8,
        well_formed_numeral(one, radix),
        well_formed_numeral(other, radix),
        numeral(one, radix) == numeral(other, radix),
    ensures
        one == other,
    decreases one.len(),
{
    let (a, b) = (one.drop_last(), other.drop_last());
    assert(48 <= one[one.len() - 1] as int && (one[one.len() - 1] as int) < 48 + radix);
    assert(48 <= other[other.len() - 1] as int && (other[other.len() - 1] as int) < 48 + radix);
    assert forall|i: int| 0 <= i < a.len() implies 48 <= #[trigger] a[i] as int && (a[i] as int)
        < 48 + radix by {
        assert(a[i] == one[i]);
    }
    assert forall|i: int| 0 <= i < b.len() implies 48 <= #[trigger] b[i] as int && (b[i] as int)
        < 48 + radix by {
        assert(b[i] == other[i]);
    }
    if a.len() > 0 {
        lemma_numeral_is_positive(a, radix);
    } else {
        assert(numeral(a, radix) == 0);
    }
    if b.len() > 0 {
        lemma_numeral_is_positive(b, radix);
    } else {
        assert(numeral(b, radix) == 0);
    }
    assert(numeral(a, radix) == numeral(b, radix));
    assert(one.last() == other.last());
    if a.len() > 0 && b.len() > 0 {
        lemma_numeral_is_unique(a, b, radix);
    } else {
        assert(a == b);
    }
    assert(one == a.push(one.last()));
    assert(other == b.push(other.last()));
}

/// The text that writes a number is its digits.
pub(crate) proof fn lemma_written_so(text: Seq<char>, n: nat, radix: nat)
    requires
        radix == 10 || radix == 8,
    ensures
        writes(text, n as int, radix) ==> text == digits(n, radix),
{
    lemma_digits_denote(n, radix);
    if writes(text, n as int, radix) {
        lemma_numeral_is_unique(text, digits(n, radix), radix);
    }
}

/// An access-control list grants nothing: the platform has none, or the object has none
/// (error number 2), or no entry has the tag of a grant, which is 1.
pub open spec fn grants_nothing(lookup: AclLookup) -> bool {
    match lookup {
        AclLookup::NotConsulted => true,
        AclLookup::Missing { errno, .. } => errno == 2,
        AclLookup::Entries(entries) => forall|i: int|
            0 <= i < entries@.len() ==> #[trigger] entries@[i] != Some(1i32),
    }
}

/// [`acl_grants_access`] fails exactly where the lookup failed for another reason than
/// that there is no list, and otherwise tells whether an entry grants access.
pub proof fn law_acl_grants_exactly_where_an_entry_does(
    lookup: &AclLookup,
    r: Result<bool, String>,
)
    requires
        call_ensures(acl_grants_access, (lookup,), r),
    ensures
        r is Err <==> (*lookup matches AclLookup::Missing { errno, .. } && errno != 2),
        *lookup matches AclLookup::Missing { text, .. } ==> (r matches Err(message) ==> message@
            == "ACL lookup failed: "@ + text@),
        r matches Ok(grants) ==> (grants <==> (*lookup matches AclLookup::Entries(entries)
            && exists|i: int| 0 <= i < entries@.len() && #[trigger] entries@[i] == Some(1i32))),
{
}

/// An open file passes exactly where its list grants nothing.
pub proof fn law_open_file_passes_exactly_where_nothing_is_granted(
    lookup: &AclLookup,
    label: &str,
    r: Result<(), String>,
)
    requires
        call_ensures(reject_grant_acl_fd, (lookup, label), r),
    ensures
        r is Ok <==> grants_nothing(*lookup),
        r matches Err(text) ==> text@ == match *lookup {
            AclLookup::Missing { text: error, .. } => label@ + ": "@ + ("ACL lookup failed: "@
                + error@),
            _ => label@
                + " carries an access-granting (ALLOW) ACL; clear it with `chmod -N` — this binary's filesystem security relies on POSIX mode bits only, and an ACL can grant another local user access despite a 0600/0700 mode"@,
        },
{
}

/// A path passes exactly where it could be looked up and its list grants nothing.
pub proof fn law_path_passes_exactly_where_nothing_is_granted(
    lookup: &Option<AclLookup>,
    path: &str,
    r: Result<(), String>,
)
    requires
        call_ensures(reject_grant_acl_path_nofollow, (lookup, path), r),
    ensures
        r is Ok <==> (*lookup matches Some(found) && grants_nothing(found)),
        r matches Err(text) ==> text@ == match *lookup {
            None => "path "@ + path@ + " contains an interior NUL byte"@,
            Some(AclLookup::Missing { text: error, .. }) => path@ + ": "@ + (
            "ACL lookup failed: "@ + error@),
            _ => path@ + " carries an access-granting (ALLOW) ACL; clear it with `chmod -N "@
                + path@ + "` — this binary's filesystem security relies on POSIX mode bits only"@,
        },
{
}

/// A spool directory passes exactly where it is a real directory of this user, none of
/// the nine low mode bits but the owner's is set, and its list grants nothing.
pub proof fn law_directory_passes_exactly_where_it_is_the_owners(
    probe: &Probe,
    our_uid: u32,
    r: Result<(), String>,
)
    requires
        call_ensures(verify_dir_secure, (probe, our_uid), r),
    ensures
        r is Ok <==> {
            &&& probe.stat matches Ok(stat) && stat.kind == FileKind::Dir && stat.uid == our_uid
                && stat.mode & 0o077u32 == 0
            &&& probe.acl matches Some(lookup) && grants_nothing(lookup)
        },
{
}

/// What is said of a directory that is refused names what was found: the error of the
/// lookup, the owner and this user, or the mode in octal.
pub proof fn law_refused_directory_is_told_why(
    probe: &Probe,
    our_uid: u32,
    text: String,
    owner: Seq<char>,
    us: Seq<char>,
    mode: Seq<char>,
)
    requires
        call_ensures(verify_dir_secure, (probe, our_uid), Err::<(), String>(text)),
        writes(owner, (probe.stat->Ok_0).uid as int, 10),
        writes(us, our_uid as int, 10),
        writes(mode, ((probe.stat->Ok_0).mode & 0o777u32) as int, 8),
    ensures
        match probe.stat {
            Err(error) => text@ == error@,
            Ok(stat) => {
                &&& stat.kind != FileKind::Dir ==> text@ == probe.path@
                    + " is not a directory (symlinks are rejected for spool components)"@
                &&& stat.kind == FileKind::Dir && stat.uid != our_uid ==> text@ == probe.path@
                    + " is owned by uid "@ + owner + " but this process runs as uid "@ + us
                &&& stat.kind == FileKind::Dir && stat.uid == our_uid && stat.mode & 0o077u32 != 0
                    ==> text@ == probe.path@ + " is group/other accessible (mode "@ + mode
                    + "); spool components must be 0700 or stricter"@
            },
        },
{
    lemma_written_so(owner, (probe.stat->Ok_0).uid as nat, 10);
    lemma_written_so(us, our_uid as nat, 10);
    lemma_written_so(mode, ((probe.stat->Ok_0).mode & 0o777u32) as nat, 8);
}

/// An ancestor that can be trusted: a real directory of root or of this user, that
/// neither group nor others may write to, and whose list grants nothing.
pub open spec fn trusted_directory(probe: Probe, our_uid: u32) -> bool {
    &&& probe.stat matches Ok(stat) && stat.kind == FileKind::Dir && (stat.uid == 0 || stat.uid
        == our_uid) && stat.mode & 0o022u32 == 0
    &&& probe.acl matches Some(lookup) && grants_nothing(lookup)
}

/// [`verify_ancestor`] passes exactly the directories that can be trusted.
pub proof fn law_ancestor_passes_exactly_where_it_can_be_trusted(
    probe: &Probe,
    our_uid: u32,
    r: Result<(), String>,
)
    requires
        call_ensures(verify_ancestor, (probe, our_uid), r),
    ensures
        r is Ok <==> trusted_directory(*probe, our_uid),
{
}

/// What is said of an ancestor that is refused names what was found.
pub proof fn law_refused_ancestor_is_told_why(
    probe: &Probe,
    our_uid: u32,
    text: String,
    owner: Seq<char>,
    us: Seq<char>,
    mode: Seq<char>,
)
    requires
        call_ensures(verify_ancestor, (probe, our_uid), Err::<(), String>(text)),
        writes(owner, (probe.stat->Ok_0).uid as int, 10),
        writes(us, our_uid as int, 10),
        writes(mode, ((probe.stat->Ok_0).mode & 0o777u32) as int, 8),
    ensures
        match probe.stat {
            Err(error) => text@ == "ancestor "@ + probe.path@ + " cannot be stat'd: "@ + error@,
            Ok(stat) => {
                let other = stat.uid != 0 && stat.uid != our_uid;
                &&& stat.kind != FileKind::Dir ==> text@ == "ancestor "@ + probe.path@
                    + " of spool root is not a real directory (symlinks rejected)"@
                &&& stat.kind == FileKind::Dir && other ==> text@ == "ancestor "@ + probe.path@
                    + " of spool root is owned by uid "@ + owner + " (must be root or "@ + us
                    + ")"@
                &&& stat.kind == FileKind::Dir && !other && stat.mode & 0o022u32 != 0 ==> text@
                    == "ancestor "@ + probe.path@
                    + " of spool root has group/other write bits (mode "@ + mode + ")"@
            },
        },
{
    lemma_written_so(owner, (probe.stat->Ok_0).uid as nat, 10);
    lemma_written_so(us, our_uid as nat, 10);
    lemma_written_so(mode, ((probe.stat->Ok_0).mode & 0o777u32) as nat, 8);
}

/// A chain passes exactly where every one of its directories can be trusted. A refusal
/// is that of the first that cannot.
pub proof fn law_chain_passes_exactly_where_each_can_be_trusted(
    chain: &Vec<Probe>,
    our_uid: u32,
    r: Result<(), String>,
)
    requires
        call_ensures(verify_ancestor_chain, (chain, our_uid), r),
    ensures
        r is Ok <==> forall|i: int|
            0 <= i < chain@.len() ==> trusted_directory(#[trigger] chain@[i], our_uid),
        r matches Err(text) ==> exists|k: int|
            0 <= k < chain@.len() && ancestor_fault(#[trigger] chain@[k], our_uid) == Some(text@)
                && forall|j: int| 0 <= j < k ==> trusted_directory(#[trigger] chain@[j], our_uid),
{
    law_chain_passes_exactly_where_every_ancestor_is_sound(chain@, our_uid);
    assert forall|probe: Probe| #[trigger]
        trusted_directory(probe, our_uid) == sound_ancestor(probe, our_uid) by {}
    if let Err(text) = r {
        lemma_first_fault(chain@, our_uid);
    }
    if forall|i: int| 0 <= i < chain@.len() ==> trusted_directory(#[trigger] chain@[i], our_uid) {
        assert forall|i: int| 0 <= i < chain@.len() implies sound_ancestor(
            #[trigger] chain@[i],
            our_uid,
        ) by {
            assert(trusted_directory(chain@[i], our_uid));
        }
    }
    if r is Ok {
        assert forall|i: int| 0 <= i < chain@.len() implies trusted_directory(
            #[trigger] chain@[i],
            our_uid,
        ) by {
            assert(sound_ancestor(chain@[i], our_uid));
        }
    }
}

/// The fault of a chain is that of the first directory that has one.
proof fn lemma_first_fault(chain: Seq<Probe>, our_uid: u32)
    ensures
        chain_fault(chain, our_uid) matches Some(text) ==> exists|k: int|
            0 <= k < chain.len() && ancestor_fault(#[trigger] chain[k], our_uid) == Some(text)
                && forall|j: int| 0 <= j < k ==> trusted_directory(#[trigger] chain[j], our_uid),
    decreases chain.len(),
{
    if chain.len() > 0 {
        let rest = chain.skip(1);
        lemma_first_fault(rest, our_uid);
        if let Some(text) = chain_fault(chain, our_uid) {
            if ancestor_fault(chain[0], our_uid) is Some {
                assert(ancestor_fault(chain[0], our_uid) == Some(text));
            } else {
                let k = choose|k: int|
                    0 <= k < rest.len() && ancestor_fault(#[trigger] rest[k], our_uid) == Some(text)
                        && forall|j: int|
                        0 <= j < k ==> trusted_directory(#[trigger] rest[j], our_uid);
                assert(chain[k + 1] == rest[k]);
                assert forall|j: int| 0 <= j < k + 1 implies trusted_directory(
                    #[trigger] chain[j],
                    our_uid,
                ) by {
                    if j > 0 {
                        assert(chain[j] == rest[j - 1]);
                    }
                }
            }
        }
    }
}

/// What stands behind the last separator of a path.
pub open spec fn last_name(path: Seq<u8>) -> Seq<u8>
    decreases path.len(),
{
    if path.len() == 0 || path.last() == 47 {
        Seq::empty()
    } else {
        last_name(path.drop_last()).push(path.last())
    }
}

/// The names of a path, in order: what stands between its separators, without what is
/// empty and without `.`.
pub open spec fn names(path: Seq<u8>) -> Seq<Seq<u8>>
    decreases path.len(),
{
    if path.len() == 0 {
        Seq::empty()
    } else if path.last() == 47 {
        names(path.drop_last())
    } else {
        let name = last_name(path);
        let front = path.take(path.len() - name.len());
        if front.len() >= path.len() {
            Seq::empty()
        } else if name == seq![46u8] {
            names(front)
        } else {
            names(front).push(name)
        }
    }
}

/// The last name of a path ends it, is not empty where the path does not end with a
/// separator, and holds none.
proof fn lemma_last_name(path: Seq<u8>)
    ensures
        last_name(path).len() <= path.len(),
        path == path.take(path.len() - last_name(path).len()) + last_name(path),
        path.len() > 0 && path.last() != 47 ==> last_name(path).len() > 0,
        path.len() > last_name(path).len() ==> path[path.len() - last_name(path).len() - 1] == 47,
        forall|i: int| 0 <= i < last_name(path).len() ==> #[trigger] last_name(path)[i] != 47,
    decreases path.len(),
{
    if path.len() > 0 && path.last() != 47 {
        let rest = path.drop_last();
        lemma_last_name(rest);
        let name = last_name(path);
        let n = path.len() - name.len();
        assert(rest.take(n) == path.take(n));
        assert(path == rest.push(path.last()));
        assert(name == last_name(rest).push(path.last()));
        assert(path.take(n) + name == (rest.take(n) + last_name(rest)).push(path.last()));
    } else {
        assert(path == path.take(path.len() as int) + Seq::<u8>::empty());
    }
}

/// Trimming a path takes none of its names away.
proof fn lemma_trimmed_names(path: Seq<u8>)
    ensures
        names(trimmed(path)) == names(path),
    decreases path.len(),
{
    if path.len() > anchor(path) && ends_idly(path) {
        let rest = path.drop_last();
        lemma_trimmed_names(rest);
        if path.last() != 47 {
            let name = last_name(path);
            assert(last_name(rest) == Seq::<u8>::empty());
            assert(name == seq![46u8]);
            assert(path.take(path.len() - 1) == rest);
        }
    }
}

/// A path does not begin with a `.` of its own.
pub open spec fn undotted(path: Seq<u8>) -> bool {
    !(path.len() > 0 && path[0] == 46 && (path.len() == 1 || path[1] == 47))
}

/// A trimmed path that has names ends with the last of them, and what stands up to it is
/// the rest.
proof fn lemma_cut_names(path: Seq<u8>)
    requires
        path.len() > anchor(path),
        undotted(path),
        !ends_idly(path),
    ensures
        names(path).len() > 0,
        names(up_to_separator(path, anchor(path))) == names(path).drop_last(),
{
    let base = anchor(path);
    lemma_last_name(path);
    lemma_up_to_separator(path, base);
    let name = last_name(path);
    let front = path.take(path.len() - name.len());
    let cut = up_to_separator(path, base);
    if name.len() == path.len() {
        assert(path.take(0) + name == name);
        assert(name[0] == path[0]);
    }
    assert(cut == front) by {
        let n = cut.len() as int;
        let m = front.len() as int;
        if n < m {
            assert(path[m - 1] == 47);
        } else if m < n {
            if n > base {
                assert(cut.last() == path[n - 1]);
            }
            assert(path[n - 1] == name[n - 1 - m]);
        }
    }
    assert(name != seq![46u8]) by {
        if name == seq![46u8] {
            assert(path.last() == name.last());
            if path.len() == 1 {
                assert(path[0] == 46);
            } else {
                assert(path[path.len() - 2] == 47);
            }
        }
    }
    assert(names(path) == names(front).push(name));
    assert(names(path).drop_last() == names(front));
}

/// The parent of a path has all its names but the last.
proof fn lemma_parent_names(path: Seq<u8>)
    requires
        undotted(path),
    ensures
        parent(path) is None <==> names(path).len() == 0,
        parent(path) matches Some(up) ==> {
            &&& names(up) == names(path).drop_last()
            &&& up.len() < path.len()
            &&& up == path.take(up.len() as int)
            &&& path[0] == 47 ==> up.len() > 0
            &&& undotted(up)
            &&& trimmed(up) == up
        },
{
    let named = trimmed(path);
    lemma_trimmed(path);
    lemma_trimmed_names(path);
    lemma_parent_is_shorter(path);
    if path.len() == 0 {
        assert(names(path) == Seq::<Seq<u8>>::empty());
    } else {
        assert(named[0] == path[0]);
        if path[0] == 46 && named.len() == 1 {
            lemma_trimmed_to_a_dot(path);
        }
        assert(undotted(named)) by {
            if named.len() > 1 {
                assert(named[1] == path[1]);
            }
        }
        if named.len() > anchor(named) {
            lemma_cut_names(named);
            let cut = up_to_separator(named, anchor(named));
            lemma_up_to_separator(named, anchor(named));
            lemma_trimmed_names(cut);
            lemma_trimmed(cut);
            let up = trimmed(cut);
            assert(up == path.take(up.len() as int));
            if !undotted(up) {
                assert(up[0] == path[0]);
                if up.len() == 1 {
                    assert(cut == path.take(cut.len() as int));
                    lemma_trimmed_to_a_dot(cut);
                    if cut.len() == 1 {
                        assert(cut.last() == cut[0]);
                    }
                } else {
                    assert(up[1] == path[1]);
                }
            }
        } else {
            assert(named == seq![47u8]);
            assert(names(named.drop_last()) == Seq::<Seq<u8>>::empty());
        }
    }
}

/// Only a path that begins with a `.` of its own is trimmed down to it.
proof fn lemma_trimmed_to_a_dot(path: Seq<u8>)
    requires
        path.len() > 0,
        path[0] == 46,
        trimmed(path).len() == 1,
    ensures
        !undotted(path),
    decreases path.len(),
{
    if path.len() > 1 {
        let rest = path.drop_last();
        lemma_trimmed_to_a_dot(rest);
        if rest.len() == 1 {
            assert(path.last() == path[1]);
        } else {
            assert(rest[1] == path[1]);
        }
    }
}

/// [`parent_of`] a path has the names of the path but the last, and is a beginning of
/// it; a path without names has no parent. A `.` that a path begins with is no name, but
/// has a parent of its own.
pub proof fn law_parent_drops_the_last_name(path: &Vec<u8>, r: Option<Vec<u8>>)
    requires
        call_ensures(parent_of, (path,), r),
        undotted(path@),
    ensures
        match r {
            Some(up) => {
                &&& names(path@).len() > 0
                &&& names(up@) == names(path@).drop_last()
                &&& up@.len() < path@.len()
                &&& up@ == path@.take(up@.len() as int)
                &&& path@[0] == 47 ==> up@.len() > 0
            },
            None => names(path@).len() == 0,
        },
{
    lemma_parent_names(path@);
}

/// How many ancestors a path has: as many as names where it is absolute, as the last is
/// then the root; one less where it is relative.
pub open spec fn depth(path: Seq<u8>) -> int {
    if path.len() > 0 && path[0] == 47 {
        names(path).len() as int
    } else if names(path).len() > 0 {
        names(path).len() - 1
    } else {
        0
    }
}

/// The ancestors of a path lose one name each, beginning with the last.
proof fn lemma_ancestors_names(path: Seq<u8>)
    requires
        undotted(path),
    ensures
        ancestors_of(path).len() == depth(path),
        forall|i: int|
            0 <= i < ancestors_of(path).len() ==> {
                let up = #[trigger] ancestors_of(path)[i];
                &&& names(up) == names(path).take(names(path).len() - 1 - i)
                &&& 0 < up.len() < path.len()
                &&& up == path.take(up.len() as int)
            },
    decreases path.len(),
{
    lemma_parent_names(path);
    if let Some(above) = parent(path) {
        if above.len() > 0 {
            lemma_parent_names(above);
            lemma_ancestors_names(above);
            assert(above[0] == path[0]);
            let all = ancestors_of(path);
            assert(all == seq![above] + ancestors_of(above));
            assert forall|i: int| 0 <= i < all.len() implies {
                let up = #[trigger] all[i];
                &&& names(up) == names(path).take(names(path).len() - 1 - i)
                &&& 0 < up.len() < path.len()
                &&& up == path.take(up.len() as int)
            } by {
                if i == 0 {
                    assert(names(path).drop_last() == names(path).take(names(path).len() - 1));
                } else {
                    let up = ancestors_of(above)[i - 1];
                    assert(all[i] == up);
                    assert(names(above).take(names(above).len() - i) == names(path).take(
                        names(path).len() - 1 - i,
                    ));
                    assert(above.take(up.len() as int) == path.take(up.len() as int));
                }
            }
        } else {
            assert(names(above) == Seq::<Seq<u8>>::empty());
        }
    }
}

/// [`ancestors`] of a path lose one name each: the first has all of them but the last,
/// and so on, up to the root, which has none, or to the first name of a relative path.
/// Each is a beginning of the path.
pub proof fn law_ancestors_drop_one_name_each(path: &Vec<u8>, r: Vec<Vec<u8>>)
    requires
        call_ensures(ancestors, (path,), r),
        undotted(path@),
    ensures
        r@.len() == depth(path@),
        forall|i: int|
            0 <= i < r@.len() ==> {
                let up = (#[trigger] r@[i])@;
                &&& names(up) == names(path@).take(names(path@).len() - 1 - i)
                &&& 0 < up.len() < path@.len()
                &&& up == path@.take(up.len() as int)
            },
{
    lemma_ancestors_names(path@);
    let model = r@.map_values(|v: Vec<u8>| v@);
    assert(model == ancestors_of(path@));
    assert forall|i: int| 0 <= i < r@.len() implies (#[trigger] r@[i])@ == ancestors_of(
        path@,
    )[i] by {
        assert(model[i] == r@[i]@);
    }
}

/// [`lookup_path`] of a root is a beginning of it with the same names, that ends with a
/// separator only where it is the root directory itself, and with a `.` of its own only
/// where it is nothing else.
pub proof fn law_lookup_path_ends_with_the_last_name(root: &Vec<u8>, r: Vec<u8>)
    requires
        call_ensures(lookup_path, (root,), r),
    ensures
        names(r@) == names(root@),
        root@.len() > 0 ==> r@.len() > 0,
        r@.len() <= root@.len(),
        r@ == root@.take(r@.len() as int),
        r@.len() > 1 ==> r@.last() != 47 && !(r@.last() == 46 && r@[r@.len() - 2] == 47),
{
    lemma_trimmed(root@);
    lemma_trimmed_names(root@);
}

/// A root is refused exactly where it is a symbolic link.
pub proof fn law_root_is_refused_exactly_for_a_link(
    root: &str,
    found: Option<FileKind>,
    r: Result<(), String>,
)
    requires
        call_ensures(check_root_kind, (root, found), r),
    ensures
        r is Err <==> found == Some(FileKind::Symlink),
        r matches Err(text) ==> text@ == "SPOOL_DIR "@ + root@
            + " is a symlink; spool components must be real directories (no symlinks)"@,
{
}

/// A directory is created exactly where it is missing, for its owner alone.
pub proof fn law_missing_directory_is_created_for_its_owner(
    already_existed: bool,
    r: Option<u32>,
)
    requires
        call_ensures(create_dir_mode, (already_existed,), r),
    ensures
        r is None <==> already_existed,
        r matches Some(mode) ==> mode == 0o700,
{
}

/// A source is settled on exactly where one of the two is set and not the other, and a
/// text of the environment is not empty; it is then that one.
pub proof fn law_secret_comes_from_the_one_source(
    env_secret: Option<String>,
    env_file: Option<String>,
    r: Result<SecretSource, String>,
)
    requires
        call_ensures(secret_source, (env_secret, env_file), r),
    ensures
        match r {
            Ok(SecretSource::Environment(text)) => env_file is None && (env_secret matches Some(s)
                && s@ == text@ && s@.len() > 0),
            Ok(SecretSource::File(path)) => env_secret is None && (env_file matches Some(f) && f@
                == path@),
            Err(text) => {
                ||| env_secret is Some && env_file is Some && text@
                    == "both GH_WEBHOOK_SECRET and GH_WEBHOOK_SECRET_FILE are set; unset one (the file is recommended — env vars are visible via /proc/PID/environ)"@
                ||| env_secret is None && env_file is None && text@
                    == "set GH_WEBHOOK_SECRET_FILE (recommended) or GH_WEBHOOK_SECRET"@
                ||| env_file is None && (env_secret matches Some(s) && s@.len() == 0) && text@
                    == "GH_WEBHOOK_SECRET is set but empty"@
            },
        },
{
    if let Some(s) = env_secret {
        if s@.len() == 0 {
            assert(s@ == Seq::<char>::empty());
        }
    }
}

/// What is left of a source without the line ends at its end.
pub open spec fn stripped(source: Seq<u8>, secret: Seq<u8>) -> bool {
    &&& secret.len() <= source.len()
    &&& secret == source.take(secret.len() as int)
    &&& secret.len() > 0 ==> secret.last() != 10 && secret.last() != 13
    &&& forall|i: int|
        secret.len() <= i < source.len() ==> #[trigger] source[i] == 10 || source[i] == 13
}

/// A secret is accepted from the environment exactly where 16 bytes or more are left of
/// its text without the line ends at its end, and is what is left.
pub proof fn law_environment_secret_is_long_enough(s: &str, r: Result<Vec<u8>, String>)
    requires
        call_ensures(environment_secret, (s,), r),
    ensures
        exists|secret: Seq<u8>|
            {
                &&& #[trigger] stripped(vstd::utf8::encode_utf8(s@), secret)
                &&& r is Ok <==> secret.len() >= 16
                &&& r matches Ok(bytes) ==> bytes@ == secret
            },
{
    let source = vstd::utf8::encode_utf8(s@);
    lemma_without_line_end(source);
    assert(stripped(source, without_line_end(source)));
}

/// A secret is accepted from a file exactly where 16 bytes or more are left of its
/// contents without the line ends at their end, and is what is left.
pub proof fn law_file_secret_is_long_enough(contents: Vec<u8>, r: Result<Vec<u8>, String>)
    requires
        call_ensures(file_secret, (contents,), r),
    ensures
        exists|secret: Seq<u8>|
            {
                &&& #[trigger] stripped(contents@, secret)
                &&& r is Ok <==> secret.len() >= 16
                &&& r matches Ok(bytes) ==> bytes@ == secret
                &&& r matches Err(text) ==> secret.len() == 0 ==> text@ == "secret file is empty"@
            },
{
    lemma_without_line_end(contents@);
    assert(stripped(contents@, without_line_end(contents@)));
}

/// A secret passes exactly where it has 16 bytes or more, unchanged. A refusal names its
/// length.
pub proof fn law_secret_of_sixteen_bytes_passes(bytes: Vec<u8>, r: Result<Vec<u8>, String>)
    requires
        call_ensures(check_length, (bytes,), r),
    ensures
        r is Ok <==> bytes@.len() >= 16,
        r matches Ok(out) ==> out@ == bytes@,
        r matches Err(text) ==> exists|n: Seq<char>, least: Seq<char>|
            #![trigger writes(n, bytes@.len() as int, 10), writes(least, 16, 10)]
            writes(n, bytes@.len() as int, 10) && writes(least, 16, 10) && text@
                == "webhook secret is "@ + n
                + " bytes; refusing to start with anything shorter than "@ + least,
{
    lemma_writes(bytes@.len(), 10);
    lemma_writes(16, 10);
    let n = digits(bytes@.len(), 10);
    let least = digits(16, 10);
    assert(writes(n, bytes@.len() as int, 10) && writes(least, 16, 10));
}

/// Reading a secret file begins exactly where its path begins with `/`.
pub proof fn law_secret_path_is_absolute(path: &str, r: SecretStage)
    requires
        call_ensures(begin_secret_file, (path,), r),
    ensures
        if path@.len() > 0 && path@[0] as int == 47 {
            r is Inspect
        } else {
            r matches SecretStage::Refused(text) && text@
                == "GH_WEBHOOK_SECRET_FILE must be an absolute path; got "@ + path@
        },
{
}

/// A secret file goes on to be resolved exactly where it is there and no symbolic link.
pub proof fn law_secret_is_no_link(
    path: &str,
    found: Result<FileKind, String>,
    r: SecretStage,
)
    requires
        call_ensures(after_inspect, (path, found), r),
    ensures
        if found matches Ok(kind) && kind != FileKind::Symlink {
            r is Canonicalize
        } else {
            r matches SecretStage::Refused(text) && text@ == "secret file "@ + path@ + match found {
                Err(error) => " cannot be stat'd: "@ + error@,
                Ok(_) =>
                    " is a symlink; configure the real path so the ancestor lockdown applies to it"@,
            }
        },
{
}

/// After it is resolved its ancestors are looked up; where that fails it is refused.
pub proof fn law_resolved_secret_has_its_ancestors_checked(
    path: &str,
    ended: Result<(), String>,
    r: SecretStage,
)
    requires
        call_ensures(after_canonicalize, (path, ended), r),
    ensures
        match ended {
            Ok(()) => r is InspectAncestors,
            Err(error) => r matches SecretStage::Refused(text) && text@ == "secret file "@ + path@
                + " cannot be canonicalized: "@ + error@,
        },
{
}

/// A secret file is opened exactly where every ancestor can be trusted.
pub proof fn law_secret_is_opened_only_under_trusted_directories(
    chain: &Vec<Probe>,
    our_uid: u32,
    r: SecretStage,
)
    requires
        call_ensures(after_ancestors, (chain, our_uid), r),
    ensures
        if forall|i: int|
            0 <= i < chain@.len() ==> trusted_directory(#[trigger] chain@[i], our_uid) {
            r is Open
        } else {
            r is Refused
        },
{
    law_chain_passes_exactly_where_every_ancestor_is_sound(chain@, our_uid);
    if forall|i: int| 0 <= i < chain@.len() ==> trusted_directory(#[trigger] chain@[i], our_uid) {
        assert forall|i: int| 0 <= i < chain@.len() implies sound_ancestor(
            #[trigger] chain@[i],
            our_uid,
        ) by {
            assert(trusted_directory(chain@[i], our_uid));
        }
    } else {
        let i = choose|i: int|
            0 <= i < chain@.len() && !trusted_directory(#[trigger] chain@[i], our_uid);
        assert(!sound_ancestor(chain@[i], our_uid));
    }
}

/// An open secret file is looked up; one that cannot be opened is refused.
pub proof fn law_open_secret_is_looked_up(path: &str, ended: Result<(), String>, r: SecretStage)
    requires
        call_ensures(after_open, (path, ended), r),
    ensures
        match ended {
            Ok(()) => r is InspectFile,
            Err(error) => r matches SecretStage::Refused(text) && text@ == "secret file "@ + path@
                + " cannot be opened: "@ + error@
                + " (O_NOFOLLOW rejects a symlink at the final path component)"@,
        },
{
}

/// An open secret file goes on exactly where it is a regular one of this user, closed to
/// group and others, of at most 4096 bytes.
pub proof fn law_secret_file_is_the_owners_and_small(
    path: &str,
    found: Result<Stat, String>,
    our_uid: u32,
    r: SecretStage,
)
    requires
        call_ensures(after_inspect_file, (path, found, our_uid), r),
    ensures
        if found matches Ok(stat) && stat.kind == FileKind::File && stat.uid == our_uid && stat.mode
            & 0o077u32 == 0 && stat.size <= 4096 {
            r is InspectAcl
        } else {
            r is Refused
        },
{
}

/// What is said of an open secret file that is refused names what was found.
pub proof fn law_refused_secret_file_is_told_why(
    path: &str,
    found: Result<Stat, String>,
    our_uid: u32,
    text: String,
    owner: Seq<char>,
    us: Seq<char>,
    mode: Seq<char>,
    size: Seq<char>,
    most: Seq<char>,
)
    requires
        call_ensures(after_inspect_file, (path, found, our_uid), SecretStage::Refused(text)),
        writes(owner, (found->Ok_0).uid as int, 10),
        writes(us, our_uid as int, 10),
        writes(mode, ((found->Ok_0).mode & 0o777u32) as int, 8),
        writes(size, (found->Ok_0).size as int, 10),
        writes(most, 4096, 10),
    ensures
        text@ == "secret file "@ + path@ + match found {
            Err(error) => " cannot be stat'd via fd: "@ + error@,
            Ok(stat) => if stat.kind != FileKind::File {
                " is not a regular file (devices/sockets/FIFOs rejected)"@
            } else if stat.uid != our_uid {
                " is owned by uid "@ + owner + " but this process runs as uid "@ + us
            } else if stat.mode & 0o077u32 != 0 {
                " mode "@ + mode + " is too permissive; require 0600 or stricter"@
            } else {
                " is "@ + size + " bytes; refusing to read more than "@ + most
            },
        },
{
    lemma_written_so(owner, (found->Ok_0).uid as nat, 10);
    lemma_written_so(us, our_uid as nat, 10);
    lemma_written_so(mode, ((found->Ok_0).mode & 0o777u32) as nat, 8);
    lemma_written_so(size, (found->Ok_0).size as nat, 10);
    lemma_written_so(most, 4096, 10);
}

/// An open secret file is read exactly where its list grants nothing.
pub proof fn law_secret_is_read_only_where_nothing_is_granted(
    path: &str,
    lookup: &AclLookup,
    r: SecretStage,
)
    requires
        call_ensures(after_inspect_acl, (path, lookup), r),
    ensures
        if grants_nothing(*lookup) {
            r is Read
        } else {
            r is Refused
        },
{
}

/// What was read of a secret file is taken exactly where it has at most 4096 bytes, and
/// is all of it.
pub proof fn law_secret_is_all_that_was_read(
    path: &str,
    read: Result<Vec<u8>, String>,
    r: SecretStage,
)
    requires
        call_ensures(after_read, (path, read), r),
    ensures
        r is Done <==> (read matches Ok(bytes) && bytes@.len() <= 4096),
        r is Done || r is Refused,
        r matches SecretStage::Done(out) ==> (read matches Ok(bytes) && out@ == bytes@),
{
}

} // verus!
