//! Laws of the rules on files and directories, and of the way to the secret.

use vstd::prelude::*;

use crate::fs_security::{
    acl_grants, acl_unknown, ancestor_fault, ancestors_of, chain_fault, dir_fault, fd_acl_fault,
    lemma_parent_is_shorter, lemma_trimmed, lemma_up_to_separator, parent, path_acl_fault, trimmed,
    up_to_separator, AclLookup, FileKind, Probe, Stat, ACL_EXTENDED_ALLOW, ENOENT,
    GROUP_OTHER_ANY, GROUP_OTHER_WRITE,
};
use crate::secret::{
    absolute, after_read_view, contents_fault, file_fault, file_label, length_fault, link_fault,
    open_fault, relative_fault, resolve_fault, source_fault, unless, without_line_end,
    SecretStageView, MAX_SECRET_FILE_BYTES, MIN_SECRET_BYTES,
};

verus! {

/// A lookup that shows that no entry grants access.
pub open spec fn closed_acl(lookup: AclLookup) -> bool {
    acl_unknown(lookup) is None && !acl_grants(lookup)
}

/// An access-control list is passed exactly where it is known to grant nothing:
/// where the platform has none, where the object has none, and where every entry
/// that was read denies. A lookup that failed otherwise never passes.
pub proof fn law_acl_passes_exactly_where_nothing_is_granted(
    lookup: AclLookup,
    label: Seq<char>,
    path: Seq<char>,
)
    ensures
        fd_acl_fault(lookup, label) is None <==> closed_acl(lookup),
        path_acl_fault(Some(lookup), path) is None <==> closed_acl(lookup),
        closed_acl(lookup) <==> match lookup {
            AclLookup::NotConsulted => true,
            AclLookup::Missing { errno, .. } => errno == ENOENT,
            AclLookup::Entries(entries) => forall|i: int|
                0 <= i < entries@.len() ==> #[trigger] entries@[i] != Some(ACL_EXTENDED_ALLOW),
        },
{
}

/// A spool directory passes exactly where it is a real directory, owned by this
/// process, without any permission of group or others, whose list grants nothing.
pub proof fn law_dir_passes_exactly_where_locked_down(probe: Probe, our_uid: u32)
    ensures
        dir_fault(probe, our_uid) is None <==> {
            &&& probe.stat matches Ok(stat) && {
                &&& stat.kind == FileKind::Dir
                &&& stat.uid == our_uid
                &&& stat.mode & GROUP_OTHER_ANY == 0
            }
            &&& probe.acl matches Some(lookup) && closed_acl(lookup)
        },
{
}

/// An ancestor is a real directory, owned by root or by this process, that group
/// and others cannot write to, whose list grants nothing.
pub open spec fn sound_ancestor(probe: Probe, our_uid: u32) -> bool {
    &&& probe.stat matches Ok(stat) && {
        &&& stat.kind == FileKind::Dir
        &&& stat.uid == 0 || stat.uid == our_uid
        &&& stat.mode & GROUP_OTHER_WRITE == 0
    }
    &&& probe.acl matches Some(lookup) && closed_acl(lookup)
}

/// A chain of ancestors passes exactly where every one of them is sound.
pub proof fn law_chain_passes_exactly_where_every_ancestor_is_sound(
    chain: Seq<Probe>,
    our_uid: u32,
)
    ensures
        chain_fault(chain, our_uid) is None <==> forall|i: int|
            0 <= i < chain.len() ==> sound_ancestor(#[trigger] chain[i], our_uid),
    decreases chain.len(),
{
    if chain.len() > 0 {
        let rest = chain.skip(1);
        law_chain_passes_exactly_where_every_ancestor_is_sound(rest, our_uid);
        assert(ancestor_fault(chain[0], our_uid) is None <==> sound_ancestor(chain[0], our_uid));
        if forall|i: int|
            0 <= i < rest.len() ==> sound_ancestor(#[trigger] rest[i], our_uid) {
            assert forall|i: int| 1 <= i < chain.len() implies sound_ancestor(
                #[trigger] chain[i],
                our_uid,
            ) by {
                assert(rest[i - 1] == chain[i]);
            }
        } else {
            let i = choose|i: int|
                0 <= i < rest.len() && !sound_ancestor(#[trigger] rest[i], our_uid);
            assert(chain[i + 1] == rest[i]);
        }
    }
}

/// Permissions without any of group or others are the owner's alone.
pub proof fn law_closed_mode_is_the_owners_alone(mode: u32)
    requires
        mode & GROUP_OTHER_ANY == 0,
    ensures
        mode & 0o777u32 == mode & 0o700u32,
        mode & GROUP_OTHER_WRITE == 0,
{
    assert(mode & 0o777u32 == mode & 0o700u32) by (bit_vector)
        requires
            mode & 0o077u32 == 0,
    ;
    assert(mode & 0o022u32 == 0) by (bit_vector)
        requires
            mode & 0o077u32 == 0,
    ;
}

/// Trimming the beginning of a path down to some point that trimming the path passes
/// leads to the same.
proof fn lemma_trimmed_beginning(path: Seq<u8>, k: int)
    requires
        trimmed(path).len() <= k <= path.len(),
    ensures
        trimmed(path.take(k)) == trimmed(path),
    decreases path.len(),
{
    if k == path.len() {
        assert(path.take(k) == path);
    } else {
        lemma_trimmed_beginning(path.drop_last(), k);
        assert(path.drop_last().take(k) == path.take(k));
    }
}

/// Separators at the end of a path do not count: with any number of them it is trimmed
/// to the same, which ends with one only where it is the root, and it has the same
/// parent.
pub proof fn law_trailing_separators_do_not_count(path: Seq<u8>, separators: Seq<u8>)
    requires
        path.len() > 0,
        forall|i: int| 0 <= i < separators.len() ==> #[trigger] separators[i] == 47u8,
    ensures
        trimmed(path + separators) == trimmed(path),
        parent(path + separators) == parent(path),
        trimmed(path).last() == 47u8 ==> trimmed(path) == seq![47u8],
    decreases separators.len(),
{
    lemma_trimmed(path);
    if separators.len() == 0 {
        assert(path + separators == path);
    } else {
        let all = path + separators;
        assert(all.drop_last() == path + separators.drop_last());
        assert(all.last() == separators.last());
        law_trailing_separators_do_not_count(path, separators.drop_last());
    }
}

/// The parent of an absolute path is what stands up to the last separator before its
/// final component, trimmed.
proof fn lemma_parent_of_absolute(path: Seq<u8>) -> (n: int)
    requires
        trimmed(path).len() > 1,
        path[0] == 47u8,
    ensures
        0 < n < trimmed(path).len(),
        path[n - 1] == 47u8,
        forall|i: int| n <= i < trimmed(path).len() ==> #[trigger] path[i] != 47u8,
        parent(path) == Some(trimmed(path.take(n))),
{
    let named = trimmed(path);
    lemma_trimmed(path);
    lemma_up_to_separator(named, 1);
    let cut = up_to_separator(named, 1);
    let n = cut.len() as int;
    assert(named.last() != 47u8);
    assert(cut == path.take(n));
    assert forall|i: int| n <= i < named.len() implies #[trigger] path[i] != 47u8 by {
        assert(named[i] != 47u8);
    }
    assert(path[n - 1] == cut.last());
    n
}

/// No directory of an absolute path is left out of its ancestors: wherever a separator
/// stands before the final component, what stands before it, trimmed, is among them,
/// and so is `/` itself.
pub proof fn law_ancestors_reach_the_root(path: Seq<u8>, k: int)
    requires
        path.len() > 0,
        path[0] == 47u8,
        0 <= k,
        k + 1 < trimmed(path).len(),
        path[k] == 47u8,
    ensures
        ancestors_of(path).contains(trimmed(path.take(k + 1))),
    decreases path.len(),
{
    lemma_trimmed(path);
    lemma_parent_is_shorter(path);
    let n = lemma_parent_of_absolute(path);
    let up = parent(path)->0;
    let wanted = trimmed(path.take(k + 1));
    lemma_trimmed(path.take(n));
    assert(ancestors_of(path) == seq![up] + ancestors_of(up));
    assert(ancestors_of(path)[0] == up);
    assert(k < n);
    if k + 1 < up.len() {
        assert(up == path.take(up.len() as int));
        assert(up[0] == path[0] && up[k] == path[k]);
        law_ancestors_reach_the_root(up, k);
        assert(up.take(k + 1) == path.take(k + 1));
        let i = choose|i: int| 0 <= i < ancestors_of(up).len() && ancestors_of(up)[i] == wanted;
        assert(ancestors_of(path)[i + 1] == wanted);
    } else {
        lemma_trimmed_beginning(path.take(n), k + 1);
        assert(path.take(n).take(k + 1) == path.take(k + 1));
    }
}

/// Every ancestor of an absolute path is one of its directories: `/`, or a beginning
/// of the path that ends with a component, before a separator.
pub proof fn law_ancestors_are_directories_of_the_path(path: Seq<u8>, i: int)
    requires
        path.len() > 0,
        path[0] == 47u8,
        0 <= i < ancestors_of(path).len(),
    ensures
        ({
            let up = ancestors_of(path)[i];
            &&& 0 < up.len() < path.len()
            &&& up == path.take(up.len() as int)
            &&& up == trimmed(up)
            &&& up.len() == 1 || path[up.len() as int] == 47u8
        }),
    decreases path.len(),
{
    lemma_trimmed(path);
    lemma_parent_is_shorter(path);
    assert(trimmed(path)[0] == path[0]);
    let n = lemma_parent_of_absolute(path);
    let above = parent(path)->0;
    lemma_trimmed(path.take(n));
    assert(above == path.take(above.len() as int));
    assert(ancestors_of(path) == seq![above] + ancestors_of(above));
    if i > 0 {
        law_ancestors_are_directories_of_the_path(above, i - 1);
        let up = ancestors_of(path)[i];
        assert(up == ancestors_of(above)[i - 1]);
        assert(above.take(up.len() as int) == path.take(up.len() as int));
    } else if above.len() > 1 {
        lemma_next_is_separator(path.take(n));
    }
}

/// What was trimmed off a path began with a separator, unless the root is left.
proof fn lemma_next_is_separator(path: Seq<u8>)
    requires
        path.len() > 0,
        path.last() == 47u8,
        path[0] == 47u8,
        trimmed(path).len() < path.len(),
    ensures
        trimmed(path).len() == 1 || path[trimmed(path).len() as int] == 47u8,
    decreases path.len(),
{
    let rest = path.drop_last();
    lemma_trimmed(rest);
    if trimmed(path).len() < rest.len() {
        if rest.last() == 47u8 {
            lemma_next_is_separator(rest);
        } else {
            let shorter = rest.drop_last();
            assert(shorter.last() == 47u8);
            assert(trimmed(rest) == trimmed(shorter));
            lemma_trimmed(shorter);
            if trimmed(path).len() < shorter.len() {
                lemma_next_is_separator(shorter);
            }
        }
    }
}

/// A path without idle parts, as resolving a path gives it, is cut at its last
/// separator: its parent is what stands before it, or `/`.
pub proof fn law_parent_of_a_resolved_path(path: Seq<u8>, n: int)
    requires
        0 <= n < path.len() - 1,
        path[0] == 47u8,
        path[n] == 47u8,
        forall|i: int| n < i < path.len() ==> #[trigger] path[i] != 47u8,
        trimmed(path) == path,
        n > 0 ==> trimmed(path.take(n)) == path.take(n),
    ensures
        parent(path) == Some(
            if n == 0 {
                seq![47u8]
            } else {
                path.take(n)
            },
        ),
{
    let m = lemma_parent_of_absolute(path);
    assert(path[m - 1] == 47u8);
    assert(m == n + 1);
    let before = path.take(m);
    if n == 0 {
        assert(before == seq![47u8]);
    } else {
        assert(before.drop_last() == path.take(n));
    }
}

/// The lookups of the ancestors of a path, from its parent up to the root.
pub open spec fn chain_of(path: Seq<u8>, lookup: spec_fn(Seq<u8>) -> Probe) -> Seq<Probe> {
    ancestors_of(path).map_values(|up: Seq<u8>| lookup(up))
}

/// The lookups of a path's ancestors pass exactly where every ancestor is sound, each
/// one that [`ancestors_of`] gives.
pub proof fn law_ancestors_pass_exactly_where_each_is_sound(
    path: Seq<u8>,
    lookup: spec_fn(Seq<u8>) -> Probe,
    our_uid: u32,
)
    ensures
        chain_fault(chain_of(path, lookup), our_uid) is None <==> forall|i: int|
            0 <= i < ancestors_of(path).len() ==> sound_ancestor(
                lookup(#[trigger] ancestors_of(path)[i]),
                our_uid,
            ),
{
    let chain = chain_of(path, lookup);
    let ups = ancestors_of(path);
    law_chain_passes_exactly_where_every_ancestor_is_sound(chain, our_uid);
    assert forall|i: int| 0 <= i < ups.len() implies lookup(#[trigger] ups[i]) == chain[i] by {}
    if forall|i: int| 0 <= i < ups.len() ==> sound_ancestor(lookup(#[trigger] ups[i]), our_uid) {
        assert forall|i: int| 0 <= i < chain.len() implies sound_ancestor(
            #[trigger] chain[i],
            our_uid,
        ) by {
            assert(chain[i] == lookup(ups[i]));
        }
    }
}

/// What the file system shows on the way to a secret file's contents.
pub struct SecretFile {
    pub kind: Result<FileKind, String>,
    pub resolved: Result<(), String>,
    /// The bytes of the path that it resolves to.
    pub location: Seq<u8>,
    /// What looking a path up gives, without following a final symbolic link.
    pub lookup: spec_fn(Seq<u8>) -> Probe,
    pub opened: Result<(), String>,
    pub stat: Result<Stat, String>,
    pub acl: AclLookup,
    pub read: Result<Vec<u8>, String>,
}

/// The operation of a stage is performed, and the stage after it is entered.
pub open spec fn secret_step(
    stage: SecretStageView,
    path: Seq<char>,
    resolved_path: Seq<char>,
    file: SecretFile,
    our_uid: u32,
) -> SecretStageView {
    match stage {
        SecretStageView::Inspect => unless(
            link_fault(path, file.kind),
            SecretStageView::Canonicalize,
        ),
        SecretStageView::Canonicalize => unless(
            resolve_fault(path, file.resolved),
            SecretStageView::InspectAncestors,
        ),
        SecretStageView::InspectAncestors => unless(
            chain_fault(chain_of(file.location, file.lookup), our_uid),
            SecretStageView::Open,
        ),
        SecretStageView::Open => unless(
            open_fault(resolved_path, file.opened),
            SecretStageView::InspectFile,
        ),
        SecretStageView::InspectFile => unless(
            file_fault(resolved_path, file.stat, our_uid),
            SecretStageView::InspectAcl,
        ),
        SecretStageView::InspectAcl => unless(
            fd_acl_fault(file.acl, file_label(resolved_path)),
            SecretStageView::Read,
        ),
        SecretStageView::Read => after_read_view(resolved_path, file.read),
        SecretStageView::Done(_) => stage,
        SecretStageView::Refused(_) => stage,
    }
}

/// The way to a secret file's contents from a stage on, for so many steps.
pub open spec fn secret_run(
    stage: SecretStageView,
    path: Seq<char>,
    resolved_path: Seq<char>,
    file: SecretFile,
    our_uid: u32,
    steps: nat,
) -> SecretStageView
    decreases steps,
{
    if steps == 0 {
        stage
    } else {
        secret_run(
            secret_step(stage, path, resolved_path, file, our_uid),
            path,
            resolved_path,
            file,
            our_uid,
            (steps - 1) as nat,
        )
    }
}

/// The contents of a secret file are taken exactly where its path is absolute and no
/// symbolic link, looking up each ancestor of the path that it resolves to shows a
/// sound one, and the open file is a regular one, owned by this process, closed to
/// group and others, of at most 4096 bytes when it is looked up and when it is read.
/// They are then all that was read.
pub proof fn law_secret_is_taken_exactly_from_a_locked_file(
    path: Seq<char>,
    resolved_path: Seq<char>,
    file: SecretFile,
    our_uid: u32,
)
    ensures
        ({
            let end = secret_run(
                unless(relative_fault(path), SecretStageView::Inspect),
                path,
                resolved_path,
                file,
                our_uid,
                7,
            );
            &&& end is Done || end is Refused
            &&& end is Done <==> {
                &&& absolute(path)
                &&& file.kind matches Ok(kind) && kind != FileKind::Symlink
                &&& file.resolved is Ok
                &&& forall|i: int|
                    0 <= i < ancestors_of(file.location).len() ==> sound_ancestor(
                        (file.lookup)(#[trigger] ancestors_of(file.location)[i]),
                        our_uid,
                    )
                &&& file.opened is Ok
                &&& file.stat matches Ok(stat) && {
                    &&& stat.kind == FileKind::File
                    &&& stat.uid == our_uid
                    &&& stat.mode & GROUP_OTHER_ANY == 0
                    &&& stat.size <= MAX_SECRET_FILE_BYTES
                }
                &&& closed_acl(file.acl)
                &&& file.read matches Ok(bytes) && bytes@.len() <= MAX_SECRET_FILE_BYTES
            }
            &&& end matches SecretStageView::Done(contents) ==> file.read matches Ok(bytes)
                && contents == bytes@
        }),
{
    reveal_with_fuel(secret_run, 8);
    law_ancestors_pass_exactly_where_each_is_sound(file.location, file.lookup, our_uid);
}

/// A secret is accepted, from a file and from the environment alike, exactly where at
/// least 16 bytes are left without the line ends at its end. What is then taken does
/// not end with a line end, and is all of the source but for those line ends.
pub proof fn law_secret_is_strong_and_trimmed(source: Seq<u8>)
    ensures
        ({
            let secret = without_line_end(source);
            &&& contents_fault(source) is None <==> secret.len() >= MIN_SECRET_BYTES
            &&& length_fault(secret.len()) is None <==> secret.len() >= MIN_SECRET_BYTES
            &&& secret.len() > 0 ==> secret.last() != 10u8 && secret.last() != 13u8
            &&& secret == source.take(secret.len() as int)
            &&& forall|i: int|
                secret.len() <= i < source.len() ==> #[trigger] source[i] == 10u8 || source[i]
                    == 13u8
        }),
{
    lemma_without_line_end(source);
}

/// What is cut off the end are line ends, and all of them.
pub(crate) proof fn lemma_without_line_end(bytes: Seq<u8>)
    ensures
        ({
            let kept = without_line_end(bytes);
            &&& kept.len() <= bytes.len()
            &&& kept.len() > 0 ==> kept.last() != 10u8 && kept.last() != 13u8
            &&& kept == bytes.take(kept.len() as int)
            &&& forall|i: int|
                kept.len() <= i < bytes.len() ==> #[trigger] bytes[i] == 10u8 || bytes[i] == 13u8
        }),
    decreases bytes.len(),
{
    let kept = without_line_end(bytes);
    if bytes.len() > 0 && (bytes.last() == 10u8 || bytes.last() == 13u8) {
        lemma_without_line_end(bytes.drop_last());
        assert forall|i: int| kept.len() <= i < bytes.len() implies #[trigger] bytes[i] == 10u8
            || bytes[i] == 13u8 by {
            if i < bytes.len() - 1 {
                assert(bytes.drop_last()[i] == bytes[i]);
            }
        }
    }
}

/// One source of the secret must be set, and only one, and a text of the
/// environment must not be empty.
pub proof fn law_secret_has_exactly_one_source(
    env_secret: Option<Seq<char>>,
    env_file: Option<Seq<char>>,
)
    ensures
        source_fault(env_secret, env_file) is None <==> {
            &&& env_secret is Some <==> env_file is None
            &&& env_secret matches Some(s) ==> s.len() > 0
        },
{
    if let Some(s) = env_secret {
        if s.len() == 0 {
            assert(s == Seq::<char>::empty());
        }
    }
}

} // verus!
