//! The linking engine. A traversal of one source root is a sequence of
//! entries; for each entry the engine decides whether it is skipped, which
//! destination path it maps to, how a pre-existing destination is treated
//! (backup, forced removal, or hard failure), and which link is created.
//! [`plan_links`] composes these decisions over a whole traversal: given the
//! entries and whether each computed destination is already occupied, it
//! returns the operations to perform and the relative paths linked, in
//! traversal order, or the first failure.

use vstd::prelude::*;
use vstd::string::StrSliceExecFns;
use vstd::string::StringExecFns;
use crate::options::{LinkError, LinkOptions};
use crate::paths::{
    file_name_of, parent_dir, spec_file_name, spec_join, spec_parent_dir, spec_strip_prefix,
    strip_prefix,
};
use crate::paths::join_path;

verus! {

/// The destination path from its parts: a single-file root (an empty
/// relative path) landing in an existing directory keeps its own name;
/// every other entry lands at its relative path under the destination.
pub open spec fn spec_dest_path_parts(
    dest: Seq<char>,
    dest_is_dir: bool,
    rel: Seq<char>,
    name: Seq<char>,
) -> Seq<char> {
    if rel.len() == 0 && dest_is_dir {
        spec_join(dest, name)
    } else {
        spec_join(dest, rel)
    }
}

/// What one traversal entry is: a regular file, a directory, or anything
/// else (a socket, a device, a dangling link).
#[derive(Clone, Copy, PartialEq, Eq, Structural, Debug)]
pub enum EntryKind {
    File,
    Dir,
    Other,
}

/// One entry of a depth-first traversal: its path as walked, and its kind.
pub struct WalkEntry {
    pub path: String,
    pub kind: EntryKind,
}

/// What the engine decides to do with one traversal entry.
#[derive(Clone, Copy, PartialEq, Eq, Structural, Debug)]
pub enum EntryAction {
    /// The entry is passed over: the root directory itself, a non-regular
    /// file in hard-link mode, or a directory when only files are to be
    /// linked symbolically.
    Skip,
    /// A symbolic link to a directory, created without a collision check.
    LinkDirectory,
    /// A link to a file, guarded by the collision policy.
    LinkFile,
}

/// How a pre-existing destination file is treated.
#[derive(Clone, Copy, PartialEq, Eq, Structural, Debug)]
pub enum CollisionAction {
    /// Rename the existing file to a fresh backup name, then link.
    Backup,
    /// Delete the existing file, then link.
    Remove,
    /// Report `AlreadyExists`; nothing is touched.
    Fail,
}

/// One filesystem operation the engine asks for.
pub enum LinkOp {
    /// Create the directory chain up to `dir` if missing.
    EnsureParent { dir: String },
    /// Rename `path` to a fresh backup name under the configured suffix.
    Backup { path: String },
    /// Delete the file at `path`.
    Remove { path: String },
    /// Create a hard link at `dest` to `source`.
    HardLink { source: String, dest: String },
    /// Create a symbolic link at `dest` whose target names `source`,
    /// relative to the link's directory when the options say so.
    SymLink { source: String, dest: String },
}

/// The mathematical shape of a [`LinkOp`].
pub enum SpecOp {
    EnsureParent { dir: Seq<char> },
    Backup { path: Seq<char> },
    Remove { path: Seq<char> },
    HardLink { source: Seq<char>, dest: Seq<char> },
    SymLink { source: Seq<char>, dest: Seq<char> },
}

impl View for LinkOp {
    type V = SpecOp;

    open spec fn view(&self) -> SpecOp {
        match self {
            LinkOp::EnsureParent { dir } => SpecOp::EnsureParent { dir: dir@ },
            LinkOp::Backup { path } => SpecOp::Backup { path: path@ },
            LinkOp::Remove { path } => SpecOp::Remove { path: path@ },
            LinkOp::HardLink { source, dest } => SpecOp::HardLink {
                source: source@,
                dest: dest@,
            },
            LinkOp::SymLink { source, dest } => SpecOp::SymLink { source: source@, dest: dest@ },
        }
    }
}

/// Everything a successful run performs: the operations in order, and the
/// relative paths linked, in traversal order.
pub struct LinkPlan {
    pub ops: Vec<LinkOp>,
    pub linked: Vec<String>,
}

/// Whether a traversal entry is passed over. The root of a directory walk
/// is reported but never linked; in hard-link mode only regular files are
/// linked; and directories are not materialized when only files are to be
/// linked symbolically.
pub open spec fn spec_entry_skipped(kind: EntryKind, first: bool, o: LinkOptions) -> bool {
    (first && kind is Dir) || (!(kind is File) && !o.symbolic) || (kind is Dir && o.symbolic
        && o.symlink_files_only)
}

/// Whether the entry becomes a directory symlink, which is created without
/// a collision check.
pub open spec fn spec_dir_link(kind: EntryKind, o: LinkOptions) -> bool {
    kind is Dir && o.symbolic
}

/// Decides what to do with one traversal entry.
pub fn entry_action(first: bool, kind: &EntryKind, opts: &LinkOptions) -> (r: EntryAction)
    ensures
        (r is Skip) == spec_entry_skipped(*kind, first, *opts),
        !(r is Skip) ==> (r is LinkDirectory) == spec_dir_link(*kind, *opts),
{
    match kind {
        EntryKind::Dir => {
            if first {
                EntryAction::Skip
            } else if !opts.symbolic {
                EntryAction::Skip
            } else if opts.symlink_files_only {
                EntryAction::Skip
            } else {
                EntryAction::LinkDirectory
            }
        },
        EntryKind::File => EntryAction::LinkFile,
        EntryKind::Other => {
            if !opts.symbolic {
                EntryAction::Skip
            } else {
                EntryAction::LinkFile
            }
        },
    }
}

/// Decides how to treat a destination file that already exists: backup wins
/// over force, force removes, and with neither the run fails.
pub fn collision_action(opts: &LinkOptions) -> (r: CollisionAction)
    ensures
        (r is Backup) == opts.backup,
        (r is Remove) == (!opts.backup && opts.force),
        (r is Fail) == (!opts.backup && !opts.force),
{
    if opts.backup {
        CollisionAction::Backup
    } else if opts.force {
        CollisionAction::Remove
    } else {
        CollisionAction::Fail
    }
}

/// The destination path of one entry: a single-file root landing in an
/// existing directory keeps its own name; every other entry lands at its
/// relative path under the destination.
pub fn dest_path_for(dest: &str, dest_is_dir: bool, rel: &str, name: &str) -> (r: String)
    ensures
        r@ == spec_dest_path_parts(dest@, dest_is_dir, rel@, name@),
{
    if rel.unicode_len() == 0 && dest_is_dir {
        join_path(dest, name)
    } else {
        join_path(dest, rel)
    }
}

/// The base a root is walked against: the root's own parent when the source
/// pattern was a wildcard and the destination is an existing directory (so
/// each match keeps its top-level name under the destination), otherwise
/// the root itself.
pub open spec fn spec_walk_base(root: Seq<char>, wildcard: bool, dest_is_dir: bool) -> Seq<char> {
    if wildcard && dest_is_dir {
        match spec_parent_dir(root) {
            Some(p) => p,
            None => Seq::empty(),
        }
    } else {
        root
    }
}

pub fn walk_base(root: &str, wildcard: bool, dest_is_dir: bool) -> (r: String)
    ensures
        r@ == spec_walk_base(root@, wildcard, dest_is_dir),
{
    if wildcard && dest_is_dir {
        match parent_dir(root) {
            Some(p) => p,
            None => {
                let empty = String::new();
                proof {
                    assert(empty@ =~= Seq::<char>::empty());
                }
                empty
            },
        }
    } else {
        String::from_str(root)
    }
}

/// A wildcard that expands to several roots can only land in an existing
/// directory; aiming several roots at one single path is refused.
pub fn check_multiple_roots(n_roots: usize, dest_is_dir: bool) -> (r: Result<(), LinkError>)
    ensures
        r is Ok <==> (n_roots <= 1 || dest_is_dir),
        r is Err ==> r == Err::<(), LinkError>(LinkError::InvalidPath),
{
    if n_roots > 1 && !dest_is_dir {
        Err(LinkError::InvalidPath)
    } else {
        Ok(())
    }
}

/// Why one traversal entry stops the run, if it does: an entry that does
/// not lie under the base cannot be given a relative path, and an occupied
/// destination with neither backup nor force set is refused.
pub open spec fn spec_entry_fail(
    e: WalkEntry,
    first: bool,
    occupied: bool,
    base: Seq<char>,
    o: LinkOptions,
) -> Option<LinkError> {
    if spec_entry_skipped(e.kind, first, o) {
        None
    } else if spec_strip_prefix(e.path@, base) is None {
        Some(LinkError::Other)
    } else if !spec_dir_link(e.kind, o) && occupied && !o.backup && !o.force {
        Some(LinkError::AlreadyExists)
    } else {
        None
    }
}

/// The first failure among the first `n` entries, if any; the engine stops
/// there and performs nothing further.
pub open spec fn spec_first_fail(
    entries: Seq<WalkEntry>,
    occupied: Seq<bool>,
    base: Seq<char>,
    o: LinkOptions,
    n: int,
) -> Option<LinkError>
    decreases n,
{
    if n <= 0 {
        None
    } else {
        let prev = spec_first_fail(entries, occupied, base, o, n - 1);
        if prev is Some {
            prev
        } else {
            spec_entry_fail(entries[n - 1], n - 1 == 0, occupied[n - 1], base, o)
        }
    }
}

/// The relative paths linked among the first `n` entries, in traversal
/// order: every entry that is not skipped contributes its path under the
/// base.
pub open spec fn spec_linked(
    entries: Seq<WalkEntry>,
    base: Seq<char>,
    o: LinkOptions,
    n: int,
) -> Seq<Seq<char>>
    decreases n,
{
    if n <= 0 {
        Seq::empty()
    } else {
        let prev = spec_linked(entries, base, o, n - 1);
        if spec_entry_skipped(entries[n - 1].kind, n - 1 == 0, o) {
            prev
        } else {
            match spec_strip_prefix(entries[n - 1].path@, base) {
                Some(rel) => prev.push(rel),
                None => prev,
            }
        }
    }
}

/// The operations one entry asks for: its destination's parent chain, the
/// treatment of an occupied destination, and the link itself.
pub open spec fn spec_entry_ops(
    e: WalkEntry,
    first: bool,
    occupied: bool,
    base: Seq<char>,
    dest: Seq<char>,
    dest_is_dir: bool,
    o: LinkOptions,
) -> Seq<SpecOp> {
    if spec_entry_skipped(e.kind, first, o) {
        Seq::empty()
    } else {
        match spec_strip_prefix(e.path@, base) {
            None => Seq::empty(),
            Some(rel) => {
                let df = spec_dest_path_parts(dest, dest_is_dir, rel, spec_file_name(e.path@));
                let parent_ops = match spec_parent_dir(df) {
                    Some(p) => seq![SpecOp::EnsureParent { dir: p }],
                    None => Seq::<SpecOp>::empty(),
                };
                if spec_dir_link(e.kind, o) {
                    parent_ops + seq![SpecOp::SymLink { source: e.path@, dest: df }]
                } else {
                    let coll = if occupied && o.backup {
                        seq![SpecOp::Backup { path: df }]
                    } else if occupied && !o.backup && o.force {
                        seq![SpecOp::Remove { path: df }]
                    } else {
                        Seq::<SpecOp>::empty()
                    };
                    let link = if o.symbolic {
                        seq![SpecOp::SymLink { source: e.path@, dest: df }]
                    } else {
                        seq![SpecOp::HardLink { source: e.path@, dest: df }]
                    };
                    parent_ops + coll + link
                }
            },
        }
    }
}

/// The operations of the first `n` entries, in order.
pub open spec fn spec_ops(
    entries: Seq<WalkEntry>,
    occupied: Seq<bool>,
    base: Seq<char>,
    dest: Seq<char>,
    dest_is_dir: bool,
    o: LinkOptions,
    n: int,
) -> Seq<SpecOp>
    decreases n,
{
    if n <= 0 {
        Seq::empty()
    } else {
        spec_ops(entries, occupied, base, dest, dest_is_dir, o, n - 1) + spec_entry_ops(
            entries[n - 1],
            n - 1 == 0,
            occupied[n - 1],
            base,
            dest,
            dest_is_dir,
            o,
        )
    }
}

proof fn lemma_first_fail_propagates(
    entries: Seq<WalkEntry>,
    occupied: Seq<bool>,
    base: Seq<char>,
    o: LinkOptions,
    m: int,
    n: int,
)
    requires
        0 <= m <= n,
        spec_first_fail(entries, occupied, base, o, m) is Some,
    ensures
        spec_first_fail(entries, occupied, base, o, n) == spec_first_fail(
            entries,
            occupied,
            base,
            o,
            m,
        ),
    decreases n,
{
    if n > m {
        lemma_first_fail_propagates(entries, occupied, base, o, m, n - 1);
    }
}

/// The engine's decision over one whole traversal. Given the entries of a
/// walk, whether each entry's computed destination is already occupied, the
/// base the walk is relative to, and the destination, it returns the
/// operations to perform with the relative paths linked — or the first
/// failure, in which case nothing is to be performed.
pub fn plan_links(
    entries: &Vec<WalkEntry>,
    occupied: &Vec<bool>,
    base: &str,
    dest: &str,
    dest_is_dir: bool,
    opts: &LinkOptions,
) -> (r: Result<LinkPlan, LinkError>)
    requires
        occupied@.len() == entries@.len(),
    ensures
        (match r {
            Ok(plan) => spec_first_fail(
                entries@,
                occupied@,
                base@,
                *opts,
                entries@.len() as int,
            ) is None && plan.linked@.map_values(|s: String| s@) == spec_linked(
                entries@,
                base@,
                *opts,
                entries@.len() as int,
            ) && plan.ops@.map_values(|op: LinkOp| op@) == spec_ops(
                entries@,
                occupied@,
                base@,
                dest@,
                dest_is_dir,
                *opts,
                entries@.len() as int,
            ),
            Err(e) => spec_first_fail(entries@, occupied@, base@, *opts, entries@.len() as int)
                == Some(e),
        }),
{
    let n = entries.len();
    let mut ops: Vec<LinkOp> = Vec::new();
    let mut linked: Vec<String> = Vec::new();
    let mut i: usize = 0;
    while i < n
        invariant
            i <= n,
            n == entries@.len(),
            occupied@.len() == n,
            spec_first_fail(entries@, occupied@, base@, *opts, i as int) is None,
            linked@.map_values(|s: String| s@) == spec_linked(entries@, base@, *opts, i as int),
            ops@.map_values(|op: LinkOp| op@) == spec_ops(
                entries@,
                occupied@,
                base@,
                dest@,
                dest_is_dir,
                *opts,
                i as int,
            ),
        decreases n - i,
    {
        let ghost prev_linked = linked@.map_values(|s: String| s@);
        let ghost prev_ops = ops@.map_values(|op: LinkOp| op@);
        let e = &entries[i];
        let first = i == 0;
        let act = entry_action(first, &e.kind, opts);
        match act {
            EntryAction::Skip => {
                proof {
                    assert(spec_entry_ops(
                        entries@[i as int],
                        i == 0,
                        occupied@[i as int],
                        base@,
                        dest@,
                        dest_is_dir,
                        *opts,
                    ) =~= Seq::<SpecOp>::empty());
                    assert(prev_ops + Seq::<SpecOp>::empty() =~= prev_ops);
                }
            },
            _ => {
                let rel = match strip_prefix(e.path.as_str(), base) {
                    Some(rel) => rel,
                    None => {
                        proof {
                            lemma_first_fail_propagates(
                                entries@,
                                occupied@,
                                base@,
                                *opts,
                                i + 1,
                                n as int,
                            );
                        }
                        return Err(LinkError::Other);
                    },
                };
                let name = file_name_of(e.path.as_str());
                let df = dest_path_for(dest, dest_is_dir, rel.as_str(), name.as_str());
                match parent_dir(df.as_str()) {
                    Some(p) => ops.push(LinkOp::EnsureParent { dir: p }),
                    None => {},
                }
                let dir_link = match act {
                    EntryAction::LinkDirectory => true,
                    _ => false,
                };
                if dir_link {
                    ops.push(LinkOp::SymLink { source: e.path.clone(), dest: df });
                    linked.push(rel);
                } else {
                    if occupied[i] {
                        match collision_action(opts) {
                            CollisionAction::Backup => {
                                ops.push(LinkOp::Backup { path: df.clone() });
                            },
                            CollisionAction::Remove => {
                                ops.push(LinkOp::Remove { path: df.clone() });
                            },
                            CollisionAction::Fail => {
                                proof {
                                    lemma_first_fail_propagates(
                                        entries@,
                                        occupied@,
                                        base@,
                                        *opts,
                                        i + 1,
                                        n as int,
                                    );
                                }
                                return Err(LinkError::AlreadyExists);
                            },
                        }
                    }
                    if opts.symbolic {
                        ops.push(LinkOp::SymLink { source: e.path.clone(), dest: df });
                    } else {
                        ops.push(LinkOp::HardLink { source: e.path.clone(), dest: df });
                    }
                    linked.push(rel);
                }
                proof {
                    assert(linked@.map_values(|s: String| s@) =~= spec_linked(
                        entries@,
                        base@,
                        *opts,
                        i + 1,
                    ));
                    assert(ops@.map_values(|op: LinkOp| op@) =~= prev_ops + spec_entry_ops(
                        entries@[i as int],
                        i == 0,
                        occupied@[i as int],
                        base@,
                        dest@,
                        dest_is_dir,
                        *opts,
                    ));
                }
            },
        }
        i = i + 1;
    }
    Ok(LinkPlan { ops, linked })
}

/// A single-file root with a free destination is owed exactly one link: the
/// run cannot fail, and the linked list holds that one entry's relative
/// path (the empty path when the file was walked against itself).
pub proof fn lemma_single_file_root(
    entries: Seq<WalkEntry>,
    occupied: Seq<bool>,
    base: Seq<char>,
    o: LinkOptions,
)
    requires
        entries.len() == 1,
        occupied.len() == 1,
        entries[0].kind is File,
        !occupied[0],
        spec_strip_prefix(entries[0].path@, base) is Some,
    ensures
        spec_first_fail(entries, occupied, base, o, 1) is None,
        spec_strip_prefix(entries[0].path@, base) matches Some(rel) && spec_linked(
            entries,
            base,
            o,
            1,
        ) == seq![rel],
{
    let rel = match spec_strip_prefix(entries[0].path@, base) {
        Some(rel) => rel,
        None => Seq::empty(),
    };
    assert(spec_first_fail(entries, occupied, base, o, 0) is None);
    assert(spec_entry_fail(entries[0], true, occupied[0], base, o) is None);
    assert(spec_linked(entries, base, o, 0) == Seq::<Seq<char>>::empty());
    assert(spec_linked(entries, base, o, 1) =~= seq![rel]);
}

/// The relative paths of the regular files among the first `n` entries, in
/// order.
pub open spec fn spec_file_rels(entries: Seq<WalkEntry>, base: Seq<char>, n: int) -> Seq<Seq<char>>
    decreases n,
{
    if n <= 0 {
        Seq::empty()
    } else {
        let prev = spec_file_rels(entries, base, n - 1);
        if entries[n - 1].kind is File {
            match spec_strip_prefix(entries[n - 1].path@, base) {
                Some(rel) => prev.push(rel),
                None => prev,
            }
        } else {
            prev
        }
    }
}

/// In hard-link mode the linked list is exactly the relative paths of the
/// traversal's regular files, in traversal order — directories and other
/// non-regular entries contribute nothing, whatever the remaining options
/// say.
pub proof fn lemma_hard_mode_links_files(
    entries: Seq<WalkEntry>,
    base: Seq<char>,
    o: LinkOptions,
    n: int,
)
    requires
        !o.symbolic,
        0 <= n <= entries.len(),
    ensures
        spec_linked(entries, base, o, n) == spec_file_rels(entries, base, n),
    decreases n,
{
    if n > 0 {
        lemma_hard_mode_links_files(entries, base, o, n - 1);
    }
}

/// The relative paths of all entries after the first, in order.
pub open spec fn spec_rels_after_root(
    entries: Seq<WalkEntry>,
    base: Seq<char>,
    n: int,
) -> Seq<Seq<char>>
    decreases n,
{
    if n <= 1 {
        Seq::empty()
    } else {
        let prev = spec_rels_after_root(entries, base, n - 1);
        match spec_strip_prefix(entries[n - 1].path@, base) {
            Some(rel) => prev.push(rel),
            None => prev,
        }
    }
}

/// In symbolic mode with directories materialized, the linked list is
/// exactly the relative paths of every traversal entry below the root
/// directory, in traversal order.
pub proof fn lemma_symbolic_links_all(
    entries: Seq<WalkEntry>,
    base: Seq<char>,
    o: LinkOptions,
    n: int,
)
    requires
        o.symbolic,
        !o.symlink_files_only,
        entries.len() >= 1,
        entries[0].kind is Dir,
        0 <= n <= entries.len(),
    ensures
        spec_linked(entries, base, o, n) == spec_rels_after_root(entries, base, n),
    decreases n,
{
    if n > 0 {
        lemma_symbolic_links_all(entries, base, o, n - 1);
    }
}

/// Failure is idempotent: when neither backup nor force is set and the
/// first regular file of the traversal finds its destination occupied — as
/// every file does on a second identical run — the run reports
/// `AlreadyExists`, and since it reports a failure it performs no
/// operation at all.
pub proof fn lemma_existing_dest_fails(
    entries: Seq<WalkEntry>,
    occupied: Seq<bool>,
    base: Seq<char>,
    o: LinkOptions,
    k: int,
    n: int,
)
    requires
        !o.symbolic,
        !o.force,
        !o.backup,
        occupied.len() == entries.len(),
        0 <= k < n <= entries.len(),
        entries[k].kind is File,
        occupied[k],
        forall|j: int| 0 <= j < k ==> !(entries[j].kind is File),
        spec_strip_prefix(entries[k].path@, base) is Some,
    ensures
        spec_first_fail(entries, occupied, base, o, n) == Some(LinkError::AlreadyExists),
{
    assert forall|m: int| 0 <= m <= k implies spec_first_fail(entries, occupied, base, o, m)
        is None by {
        lemma_no_fail_over_skipped(entries, occupied, base, o, m, k);
    }
    assert(spec_first_fail(entries, occupied, base, o, k) is None);
    assert(spec_entry_fail(entries[k], k == 0, occupied[k], base, o) == Some(
        LinkError::AlreadyExists,
    ));
    assert(spec_first_fail(entries, occupied, base, o, k + 1) == Some(LinkError::AlreadyExists));
    lemma_first_fail_propagates(entries, occupied, base, o, k + 1, n);
}

proof fn lemma_no_fail_over_skipped(
    entries: Seq<WalkEntry>,
    occupied: Seq<bool>,
    base: Seq<char>,
    o: LinkOptions,
    m: int,
    k: int,
)
    requires
        !o.symbolic,
        m <= k,
        forall|j: int| 0 <= j < k ==> !(entries[j].kind is File),
    ensures
        spec_first_fail(entries, occupied, base, o, m) is None,
    decreases m,
{
    if m > 0 {
        lemma_no_fail_over_skipped(entries, occupied, base, o, m - 1, k);
    }
}

} // verus!
