//! In-memory models of the three directory trees a snapshot run works on.
//!
//! [`FsNode`] models the source tree as found on disk: directories, regular
//! files with their full content, and symbolic links with their target
//! string. [`PriorNode`] models yesterday's snapshot as the engine observes
//! it: directories can be descended into, and every other entry is either
//! readable as a byte stream or not. [`SnapNode`] is the plan for today's
//! snapshot: a mirror of the source in which an unchanged file may become a
//! content-identity link back into yesterday's tree.

use vstd::prelude::*;

verus! {

/// One named entry of a source directory.
#[derive(Debug, PartialEq, Eq)]
pub struct DirEntry {
    pub name: String,
    pub node: FsNode,
}

/// A node of the source tree.
#[derive(Debug, PartialEq, Eq)]
pub enum FsNode {
    Directory { entries: Vec<DirEntry> },
    File { content: Vec<u8> },
    Symlink { target: String },
}

/// One named entry of a directory in yesterday's snapshot.
#[derive(Debug, PartialEq, Eq)]
pub struct PriorEntry {
    pub name: String,
    pub node: PriorNode,
}

/// A node of yesterday's snapshot, as far as the engine can observe it.
///
/// The engine never needs more of yesterday's tree than this: whether a name
/// can be descended into, and otherwise whether opening it yields a byte
/// stream. A `Readable` node holds the bytes that reading the path yields,
/// so a symbolic link that resolves to a readable file appears here with the
/// resolved content. An entry that exists but cannot be read as a file —
/// a broken link, or a permission failure — is `Unreadable`.
#[derive(Debug, PartialEq, Eq)]
pub enum PriorNode {
    Directory { entries: Vec<PriorEntry> },
    Readable { content: Vec<u8> },
    Unreadable,
}

/// One named entry of a directory in today's snapshot plan.
#[derive(Debug, PartialEq, Eq)]
pub struct SnapEntry {
    pub name: String,
    pub node: SnapNode,
}

/// A node of today's snapshot plan.
///
/// `ContentLink` stands for a symbolic link pointing at the same relative
/// path under yesterday's snapshot root: the file's content is proven (by
/// digest) to equal yesterday's copy, so the bytes are not duplicated.
#[derive(Debug, PartialEq, Eq)]
pub enum SnapNode {
    Directory { entries: Vec<SnapEntry> },
    File { content: Vec<u8> },
    Symlink { target: String },
    ContentLink,
}

/// The first entry named `name` among yesterday's entries, if any.
pub open spec fn prior_find(es: Seq<PriorEntry>, name: Seq<char>) -> Option<PriorNode>
    decreases es.len(),
{
    if es.len() == 0 {
        Option::None
    } else if es[0].name@ == name {
        Option::Some(es[0].node)
    } else {
        prior_find(es.drop_first(), name)
    }
}

/// What looking up `name` under a node of yesterday's tree yields: a child
/// for directories, nothing for anything else.
pub open spec fn prior_lookup(y: PriorNode, name: Seq<char>) -> Option<PriorNode> {
    match y {
        PriorNode::Directory { entries } => prior_find(entries@, name),
        _ => Option::None,
    }
}

/// Looks `name` up under a node of yesterday's tree.
#[verifier::loop_isolation(false)]
pub fn lookup_prior<'a>(y: &'a PriorNode, name: &String) -> (r: Option<&'a PriorNode>)
    ensures
        match r {
            Option::Some(c) => prior_lookup(*y, name@) == Option::Some(*c),
            Option::None => prior_lookup(*y, name@) is None,
        },
{
    match y {
        PriorNode::Directory { entries } => {
            let ghost all = entries@;
            let mut i: usize = 0;
            proof {
                assert(all.skip(0) =~= all);
            }
            while i < entries.len()
                invariant
                    i <= all.len(),
                    entries@ == all,
                    prior_find(all, name@) == prior_find(all.skip(i as int), name@),
                decreases all.len() - i,
            {
                proof {
                    assert(all.skip(i as int).drop_first() =~= all.skip(i + 1));
                    assert(all.skip(i as int)[0] == all[i as int]);
                }
                if entries[i].name.eq(name) {
                    proof {
                        assert(prior_find(all.skip(i as int), name@)
                            == Option::Some(all[i as int].node));
                    }
                    return Option::Some(&entries[i].node);
                }
                i = i + 1;
            }
            proof {
                assert(all.skip(all.len() as int) =~= Seq::<PriorEntry>::empty());
            }
            Option::None
        },
        _ => Option::None,
    }
}

/// The kinds of node a source tree distinguishes.
#[derive(Clone, Copy, Debug, PartialEq, Eq, Structural)]
pub enum NodeKind {
    Directory,
    File,
    Symlink,
}

/// How many nodes of kind `k` the source tree rooted at `n` holds,
/// the root included.
pub open spec fn fs_count(n: FsNode, k: NodeKind) -> nat
    decreases n,
{
    match n {
        FsNode::Directory { entries } => {
            (if k is Directory { 1nat } else { 0nat }) + fs_count_entries(entries@, k)
        },
        FsNode::File { .. } => if k is File { 1nat } else { 0nat },
        FsNode::Symlink { .. } => if k is Symlink { 1nat } else { 0nat },
    }
}

/// The kind-`k` node count summed over a sequence of source entries.
pub open spec fn fs_count_entries(es: Seq<DirEntry>, k: NodeKind) -> nat
    decreases es,
{
    if es.len() == 0 {
        0
    } else {
        fs_count(es[0].node, k) + fs_count_entries(es.drop_first(), k)
    }
}

/// How many nodes of kind `k` the snapshot plan rooted at `t` holds, the
/// root included. A content-identity link counts as none of the kinds.
pub open spec fn snap_count(t: SnapNode, k: NodeKind) -> nat
    decreases t,
{
    match t {
        SnapNode::Directory { entries } => {
            (if k is Directory { 1nat } else { 0nat }) + snap_count_entries(entries@, k)
        },
        SnapNode::File { .. } => if k is File { 1nat } else { 0nat },
        SnapNode::Symlink { .. } => if k is Symlink { 1nat } else { 0nat },
        SnapNode::ContentLink => 0,
    }
}

/// The kind-`k` node count summed over a sequence of plan entries.
pub open spec fn snap_count_entries(es: Seq<SnapEntry>, k: NodeKind) -> nat
    decreases es,
{
    if es.len() == 0 {
        0
    } else {
        snap_count(es[0].node, k) + snap_count_entries(es.drop_first(), k)
    }
}

/// The first source entry named `name`, if any.
pub open spec fn fs_find(es: Seq<DirEntry>, name: Seq<char>) -> Option<FsNode>
    decreases es.len(),
{
    if es.len() == 0 {
        Option::None
    } else if es[0].name@ == name {
        Option::Some(es[0].node)
    } else {
        fs_find(es.drop_first(), name)
    }
}

/// The first plan entry named `name`, if any.
pub open spec fn snap_find(es: Seq<SnapEntry>, name: Seq<char>) -> Option<SnapNode>
    decreases es.len(),
{
    if es.len() == 0 {
        Option::None
    } else if es[0].name@ == name {
        Option::Some(es[0].node)
    } else {
        snap_find(es.drop_first(), name)
    }
}

/// The source node reached from `n` by following the relative path `p`,
/// one name per component.
pub open spec fn fs_at(n: FsNode, p: Seq<Seq<char>>) -> Option<FsNode>
    decreases p.len(),
{
    if p.len() == 0 {
        Option::Some(n)
    } else {
        match n {
            FsNode::Directory { entries } => match fs_find(entries@, p[0]) {
                Option::Some(c) => fs_at(c, p.drop_first()),
                Option::None => Option::None,
            },
            _ => Option::None,
        }
    }
}

/// The node of yesterday's tree reached from `y` by the relative path `p`.
pub open spec fn prior_at(y: PriorNode, p: Seq<Seq<char>>) -> Option<PriorNode>
    decreases p.len(),
{
    if p.len() == 0 {
        Option::Some(y)
    } else {
        match prior_lookup(y, p[0]) {
            Option::Some(c) => prior_at(c, p.drop_first()),
            Option::None => Option::None,
        }
    }
}

/// The plan node reached from `t` by the relative path `p`.
pub open spec fn snap_at(t: SnapNode, p: Seq<Seq<char>>) -> Option<SnapNode>
    decreases p.len(),
{
    if p.len() == 0 {
        Option::Some(t)
    } else {
        match t {
            SnapNode::Directory { entries } => match snap_find(entries@, p[0]) {
                Option::Some(c) => snap_at(c, p.drop_first()),
                Option::None => Option::None,
            },
            _ => Option::None,
        }
    }
}

} // verus!

