//! The snapshot engine.
//!
//! [`SnapshotProcess::run`] turns a source tree and an optional view of
//! yesterday's snapshot into the plan for today's snapshot. Without a
//! previous snapshot it performs the fresh materialization: every directory,
//! file and symbolic link of the source is mirrored. With one, it performs
//! the reconciling materialization: each source entry is compared against
//! the same-named entry of yesterday's tree, and a file whose SHA-256 digest
//! equals yesterday's becomes a content-identity link instead of a copy.

use vstd::prelude::*;
use vstd::slice::slice_to_vec;

use crate::errors::SnapError;
use crate::hashing::{calculate_hash, bytes_equal, hex_of, sha256_bytes, sha256_of};
use crate::tree::{
    fs_at, fs_count, fs_count_entries, fs_find, lookup_prior, prior_at, prior_lookup, snap_at,
    snap_count, snap_count_entries, snap_find, DirEntry, FsNode, NodeKind, PriorNode, SnapEntry,
    SnapNode,
};

verus! {

/// How a source node relates to its fresh materialization: directories are
/// mirrored entry by entry, file contents are copied whole, and symbolic
/// link targets are recreated verbatim, never dereferenced.
pub open spec fn fresh_matches(s: FsNode, t: SnapNode) -> bool
    decreases s,
{
    match s {
        FsNode::Directory { entries } => match t {
            SnapNode::Directory { entries: ts } => ts@.len() == entries@.len() && (forall|i: int|
                #![trigger ts@[i]]
                0 <= i < entries@.len() ==> ts@[i].name@ == entries@[i].name@ && fresh_matches(
                    entries@[i].node,
                    ts@[i].node,
                )),
            _ => false,
        },
        FsNode::File { content } => match t {
            SnapNode::File { content: tc } => tc@ == content@,
            _ => false,
        },
        FsNode::Symlink { target } => match t {
            SnapNode::Symlink { target: tt } => tt@ == target@,
            _ => false,
        },
    }
}

/// Whether the reconciling materialization of `s` against `y` can run to
/// completion. It fails exactly where a source file must be compared against
/// a yesterday entry that cannot be read as a byte stream: a digest is then
/// unobtainable, which is a hard error, never treated as "different".
pub open spec fn reconcile_ok(s: FsNode, y: Option<PriorNode>) -> bool
    decreases s,
{
    match y {
        Option::None => true,
        Option::Some(yn) => match s {
            FsNode::Directory { entries } => forall|i: int|
                #![trigger entries@[i]]
                0 <= i < entries@.len() ==> reconcile_ok(
                    entries@[i].node,
                    prior_lookup(yn, entries@[i].name@),
                ),
            FsNode::File { .. } => yn is Readable,
            FsNode::Symlink { .. } => true,
        },
    }
}

/// How a source node relates to its reconciling materialization against
/// `y`, the same-named node of yesterday's snapshot, if any.
///
/// A source entry with no yesterday counterpart is materialized fresh.
/// Directories recurse with both sides advancing together; looking a name up
/// under a non-directory yesterday node yields nothing, so such a subtree
/// ends up materialized fresh as well. A file with a readable counterpart
/// becomes a content-identity link when the SHA-256 digests of the two
/// contents agree, and a full copy otherwise. A source symbolic link with a
/// yesterday counterpart is a kind mismatch that content-identity linking
/// does not cover: the explicit policy here is to fall back to fresh
/// materialization, recreating the link by its target string.
pub open spec fn reconcile_matches(s: FsNode, y: Option<PriorNode>, t: SnapNode) -> bool
    decreases s,
{
    match y {
        Option::None => fresh_matches(s, t),
        Option::Some(yn) => match s {
            FsNode::Directory { entries } => match t {
                SnapNode::Directory { entries: ts } => ts@.len() == entries@.len() && (forall|
                    i: int,
                |
                    #![trigger ts@[i]]
                    0 <= i < entries@.len() ==> ts@[i].name@ == entries@[i].name@
                        && reconcile_matches(
                        entries@[i].node,
                        prior_lookup(yn, entries@[i].name@),
                        ts@[i].node,
                    )),
                _ => false,
            },
            FsNode::File { content } => match yn {
                PriorNode::Readable { content: yc } => {
                    if sha256_of(content@) == sha256_of(yc@) {
                        t is ContentLink
                    } else {
                        match t {
                            SnapNode::File { content: tc } => tc@ == content@,
                            _ => false,
                        }
                    }
                },
                // a file against an entry that yields no bytes is the
                // failure `reconcile_ok` rules out; no plan node exists
                // for it, so the relation leaves it unconstrained
                _ => true,
            },
            FsNode::Symlink { target } => match t {
                SnapNode::Symlink { target: tt } => tt@ == target@,
                _ => false,
            },
        },
    }
}

/// The snapshot engine. It is stateless: every run takes all of its roots
/// as explicit parameters.
#[derive(Clone, Copy)]
pub struct SnapshotProcess;

impl Default for SnapshotProcess {
    fn default() -> (r: Self)
        ensures
            r == (SnapshotProcess {}),
    {
        SnapshotProcess {}
    }
}

impl SnapshotProcess {
    /// Builds today's snapshot plan from the source tree and, if a previous
    /// snapshot exists, from what that snapshot holds.
    pub fn run(&self, source: &FsNode, yesterday: Option<&PriorNode>) -> (r: Result<
        SnapNode,
        SnapError,
    >)
        requires
            source is Directory,
        ensures
            match yesterday {
                Option::None => r matches Result::Ok(t) && fresh_matches(*source, t),
                Option::Some(y) => {
                    &&& r is Ok <==> reconcile_ok(*source, Option::Some(*y))
                    &&& (r matches Result::Ok(t) ==> reconcile_matches(
                        *source,
                        Option::Some(*y),
                        t,
                    ))
                    &&& (r is Err ==> r == Result::<SnapNode, SnapError>::Err(
                        SnapError::TaskFailure,
                    ))
                },
            },
    {
        match yesterday {
            Option::None => Result::Ok(self.run_fresh(source)),
            Option::Some(y) => self.run_on_existing(source, y),
        }
    }

    /// The fresh materialization: mirrors the source node without consulting
    /// any previous snapshot.
    #[verifier::loop_isolation(false)]
    pub fn run_fresh(&self, source: &FsNode) -> (r: SnapNode)
        ensures
            fresh_matches(*source, r),
        decreases *source,
    {
        match source {
            FsNode::Directory { entries } => {
                let mut out: Vec<SnapEntry> = Vec::new();
                let mut i: usize = 0;
                while i < entries.len()
                    invariant
                        i <= entries@.len(),
                        out@.len() == i,
                        forall|j: int|
                            #![trigger out@[j]]
                            0 <= j < i ==> out@[j].name@ == entries@[j].name@ && fresh_matches(
                                entries@[j].node,
                                out@[j].node,
                            ),
                    decreases entries@.len() - i,
                {
                    proof {
                        assert(decreases_to!(*source => entries@[i as int].node));
                    }
                    let child = self.run_fresh(&entries[i].node);
                    out.push(SnapEntry { name: entries[i].name.clone(), node: child });
                    i = i + 1;
                }
                SnapNode::Directory { entries: out }
            },
            FsNode::File { content } => SnapNode::File {
                content: slice_to_vec(content.as_slice()),
            },
            FsNode::Symlink { target } => SnapNode::Symlink { target: target.clone() },
        }
    }

    /// The reconciling materialization: mirrors the source node, turning
    /// each file whose content digest equals that of yesterday's same-named
    /// readable entry into a content-identity link.
    #[verifier::loop_isolation(false)]
    pub fn run_on_existing(&self, source: &FsNode, yesterday: &PriorNode) -> (r: Result<
        SnapNode,
        SnapError,
    >)
        requires
            source is Directory,
        ensures
            r is Ok <==> reconcile_ok(*source, Option::Some(*yesterday)),
            r matches Result::Ok(t) ==> reconcile_matches(*source, Option::Some(*yesterday), t),
            r is Err ==> r == Result::<SnapNode, SnapError>::Err(SnapError::TaskFailure),
        decreases *source,
    {
        match source {
            FsNode::Directory { entries } => {
                let mut out: Vec<SnapEntry> = Vec::new();
                let mut i: usize = 0;
                while i < entries.len()
                    invariant
                        i <= entries@.len(),
                        out@.len() == i,
                        forall|j: int|
                            #![trigger out@[j]]
                            0 <= j < i ==> out@[j].name@ == entries@[j].name@
                                && reconcile_matches(
                                entries@[j].node,
                                prior_lookup(*yesterday, entries@[j].name@),
                                out@[j].node,
                            ),
                        forall|j: int|
                            #![trigger entries@[j]]
                            0 <= j < i ==> reconcile_ok(
                                entries@[j].node,
                                prior_lookup(*yesterday, entries@[j].name@),
                            ),
                    decreases entries@.len() - i,
                {
                    let e = &entries[i];
                    let child: SnapNode = match lookup_prior(yesterday, &e.name) {
                        Option::None => self.run_fresh(&e.node),
                        Option::Some(yc) => match &e.node {
                            FsNode::Directory { .. } => {
                                proof {
                                    assert(decreases_to!(*source => entries@[i as int].node));
                                }
                                match self.run_on_existing(&e.node, yc) {
                                    Result::Ok(t) => t,
                                    Result::Err(err) => {
                                        proof {
                                            assert(!reconcile_ok(
                                                entries@[i as int].node,
                                                prior_lookup(*yesterday, entries@[i as int].name@),
                                            ));
                                        }
                                        return Result::Err(err);
                                    },
                                }
                            },
                            FsNode::File { content } => match yc {
                                PriorNode::Readable { content: yc_bytes } => {
                                    if self.same_hash(
                                        content.as_slice(),
                                        yc_bytes.as_slice(),
                                    ) {
                                        SnapNode::ContentLink
                                    } else {
                                        SnapNode::File {
                                            content: slice_to_vec(content.as_slice()),
                                        }
                                    }
                                },
                                _ => {
                                    proof {
                                        assert(!reconcile_ok(
                                            entries@[i as int].node,
                                            prior_lookup(*yesterday, entries@[i as int].name@),
                                        ));
                                    }
                                    return Result::Err(SnapError::TaskFailure);
                                },
                            },
                            FsNode::Symlink { target } => SnapNode::Symlink {
                                target: target.clone(),
                            },
                        },
                    };
                    out.push(SnapEntry { name: e.name.clone(), node: child });
                    i = i + 1;
                }
                Result::Ok(SnapNode::Directory { entries: out })
            },
            _ => vstd::pervasive::unreached(),
        }
    }

    /// Whether two contents are content-equal, decided — as everywhere in
    /// this engine — by comparing their SHA-256 digests, never by size or
    /// timestamp heuristics.
    pub fn same_hash(&self, a: &[u8], b: &[u8]) -> (r: bool)
        ensures
            r == (sha256_of(a@) == sha256_of(b@)),
    {
        let da = sha256_bytes(a);
        let db = sha256_bytes(b);
        bytes_equal(da.as_slice(), db.as_slice())
    }

    /// Digests every content of the batch, read to its end, and returns the
    /// hex digests in input order.
    #[verifier::loop_isolation(false)]
    pub fn calculate_hashes_in_parallel(&self, contents: &Vec<Vec<u8>>) -> (r: Vec<String>)
        ensures
            r@.len() == contents@.len(),
            forall|i: int|
                0 <= i < contents@.len() ==> #[trigger] r@[i]@ == hex_of(
                    sha256_of(contents@[i]@),
                ),
    {
        let mut out: Vec<String> = Vec::new();
        let mut i: usize = 0;
        while i < contents.len()
            invariant
                i <= contents@.len(),
                out@.len() == i,
                forall|j: int|
                    0 <= j < i ==> #[trigger] out@[j]@ == hex_of(sha256_of(contents@[j]@)),
            decreases contents@.len() - i,
        {
            out.push(calculate_hash(contents[i].as_slice()));
            i = i + 1;
        }
        out
    }
}

/// Fresh materialization is complete: for every node kind — directory,
/// regular file, symbolic link — the plan holds exactly as many nodes as
/// the source tree, and `fresh_matches` pins each of them to its source
/// counterpart: contents byte-identical, names and structure matching,
/// link targets equal.
pub proof fn lemma_fresh_counts(s: FsNode, t: SnapNode, k: NodeKind)
    requires
        fresh_matches(s, t),
    ensures
        snap_count(t, k) == fs_count(s, k),
    decreases s,
{
    match s {
        FsNode::Directory { entries } => {
            lemma_fresh_counts_entries(entries@, t->Directory_entries@, k);
        },
        _ => {},
    }
}

proof fn lemma_fresh_counts_entries(es: Seq<DirEntry>, ts: Seq<SnapEntry>, k: NodeKind)
    requires
        ts.len() == es.len(),
        forall|i: int|
            #![trigger ts[i]]
            0 <= i < es.len() ==> fresh_matches(es[i].node, ts[i].node),
    ensures
        snap_count_entries(ts, k) == fs_count_entries(es, k),
    decreases es,
{
    if es.len() > 0 {
        lemma_fresh_counts(es[0].node, ts[0].node, k);
        assert forall|i: int| 0 <= i < es.drop_first().len() implies fresh_matches(
            es.drop_first()[i].node,
            #[trigger] ts.drop_first()[i].node,
        ) by {
            assert(ts.drop_first()[i] == ts[i + 1]);
            assert(es.drop_first()[i] == es[i + 1]);
        }
        lemma_fresh_counts_entries(es.drop_first(), ts.drop_first(), k);
    }
}

/// A source entry that has no counterpart in yesterday's snapshot is
/// materialized fresh — a file among them is copied in full, never turned
/// into a content-identity link — even though yesterday's root exists.
pub proof fn lemma_new_entry_copied_fresh(s: FsNode, y: PriorNode, t: SnapNode, i: int)
    requires
        reconcile_matches(s, Option::Some(y), t),
        s is Directory,
        0 <= i < s->Directory_entries@.len(),
        prior_lookup(y, s->Directory_entries@[i].name@) is None,
    ensures
        t is Directory,
        fresh_matches(s->Directory_entries@[i].node, t->Directory_entries@[i].node),
{
    assert(t->Directory_entries@[i].name@ == s->Directory_entries@[i].name@);
    assert(reconcile_matches(
        s->Directory_entries@[i].node,
        prior_lookup(y, s->Directory_entries@[i].name@),
        t->Directory_entries@[i].node,
    ));
    assert(reconcile_matches(
        s->Directory_entries@[i].node,
        Option::None,
        t->Directory_entries@[i].node,
    ) == fresh_matches(s->Directory_entries@[i].node, t->Directory_entries@[i].node));
}

/// Whenever `snap_find` finds an entry, it is the first one so named.
proof fn lemma_snap_find_index(ts: Seq<SnapEntry>, n: Seq<char>)
    requires
        snap_find(ts, n) is Some,
    ensures
        exists|i: int|
            #![auto]
            0 <= i < ts.len() && ts[i].name@ == n && snap_find(ts, n) == Option::Some(ts[i].node),
    decreases ts.len(),
{
    if ts.len() > 0 {
        if ts[0].name@ == n {
            assert(0 <= 0 < ts.len() && ts[0].name@ == n && snap_find(ts, n) == Option::Some(
                ts[0].node,
            ));
        } else {
            lemma_snap_find_index(ts.drop_first(), n);
            let i = choose|i: int|
                #![auto]
                0 <= i < ts.drop_first().len() && ts.drop_first()[i].name@ == n && snap_find(
                    ts.drop_first(),
                    n,
                ) == Option::Some(ts.drop_first()[i].node);
            assert(ts.drop_first()[i] == ts[i + 1]);
            assert(0 <= i + 1 < ts.len() && ts[i + 1].name@ == n && snap_find(ts, n)
                == Option::Some(ts[i + 1].node));
        }
    }
}

/// In two entry sequences whose names agree position by position, looking a
/// name up finds the same position on both sides.
proof fn lemma_find_aligned(es: Seq<DirEntry>, ts: Seq<SnapEntry>, n: Seq<char>)
    requires
        ts.len() == es.len(),
        forall|i: int| #![trigger ts[i]] 0 <= i < es.len() ==> ts[i].name@ == es[i].name@,
    ensures
        snap_find(ts, n) is Some ==> exists|i: int|
            #![auto]
            0 <= i < es.len() && es[i].name@ == n && fs_find(es, n) == Option::Some(es[i].node)
                && snap_find(ts, n) == Option::Some(ts[i].node),
    decreases es.len(),
{
    if es.len() > 0 {
        if ts[0].name@ == n {
            assert(es[0].name@ == n);
        } else {
            assert forall|i: int| 0 <= i < es.drop_first().len() implies #[trigger] ts
                .drop_first()[i].name@ == es.drop_first()[i].name@ by {
                assert(ts.drop_first()[i] == ts[i + 1]);
                assert(es.drop_first()[i] == es[i + 1]);
            }
            lemma_find_aligned(es.drop_first(), ts.drop_first(), n);
            if snap_find(ts, n) is Some {
                let i = choose|i: int|
                    #![auto]
                    0 <= i < es.drop_first().len() && es.drop_first()[i].name@ == n && fs_find(
                        es.drop_first(),
                        n,
                    ) == Option::Some(es.drop_first()[i].node) && snap_find(ts.drop_first(), n)
                        == Option::Some(ts.drop_first()[i].node);
                assert(ts.drop_first()[i] == ts[i + 1]);
                assert(es.drop_first()[i] == es[i + 1]);
                assert(0 <= i + 1 < es.len() && es[i + 1].name@ == n && fs_find(es, n)
                    == Option::Some(es[i + 1].node) && snap_find(ts, n) == Option::Some(
                    ts[i + 1].node,
                ));
            }
        }
    }
}

/// A fresh materialization holds no content-identity link anywhere.
pub proof fn lemma_fresh_no_content_link(s: FsNode, t: SnapNode, p: Seq<Seq<char>>)
    requires
        fresh_matches(s, t),
    ensures
        snap_at(t, p) != Option::Some(SnapNode::ContentLink),
    decreases p.len(),
{
    if p.len() > 0 {
        match t {
            SnapNode::Directory { entries: ts } => {
                if snap_find(ts@, p[0]) is Some {
                    lemma_snap_find_index(ts@, p[0]);
                    let i = choose|i: int|
                        #![auto]
                        0 <= i < ts@.len() && ts@[i].name@ == p[0] && snap_find(ts@, p[0])
                            == Option::Some(ts@[i].node);
                    assert(fresh_matches(s->Directory_entries@[i].node, ts@[i].node));
                    lemma_fresh_no_content_link(
                        s->Directory_entries@[i].node,
                        ts@[i].node,
                        p.drop_first(),
                    );
                }
            },
            _ => {},
        }
    }
}

/// The round trip behind every content-identity link: wherever the
/// reconciled plan holds such a link, the source holds a regular file at
/// that very path, yesterday's snapshot holds a readable entry there — the
/// bytes the link resolves to — and the SHA-256 digests of the two contents
/// are equal. Reading the link back therefore yields bytes whose digest
/// equals the digest of the source file's content.
pub proof fn lemma_round_trip_digests(s: FsNode, y: PriorNode, t: SnapNode, p: Seq<Seq<char>>)
    requires
        reconcile_matches(s, Option::Some(y), t),
        reconcile_ok(s, Option::Some(y)),
        snap_at(t, p) == Option::Some(SnapNode::ContentLink),
    ensures
        ({
            &&& fs_at(s, p) matches Option::Some(sf)
            &&& sf matches FsNode::File { content: c }
            &&& prior_at(y, p) matches Option::Some(yn)
            &&& yn matches PriorNode::Readable { content: yc }
            &&& sha256_of(c@) == sha256_of(yc@)
        }),
    decreases p.len(),
{
    if p.len() == 0 {
        // the link sits at the root of the compared subtrees: only the
        // file-against-readable-entry case of the relation produces one
    } else {
        let es = s->Directory_entries@;
        let ts = t->Directory_entries@;
        assert forall|i: int| 0 <= i < es.len() implies #[trigger] ts[i].name@
            == es[i].name@ by {}
        lemma_find_aligned(es, ts, p[0]);
        let i = choose|i: int|
            #![auto]
            0 <= i < es.len() && es[i].name@ == p[0] && fs_find(es, p[0]) == Option::Some(
                es[i].node,
            ) && snap_find(ts, p[0]) == Option::Some(ts[i].node);
        assert(reconcile_matches(es[i].node, prior_lookup(y, es[i].name@), ts[i].node));
        assert(reconcile_ok(es[i].node, prior_lookup(y, es[i].name@)));
        match prior_lookup(y, p[0]) {
            Option::None => {
                lemma_fresh_no_content_link(es[i].node, ts[i].node, p.drop_first());
            },
            Option::Some(yc) => {
                lemma_round_trip_digests(es[i].node, yc, ts[i].node, p.drop_first());
            },
        }
    }
}

} // verus!
