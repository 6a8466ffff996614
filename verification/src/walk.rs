//! The walker: from a snapshot of a directory tree and the rules of a
//! location to the entries that are indexed, parents before children.
//!
//! The walk goes depth first. A directory is decided on before anything
//! below it is looked at; one that is left out is left out with its whole
//! subtree. The walker never writes anywhere.

use crate::error::IndexerError;
use crate::file_path::{
    child_materialized, child_path, join_path, root_materialized, MaterializedPath,
};
use crate::indexer::{EntryView, IndexerJobStepEntry};
use crate::rules::{
    accepted_by_globs, children_pass, directory_descends, file_included, rejected_by_glob,
    Decision, DirectoryDecision, RuleSet, RuleSetView,
};
use vstd::prelude::*;
use vstd::string::*;

verus! {

/// A file or a directory as it was found on disk, with what it holds.
#[derive(Debug)]
pub struct FsNode {
    /// The last component of the path.
    pub name: String,
    pub is_dir: bool,
    /// Milliseconds since the epoch.
    pub created_at: i64,
    /// What a directory holds, in the order in which it is walked.
    pub children: Vec<FsNode>,
}

/// The names of the directories among `children`, in order.
pub open spec fn child_dir_names(children: Seq<FsNode>) -> Seq<Seq<char>>
    decreases children.len(),
{
    if children.len() == 0 {
        Seq::empty()
    } else {
        let before = child_dir_names(children.drop_last());
        if children.last().is_dir {
            before.push(children.last().name@)
        } else {
            before
        }
    }
}

/// What the walk knows of the directory it is in.
pub struct WalkFrame {
    pub location_id: int,
    /// Full path of the directory.
    pub dir_path: Seq<char>,
    /// Materialized path of the directory; empty for the root.
    pub prefix: Seq<char>,
    /// Id of the directory's own entry.
    pub parent: Option<int>,
}

/// The entry of `node`, found in the directory of `frame` and given `id`.
pub open spec fn entry_of(frame: WalkFrame, node: FsNode, id: int) -> EntryView {
    EntryView {
        full_path: child_path(frame.dir_path, node.name@),
        materialized_path: child_materialized(
            frame.location_id,
            frame.prefix,
            node.name@,
            node.is_dir,
        ),
        created_at: node.created_at as int,
        file_id: id,
        parent_id: frame.parent,
    }
}

/// Whether the rules keep `node`: a file by the globs, a directory by the
/// reject globs and by what the probe of its children finds.
pub open spec fn node_kept(rules: RuleSetView, frame: WalkFrame, node: FsNode) -> bool {
    let path = child_path(frame.dir_path, node.name@);
    if node.is_dir {
        directory_descends(rules, path, child_dir_names(node.children@))
    } else {
        file_included(rules, path)
    }
}

/// The frame for what the directory `node` holds, once `node` has the id
/// `id`.
pub open spec fn frame_inside(frame: WalkFrame, node: FsNode, id: int) -> WalkFrame {
    WalkFrame {
        location_id: frame.location_id,
        dir_path: child_path(frame.dir_path, node.name@),
        prefix: child_materialized(frame.location_id, frame.prefix, node.name@, true)
            .materialized_path,
        parent: Some(id),
    }
}

/// The entries of the subtree of `node`, ids counted from `id`: nothing if
/// the rules do not keep `node`; else its own entry and, for a directory,
/// the entries of what it holds.
pub open spec fn walk_node(rules: RuleSetView, frame: WalkFrame, node: FsNode, id: int) -> Seq<
    EntryView,
>
    decreases node, node.children@.len() + 1,
{
    if !node_kept(rules, frame, node) {
        Seq::empty()
    } else if node.is_dir {
        seq![entry_of(frame, node, id)] + walk_children(
            rules,
            frame_inside(frame, node, id),
            node,
            0,
            id + 1,
        )
    } else {
        seq![entry_of(frame, node, id)]
    }
}

/// The entries of the subtrees of the children of `dir` from the place
/// `from` on, ids counted from `id`.
pub open spec fn walk_children(
    rules: RuleSetView,
    frame: WalkFrame,
    dir: FsNode,
    from: int,
    id: int,
) -> Seq<EntryView>
    decreases dir, dir.children@.len() - from,
{
    if from < 0 || from >= dir.children@.len() {
        Seq::empty()
    } else {
        let first = walk_node(rules, frame, dir.children@[from], id);
        first + walk_children(rules, frame, dir, from + 1, id + first.len())
    }
}

/// The entry of the root of a location.
pub open spec fn root_entry(location_id: int, root_path: Seq<char>, root: FsNode, id: int) -> EntryView {
    EntryView {
        full_path: root_path,
        materialized_path: root_materialized(location_id, root.name@),
        created_at: root.created_at as int,
        file_id: id,
        parent_id: None,
    }
}

/// The frame for what the root of a location holds.
pub open spec fn root_frame(location_id: int, root_path: Seq<char>, id: int) -> WalkFrame {
    WalkFrame { location_id, dir_path: root_path, prefix: Seq::empty(), parent: Some(id) }
}

/// The entries of a full scan: the root, then everything below it that the
/// rules keep.
pub open spec fn walk_location(
    rules: RuleSetView,
    location_id: int,
    root_path: Seq<char>,
    root: FsNode,
    first_id: int,
) -> Seq<EntryView> {
    seq![root_entry(location_id, root_path, root, first_id)] + walk_children(
        rules,
        root_frame(location_id, root_path, first_id),
        root,
        0,
        first_id + 1,
    )
}

/// Whether the rules allow an entry: no reject glob matches its path, and
/// if it is a file every accept glob does.
pub open spec fn entry_allowed(rules: RuleSetView, entry: EntryView) -> bool {
    &&& !rejected_by_glob(rules, entry.full_path)
    &&& entry.materialized_path.is_dir || accepted_by_globs(rules, entry.full_path)
}

/// Whether the entries carry the ids `id`, `id + 1`, ... in order, and each
/// names as its parent either `outer` or a directory that comes before it.
pub open spec fn well_linked(entries: Seq<EntryView>, id: int, outer: Option<int>) -> bool {
    forall|k: int|
        0 <= k < entries.len() ==> {
            &&& (#[trigger] entries[k]).file_id == id + k
            &&& entries[k].parent_id == outer || (entries[k].parent_id matches Some(p) && id <= p
                < id + k && entries[p - id].materialized_path.is_dir)
        }
}

/// No entry that a reject rule excludes is ever emitted, and no file that
/// an accept rule does not match: every entry of a subtree is allowed by
/// the rules.
pub proof fn lemma_walk_node_allowed(rules: RuleSetView, frame: WalkFrame, node: FsNode, id: int)
    ensures
        forall|k: int|
            0 <= k < walk_node(rules, frame, node, id).len() ==> entry_allowed(
                rules,
                #[trigger] walk_node(rules, frame, node, id)[k],
            ),
    decreases node, node.children@.len() + 1,
{
    if node_kept(rules, frame, node) && node.is_dir {
        let below = walk_children(rules, frame_inside(frame, node, id), node, 0, id + 1);
        lemma_walk_children_allowed(rules, frame_inside(frame, node, id), node, 0, id + 1);
        let all = walk_node(rules, frame, node, id);
        assert forall|k: int| 0 <= k < all.len() implies entry_allowed(rules, #[trigger] all[k]) by {
            if k > 0 {
                assert(all[k] == below[k - 1]);
            }
        }
    }
}

/// Every entry below a directory is allowed by the rules.
pub proof fn lemma_walk_children_allowed(
    rules: RuleSetView,
    frame: WalkFrame,
    dir: FsNode,
    from: int,
    id: int,
)
    ensures
        forall|k: int|
            0 <= k < walk_children(rules, frame, dir, from, id).len() ==> entry_allowed(
                rules,
                #[trigger] walk_children(rules, frame, dir, from, id)[k],
            ),
    decreases dir, dir.children@.len() - from,
{
    if 0 <= from < dir.children@.len() {
        let first = walk_node(rules, frame, dir.children@[from], id);
        let rest = walk_children(rules, frame, dir, from + 1, id + first.len());
        lemma_walk_node_allowed(rules, frame, dir.children@[from], id);
        lemma_walk_children_allowed(rules, frame, dir, from + 1, id + first.len());
        let all = walk_children(rules, frame, dir, from, id);
        assert forall|k: int| 0 <= k < all.len() implies entry_allowed(rules, #[trigger] all[k]) by {
            if k < first.len() {
                assert(all[k] == first[k]);
            } else {
                assert(all[k] == rest[k - first.len()]);
            }
        }
    }
}

/// A directory that the rules on children prune yields no entry: neither
/// its own nor one of anything below it.
pub proof fn lemma_pruned_directory_yields_nothing(
    rules: RuleSetView,
    frame: WalkFrame,
    node: FsNode,
    id: int,
)
    requires
        node.is_dir,
        !children_pass(rules, child_dir_names(node.children@)),
    ensures
        walk_node(rules, frame, node, id).len() == 0,
{
}

/// A path that a reject rule matches yields no entry, and if it is a
/// directory nothing below it does.
pub proof fn lemma_rejected_path_yields_nothing(
    rules: RuleSetView,
    frame: WalkFrame,
    node: FsNode,
    id: int,
)
    requires
        rejected_by_glob(rules, child_path(frame.dir_path, node.name@)),
    ensures
        walk_node(rules, frame, node, id).len() == 0,
{
}

/// Whether two snapshots of a subtree of the directory at `dir_path` are
/// the same wherever the rules look: the two nodes are the same, the rules
/// decide alike on them, and if they keep a directory, what it holds is the
/// same in this sense too. Below a directory that is left out the two may
/// differ in any way.
pub open spec fn same_where_kept(rules: RuleSetView, dir_path: Seq<char>, a: FsNode, b: FsNode) -> bool
    decreases a, a.children@.len() + 1,
{
    let frame = WalkFrame { location_id: 0, dir_path, prefix: Seq::empty(), parent: None };
    &&& a.name@ == b.name@
    &&& a.is_dir == b.is_dir
    &&& a.created_at == b.created_at
    &&& node_kept(rules, frame, a) == node_kept(rules, frame, b)
    &&& a.is_dir && node_kept(rules, frame, a) ==> a.children@.len() == b.children@.len()
        && same_children_where_kept(rules, child_path(dir_path, a.name@), a, b, 0)
}

/// Whether the children of two directories from the place `from` on are the
/// same wherever the rules look.
pub open spec fn same_children_where_kept(
    rules: RuleSetView,
    dir_path: Seq<char>,
    a: FsNode,
    b: FsNode,
    from: int,
) -> bool
    decreases a, a.children@.len() - from,
{
    if from < 0 || from >= a.children@.len() {
        true
    } else {
        same_where_kept(rules, dir_path, a.children@[from], b.children@[from])
            && same_children_where_kept(rules, dir_path, a, b, from + 1)
    }
}

/// What lies below a directory that is left out never matters: two
/// snapshots that are the same wherever the rules look yield the same
/// entries. So whoever reads the disk need not read below a directory that
/// the rules leave out.
pub proof fn lemma_walk_ignores_what_is_left_out(
    rules: RuleSetView,
    frame: WalkFrame,
    a: FsNode,
    b: FsNode,
    id: int,
)
    requires
        same_where_kept(rules, frame.dir_path, a, b),
    ensures
        walk_node(rules, frame, a, id) == walk_node(rules, frame, b, id),
    decreases a, a.children@.len() + 1,
{
    if node_kept(rules, frame, a) && a.is_dir {
        let inner_a = frame_inside(frame, a, id);
        let inner_b = frame_inside(frame, b, id);
        assert(inner_a == inner_b);
        lemma_walk_children_ignore_what_is_left_out(rules, inner_a, a, b, 0, id + 1);
    }
}

/// Directories that hold the same wherever the rules look yield the same
/// entries.
pub proof fn lemma_walk_children_ignore_what_is_left_out(
    rules: RuleSetView,
    frame: WalkFrame,
    a: FsNode,
    b: FsNode,
    from: int,
    id: int,
)
    requires
        a.children@.len() == b.children@.len(),
        same_children_where_kept(rules, frame.dir_path, a, b, from),
    ensures
        walk_children(rules, frame, a, from, id) == walk_children(rules, frame, b, from, id),
    decreases a, a.children@.len() - from,
{
    if 0 <= from < a.children@.len() {
        lemma_walk_ignores_what_is_left_out(rules, frame, a.children@[from], b.children@[from], id);
        let first = walk_node(rules, frame, a.children@[from], id);
        lemma_walk_children_ignore_what_is_left_out(rules, frame, a, b, from + 1, id + first.len());
    }
}

/// Ids are given in walk order, and every entry of a subtree names as its
/// parent the directory it was found in, which comes before it.
pub proof fn lemma_walk_node_linked(rules: RuleSetView, frame: WalkFrame, node: FsNode, id: int)
    ensures
        well_linked(walk_node(rules, frame, node, id), id, frame.parent),
    decreases node, node.children@.len() + 1,
{
    if node_kept(rules, frame, node) && node.is_dir {
        let inner = frame_inside(frame, node, id);
        let below = walk_children(rules, inner, node, 0, id + 1);
        lemma_walk_children_linked(rules, inner, node, 0, id + 1);
        let all = walk_node(rules, frame, node, id);
        assert forall|k: int| 0 <= k < all.len() implies {
            &&& (#[trigger] all[k]).file_id == id + k
            &&& all[k].parent_id == frame.parent || (all[k].parent_id matches Some(p) && id <= p
                < id + k && all[p - id].materialized_path.is_dir)
        } by {
            if k > 0 {
                assert(all[k] == below[k - 1]);
                if below[k - 1].parent_id == Some(id) {
                    assert(all[0].materialized_path.is_dir);
                } else {
                    let p = below[k - 1].parent_id->0;
                    assert(all[p - id] == below[p - (id + 1)]);
                }
            }
        }
    }
}

/// Ids are given in walk order, and every entry below a directory names as
/// its parent that directory or one that comes before it.
pub proof fn lemma_walk_children_linked(
    rules: RuleSetView,
    frame: WalkFrame,
    dir: FsNode,
    from: int,
    id: int,
)
    ensures
        well_linked(walk_children(rules, frame, dir, from, id), id, frame.parent),
    decreases dir, dir.children@.len() - from,
{
    if 0 <= from < dir.children@.len() {
        let first = walk_node(rules, frame, dir.children@[from], id);
        let rest = walk_children(rules, frame, dir, from + 1, id + first.len());
        lemma_walk_node_linked(rules, frame, dir.children@[from], id);
        lemma_walk_children_linked(rules, frame, dir, from + 1, id + first.len());
        let all = walk_children(rules, frame, dir, from, id);
        assert forall|k: int| 0 <= k < all.len() implies {
            &&& (#[trigger] all[k]).file_id == id + k
            &&& all[k].parent_id == frame.parent || (all[k].parent_id matches Some(p) && id <= p
                < id + k && all[p - id].materialized_path.is_dir)
        } by {
            if k < first.len() {
                assert(all[k] == first[k]);
                if first[k].parent_id != frame.parent {
                    let p = first[k].parent_id->0;
                    assert(all[p - id] == first[p - id]);
                }
            } else {
                let j = k - first.len();
                assert(all[k] == rest[j]);
                if rest[j].parent_id != frame.parent {
                    let p = rest[j].parent_id->0;
                    assert(all[p - id] == rest[p - (id + first.len())]);
                }
            }
        }
    }
}

/// Of a full scan: every entry but the root is allowed by the rules, ids
/// are given in walk order from the root on, the root alone has no parent,
/// and every other entry names a directory that comes before it.
pub proof fn lemma_walk_location(
    rules: RuleSetView,
    location_id: int,
    root_path: Seq<char>,
    root: FsNode,
    first_id: int,
)
    ensures
        ({
            let all = walk_location(rules, location_id, root_path, root, first_id);
            &&& all.len() >= 1
            &&& all[0] == root_entry(location_id, root_path, root, first_id)
            &&& forall|k: int| 1 <= k < all.len() ==> entry_allowed(rules, #[trigger] all[k])
            &&& forall|k: int| 0 <= k < all.len() ==> (#[trigger] all[k]).file_id == first_id + k
            &&& forall|k: int|
                1 <= k < all.len() ==> ((#[trigger] all[k]).parent_id matches Some(p) && first_id
                    <= p < first_id + k && all[p - first_id].materialized_path.is_dir)
        }),
{
    let frame = root_frame(location_id, root_path, first_id);
    let below = walk_children(rules, frame, root, 0, first_id + 1);
    let all = walk_location(rules, location_id, root_path, root, first_id);
    lemma_walk_children_allowed(rules, frame, root, 0, first_id + 1);
    lemma_walk_children_linked(rules, frame, root, 0, first_id + 1);
    assert forall|k: int| 1 <= k < all.len() implies entry_allowed(rules, #[trigger] all[k]) by {
        assert(all[k] == below[k - 1]);
    }
    assert forall|k: int| 0 <= k < all.len() implies (#[trigger] all[k]).file_id == first_id
        + k by {
        if k > 0 {
            assert(all[k] == below[k - 1]);
        }
    }
    assert forall|k: int| 1 <= k < all.len() implies ((#[trigger] all[k]).parent_id matches Some(p)
        && first_id <= p < first_id + k && all[p - first_id].materialized_path.is_dir) by {
        assert(all[k] == below[k - 1]);
        if below[k - 1].parent_id != Some(first_id) {
            let p = below[k - 1].parent_id->0;
            assert(all[p - first_id] == below[p - (first_id + 1)]);
        }
    }
}

fn collect_child_dir_names(children: &Vec<FsNode>) -> (r: Vec<String>)
    ensures
        r.deep_view() == child_dir_names(children@),
{
    let mut names: Vec<String> = Vec::new();
    let mut i: usize = 0;
    while i < children.len()
        invariant
            i <= children.len(),
            names.deep_view() =~= child_dir_names(children@.take(i as int)),
        decreases children.len() - i,
    {
        let ghost before = names.deep_view();
        assert(children@.take(i + 1).drop_last() =~= children@.take(i as int));
        assert(children@.take(i + 1).last() == children@[i as int]);
        if children[i].is_dir {
            names.push(children[i].name.clone());
            assert(names.deep_view() =~= before.push(children@[i as int].name@));
        }
        i = i + 1;
    }
    assert(children@.take(children.len() as int) =~= children@);
    names
}

/// Whether `e` is the error of a walk that needs more ids than there are.
pub open spec fn is_ids_exhausted(e: IndexerError) -> bool {
    e matches IndexerError::FilePathError(m) && m@ == "no id is left for another path"@
}

fn ids_exhausted() -> (r: IndexerError)
    ensures
        is_ids_exhausted(r),
{
    IndexerError::FilePathError(String::from_str("no id is left for another path"))
}

fn walk_into(
    rules: &RuleSet,
    location_id: i32,
    dir_path: &str,
    prefix: &str,
    parent: Option<i32>,
    node: &FsNode,
    id: i64,
    out: &mut Vec<IndexerJobStepEntry>,
) -> (r: Result<i64, IndexerError>)
    requires
        i32::MIN <= id <= i32::MAX + 1,
    ensures
        ({
            let frame = WalkFrame {
                location_id: location_id as int,
                dir_path: dir_path@,
                prefix: prefix@,
                parent: crate::sync::opt_int(parent),
            };
            let found = walk_node(rules@, frame, *node, id as int);
            match r {
                Ok(next) => next == id + found.len() && next <= i32::MAX + 1 && final(out).deep_view() == old(out).deep_view() + found,
                Err(e) => id + found.len() > i32::MAX + 1 && is_ids_exhausted(e),
            }
        }),
    decreases node,
{
    let ghost frame = WalkFrame {
        location_id: location_id as int,
        dir_path: dir_path@,
        prefix: prefix@,
        parent: crate::sync::opt_int(parent),
    };
    let ghost start = out.deep_view();
    let path = join_path(dir_path, node.name.as_str());
    if node.is_dir {
        let names = collect_child_dir_names(&node.children);
        let probe_result = rules.probe_children(&names);
        match rules.decide_directory(path.as_str(), probe_result) {
            DirectoryDecision::ExcludePrune => {
                assert(out.deep_view() =~= start + Seq::<EntryView>::empty());
                Ok(id)
            },
            DirectoryDecision::IncludeDescend => {
                let ghost inner = frame_inside(frame, *node, id as int);
                let ghost own = entry_of(frame, *node, id as int);
                let ghost below = walk_children(rules@, inner, *node, 0, id + 1);
                if id > i32::MAX as i64 {
                    return Err(ids_exhausted());
                }
                let own_id = id as i32;
                let materialized_path = MaterializedPath::child(
                    location_id,
                    prefix,
                    node.name.as_str(),
                    true,
                );
                let inner_prefix = materialized_path.materialized_path.clone();
                let entry = IndexerJobStepEntry {
                    full_path: path.clone(),
                    materialized_path,
                    created_at: node.created_at,
                    file_id: own_id,
                    parent_id: parent,
                };
                assert(entry@ == own);
                out.push(entry);
                assert(out.deep_view() =~= start.push(own));
                assert(walk_node(rules@, frame, *node, id as int) == seq![own] + below);
                let mut next: i64 = id + 1;
                let ghost mut done: Seq<EntryView> = Seq::empty();
                let mut i: usize = 0;
                while i < node.children.len()
                    invariant
                        i <= node.children.len(),
                        i32::MIN <= next <= i32::MAX + 1,
                        next == id + 1 + done.len(),
                        frame == (WalkFrame {
                            location_id: location_id as int,
                            dir_path: dir_path@,
                            prefix: prefix@,
                            parent: crate::sync::opt_int(parent),
                        }),
                        walk_node(rules@, frame, *node, id as int) == seq![own] + below,
                        out.deep_view() == start.push(own) + done,
                        below == done + walk_children(rules@, inner, *node, i as int, next as int),
                        inner == frame_inside(frame, *node, id as int),
                        frame.location_id == location_id,
                        inner.dir_path == path@,
                        inner.prefix == inner_prefix@,
                        inner.parent == Some(own_id as int),
                    decreases node.children.len() - i,
                {
                    let ghost first = walk_node(rules@, inner, node.children@[i as int], next as int);
                    let ghost rest = walk_children(
                        rules@,
                        inner,
                        *node,
                        i + 1,
                        next + first.len(),
                    );
                    let ghost before = out.deep_view();
                    assert(walk_children(rules@, inner, *node, i as int, next as int) == first
                        + rest);
                    match walk_into(
                        rules,
                        location_id,
                        path.as_str(),
                        inner_prefix.as_str(),
                        Some(own_id),
                        &node.children[i],
                        next,
                        out,
                    ) {
                        Ok(after) => {
                            next = after;
                        },
                        Err(e) => {
                            assert(below.len() == done.len() + first.len() + rest.len());
                            return Err(e);
                        },
                    }
                    proof {
                        assert(out.deep_view() =~= start.push(own) + (done + first));
                        assert(below =~= (done + first) + rest);
                        done = done + first;
                    }
                    i = i + 1;
                }
                proof {
                    assert(below =~= done);
                    assert(out.deep_view() =~= start + (seq![own] + below));
                }
                Ok(next)
            },
        }
    } else {
        match rules.evaluate(path.as_str()) {
            Decision::Exclude => {
                assert(out.deep_view() =~= start + Seq::<EntryView>::empty());
                Ok(id)
            },
            Decision::Include => {
                if id > i32::MAX as i64 {
                    return Err(ids_exhausted());
                }
                let entry = IndexerJobStepEntry {
                    full_path: path,
                    materialized_path: MaterializedPath::child(
                        location_id,
                        prefix,
                        node.name.as_str(),
                        false,
                    ),
                    created_at: node.created_at,
                    file_id: id as i32,
                    parent_id: parent,
                };
                assert(entry@ == entry_of(frame, *node, id as int));
                out.push(entry);
                assert(out.deep_view() =~= start + seq![entry_of(frame, *node, id as int)]);
                Ok(id + 1)
            },
        }
    }
}

fn walk_below(
    rules: &RuleSet,
    location_id: i32,
    dir_path: &str,
    prefix: &str,
    dir_id: i32,
    dir: &FsNode,
    id: i64,
    out: &mut Vec<IndexerJobStepEntry>,
) -> (r: Result<i64, IndexerError>)
    requires
        i32::MIN <= id <= i32::MAX + 1,
    ensures
        ({
            let frame = WalkFrame {
                location_id: location_id as int,
                dir_path: dir_path@,
                prefix: prefix@,
                parent: Some(dir_id as int),
            };
            let found = walk_children(rules@, frame, *dir, 0, id as int);
            match r {
                Ok(next) => next == id + found.len() && next <= i32::MAX + 1 && final(out).deep_view() == old(out).deep_view() + found,
                Err(e) => id + found.len() > i32::MAX + 1 && is_ids_exhausted(e),
            }
        }),
{
    let ghost frame = WalkFrame {
        location_id: location_id as int,
        dir_path: dir_path@,
        prefix: prefix@,
        parent: Some(dir_id as int),
    };
    let ghost start = out.deep_view();
    let ghost below = walk_children(rules@, frame, *dir, 0, id as int);
    let mut next: i64 = id;
    let ghost mut done: Seq<EntryView> = Seq::empty();
    let mut i: usize = 0;
    assert(out.deep_view() =~= start + done);
    while i < dir.children.len()
        invariant
            i <= dir.children.len(),
            i32::MIN <= next <= i32::MAX + 1,
            next == id + done.len(),
            below == walk_children(rules@, frame, *dir, 0, id as int),
            out.deep_view() == start + done,
            below == done + walk_children(rules@, frame, *dir, i as int, next as int),
            frame == (WalkFrame {
                location_id: location_id as int,
                dir_path: dir_path@,
                prefix: prefix@,
                parent: Some(dir_id as int),
            }),
        decreases dir.children.len() - i,
    {
        let ghost first = walk_node(rules@, frame, dir.children@[i as int], next as int);
        let ghost rest = walk_children(rules@, frame, *dir, i + 1, next + first.len());
        assert(walk_children(rules@, frame, *dir, i as int, next as int) == first + rest);
        match walk_into(
            rules,
            location_id,
            dir_path,
            prefix,
            Some(dir_id),
            &dir.children[i],
            next,
            out,
        ) {
            Ok(after) => {
                next = after;
            },
            Err(e) => {
                assert(below.len() == done.len() + first.len() + rest.len());
                return Err(e);
            },
        }
        proof {
            assert(out.deep_view() =~= start + (done + first));
            assert(below =~= (done + first) + rest);
            done = done + first;
        }
        i = i + 1;
    }
    proof {
        assert(below =~= done);
    }
    Ok(next)
}

/// Walks a whole location. The entries come back in walk order: the root
/// first, with the id `first_id` and no parent, then everything below it
/// that the rules keep, every directory before what it holds. The walk fails
/// only where it would need an id beyond the largest there is.
pub fn walk(rules: &RuleSet, location_id: i32, root_path: &str, root: &FsNode, first_id: i32) -> (r:
    Result<Vec<IndexerJobStepEntry>, IndexerError>)
    ensures
        ({
            let found = walk_location(
                rules@,
                location_id as int,
                root_path@,
                *root,
                first_id as int,
            );
            match r {
                Ok(entries) => entries.deep_view() == found && first_id + found.len() <= i32::MAX
                    + 1,
                Err(e) => first_id + found.len() > i32::MAX + 1 && is_ids_exhausted(e),
            }
        }),
{
    let mut out: Vec<IndexerJobStepEntry> = Vec::new();
    let entry = IndexerJobStepEntry {
        full_path: String::from_str(root_path),
        materialized_path: MaterializedPath::root(location_id, root.name.as_str()),
        created_at: root.created_at,
        file_id: first_id,
        parent_id: None,
    };
    let ghost own = root_entry(location_id as int, root_path@, *root, first_id as int);
    assert(entry@ == own);
    out.push(entry);
    assert(out.deep_view() =~= seq![own]);
    proof {
        reveal_strlit("");
        assert(""@ =~= Seq::<char>::empty());
    }
    match walk_below(rules, location_id, root_path, "", first_id, root, first_id as i64 + 1, &mut out) {
        Ok(_) => Ok(out),
        Err(e) => Err(e),
    }
}

/// The entries of a scan of what lies below one directory of a location.
/// The directory itself has a row already, with the id `dir_id`, and is not
/// among them.
pub open spec fn walk_sub_path(
    rules: RuleSetView,
    location_id: int,
    dir_path: Seq<char>,
    dir_materialized_path: Seq<char>,
    dir_id: int,
    dir: FsNode,
    first_id: int,
) -> Seq<EntryView> {
    walk_children(
        rules,
        WalkFrame {
            location_id,
            dir_path,
            prefix: dir_materialized_path,
            parent: Some(dir_id),
        },
        dir,
        0,
        first_id,
    )
}

/// Walks what lies below one directory of a location, which has the row
/// `dir_id` and the materialized path `dir_materialized_path` already. The
/// entries come back in walk order, ids counted from `first_id`.
pub fn walk_from(
    rules: &RuleSet,
    location_id: i32,
    dir_path: &str,
    dir_materialized_path: &str,
    dir_id: i32,
    dir: &FsNode,
    first_id: i32,
) -> (r: Result<Vec<IndexerJobStepEntry>, IndexerError>)
    ensures
        ({
            let found = walk_sub_path(
                rules@,
                location_id as int,
                dir_path@,
                dir_materialized_path@,
                dir_id as int,
                *dir,
                first_id as int,
            );
            match r {
                Ok(entries) => entries.deep_view() == found && first_id + found.len() <= i32::MAX
                    + 1,
                Err(e) => first_id + found.len() > i32::MAX + 1 && is_ids_exhausted(e),
            }
        }),
{
    let mut out: Vec<IndexerJobStepEntry> = Vec::new();
    assert(out.deep_view() =~= Seq::<EntryView>::empty());
    match walk_below(
        rules,
        location_id,
        dir_path,
        dir_materialized_path,
        dir_id,
        dir,
        first_id as i64,
        &mut out,
    ) {
        Ok(_) => {
            assert(out.deep_view() =~= walk_sub_path(
                rules@,
                location_id as int,
                dir_path@,
                dir_materialized_path@,
                dir_id as int,
                *dir,
                first_id as int,
            ));
            Ok(out)
        },
        Err(e) => Err(e),
    }
}

} // verus!
