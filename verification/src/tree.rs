//! A model of the directory tree under the extraction root, and what the
//! plan of an archive does to it. The model records what stands at each
//! path; it is the ground on which the laws of installation are stated:
//! skipped entries change nothing, nothing is written but at enclosed paths,
//! and installing twice is installing once.

use vstd::prelude::*;

use crate::install::{
    extraction_plan, lemma_plan_step, plan_upto, step_for, ArchiveEntryView, ExtractStepView,
};

verus! {

/// An entry as an archive stores it: what the installer decides on, and the
/// bytes that the entry holds.
pub struct StoredEntry {
    pub entry: ArchiveEntryView,
    pub content: Seq<u8>,
}

/// What stands at a path of a directory tree: a directory, or a file with
/// its bytes.
pub enum Node {
    Directory,
    File { content: Seq<u8> },
}

/// One change of a tree: `node` is put at `path`, replacing what stood there.
pub struct Write {
    pub path: Seq<char>,
    pub node: Node,
}

/// A directory tree: what stands at each path.
pub type Tree = Map<Seq<char>, Node>;

/// What the installer sees of the stored entries, in archive order.
pub open spec fn listing(stored: Seq<StoredEntry>) -> Seq<ArchiveEntryView> {
    stored.map_values(|s: StoredEntry| s.entry)
}

/// Whether an entry is honored: its path stays inside the extraction root.
pub open spec fn honored(stored: StoredEntry) -> bool {
    stored.entry.enclosed_path is Some
}

/// What an entry puts into the tree: a directory or a file with the bytes
/// of the entry, at its enclosed path; nothing if it has none.
pub open spec fn entry_write(stored: StoredEntry) -> Option<Write> {
    match stored.entry.enclosed_path {
        Some(path) => Some(
            Write {
                path,
                node: if stored.entry.is_dir {
                    Node::Directory
                } else {
                    Node::File { content: stored.content }
                },
            },
        ),
        None => None,
    }
}

/// What a step of the plan puts into the tree: a directory, or a file with
/// the bytes of the entry that the step belongs to, at the path of the step.
/// The missing directories that are created on the way to the path are not
/// recorded: they are ancestors of the path.
pub open spec fn step_write(stored: Seq<StoredEntry>, step: ExtractStepView) -> Write {
    Write {
        path: step.path,
        node: if step.is_dir {
            Node::Directory
        } else {
            Node::File { content: stored[step.entry].content }
        },
    }
}

/// What the plan of an archive puts into the tree, step by step.
pub open spec fn plan_writes(stored: Seq<StoredEntry>, archive: Seq<char>) -> Seq<Write> {
    extraction_plan(listing(stored), archive).map_values(
        |step: ExtractStepView| step_write(stored, step),
    )
}

/// The tree after a list of changes, made in order.
pub open spec fn after_writes(tree: Tree, writes: Seq<Write>) -> Tree
    decreases writes.len(),
{
    if writes.len() == 0 {
        tree
    } else {
        after_writes(tree, writes.drop_last()).insert(writes.last().path, writes.last().node)
    }
}

/// The tree after the plan of an archive was carried out on it.
pub open spec fn installed(tree: Tree, stored: Seq<StoredEntry>, archive: Seq<char>) -> Tree {
    after_writes(tree, plan_writes(stored, archive))
}

/// A path of a tree is untouched: it holds in `after` what it held in
/// `tree`, or nothing in either.
pub open spec fn untouched(tree: Tree, after: Tree, path: Seq<char>) -> bool {
    if tree.dom().contains(path) {
        after.dom().contains(path) && after[path] == tree[path]
    } else {
        !after.dom().contains(path)
    }
}

/// What the steps for the first `upto` entries write is what those entries
/// put into the tree.
proof fn lemma_plan_writes_upto(stored: Seq<StoredEntry>, archive: Seq<char>, upto: int)
    requires
        0 <= upto <= stored.len(),
    ensures
        plan_upto(listing(stored), archive, upto).map_values(
            |step: ExtractStepView| step_write(stored, step),
        ) == stored.take(upto).filter_map(|s: StoredEntry| entry_write(s)),
    decreases upto,
{
    let entries = listing(stored);
    let write = |step: ExtractStepView| step_write(stored, step);
    let put = |s: StoredEntry| entry_write(s);
    if upto == 0 {
        assert(Seq::new(0nat, |i: int| i) =~= Seq::<int>::empty());
        assert(plan_upto(entries, archive, 0).map_values(write) =~= stored.take(0).filter_map(put));
    } else {
        let n = upto - 1;
        lemma_plan_writes_upto(stored, archive, n);
        lemma_plan_step(entries, archive, n);
        stored.lemma_filter_map_take_succ(put, n);
        assert(entries[n] == stored[n].entry);
        let before = plan_upto(entries, archive, n);
        match step_for(entries, archive, n) {
            Some(step) => {
                assert(before.push(step).map_values(write) =~= before.map_values(write).push(
                    write(step),
                ));
                assert(Some(write(step)) == put(stored[n]));
                assert(before.map_values(write).push(write(step)) =~= before.map_values(write)
                    + seq![write(step)]);
            },
            None => {
                assert(before.map_values(write) + Seq::<Write>::empty() =~= before.map_values(
                    write,
                ));
            },
        }
    }
}

/// What a plan writes: the plan of an archive puts into the tree what its
/// honored entries hold, in archive order, and nothing for the others.
pub proof fn lemma_plan_writes_the_honored_entries(stored: Seq<StoredEntry>, archive: Seq<char>)
    ensures
        plan_writes(stored, archive) == stored.filter_map(|s: StoredEntry| entry_write(s)),
{
    lemma_plan_writes_upto(stored, archive, stored.len() as int);
    assert(stored.take(stored.len() as int) =~= stored);
}

/// Leaving out the entries that are not honored leaves what the others put
/// into the tree.
proof fn lemma_honored_entries_write_the_same(stored: Seq<StoredEntry>)
    ensures
        stored.filter(|s: StoredEntry| honored(s)).filter_map(|s: StoredEntry| entry_write(s))
            == stored.filter_map(|s: StoredEntry| entry_write(s)),
    decreases stored.len(),
{
    let keep = |s: StoredEntry| honored(s);
    let put = |s: StoredEntry| entry_write(s);
    reveal(Seq::filter);
    if stored.len() > 0 {
        let rest = stored.drop_last();
        lemma_honored_entries_write_the_same(rest);
        if keep(stored.last()) {
            let kept = rest.filter(keep).push(stored.last());
            assert(kept.drop_last() =~= rest.filter(keep));
        }
    }
}

/// Skipped entries change nothing: an archive and the same archive without
/// the entries whose path would leave the extraction root write the same
/// changes in the same order, and leave the same tree, whatever tree they
/// are installed on. Their plans have the same steps but for the numbers in
/// the reports, so that whatever can fail in carrying out the one can fail
/// in carrying out the other.
pub proof fn lemma_skipped_entries_change_nothing(
    tree: Tree,
    stored: Seq<StoredEntry>,
    archive: Seq<char>,
)
    ensures
        plan_writes(stored.filter(|s: StoredEntry| honored(s)), archive) == plan_writes(
            stored,
            archive,
        ),
        installed(tree, stored.filter(|s: StoredEntry| honored(s)), archive) == installed(
            tree,
            stored,
            archive,
        ),
        ({
            let whole = extraction_plan(listing(stored), archive);
            let kept = extraction_plan(
                listing(stored.filter(|s: StoredEntry| honored(s))),
                archive,
            );
            &&& kept.len() == whole.len()
            &&& forall|k: int|
                0 <= k < whole.len() ==> (#[trigger] kept[k]).path == whole[k].path
                    && kept[k].is_dir == whole[k].is_dir
        }),
{
    let rest = stored.filter(|s: StoredEntry| honored(s));
    lemma_plan_writes_the_honored_entries(stored, archive);
    lemma_plan_writes_the_honored_entries(rest, archive);
    lemma_honored_entries_write_the_same(stored);
    let whole = extraction_plan(listing(stored), archive);
    let kept = extraction_plan(listing(rest), archive);
    assert(plan_writes(rest, archive).len() == kept.len());
    assert(plan_writes(stored, archive).len() == whole.len());
    assert forall|k: int| 0 <= k < whole.len() implies (#[trigger] kept[k]).path == whole[k].path
        && kept[k].is_dir == whole[k].is_dir by {
        assert(plan_writes(rest, archive)[k] == step_write(rest, kept[k]));
        assert(plan_writes(stored, archive)[k] == step_write(stored, whole[k]));
    }
}

/// Changes leave untouched every path that is none of theirs.
proof fn lemma_writes_touch_their_paths(tree: Tree, writes: Seq<Write>, path: Seq<char>)
    requires
        forall|k: int| 0 <= k < writes.len() ==> (#[trigger] writes[k]).path != path,
    ensures
        untouched(tree, after_writes(tree, writes), path),
    decreases writes.len(),
{
    if writes.len() > 0 {
        let earlier = writes.drop_last();
        assert forall|k: int| 0 <= k < earlier.len() implies (#[trigger] earlier[k]).path
            != path by {
            assert(writes[k].path != path);
        }
        lemma_writes_touch_their_paths(tree, earlier, path);
        assert(writes[writes.len() - 1].path != path);
    }
}

/// Installing writes inside the extraction root only: the plan of an
/// archive leaves untouched every path that is not the enclosed path of one
/// of its entries.
pub proof fn lemma_install_writes_enclosed_paths_only(
    tree: Tree,
    stored: Seq<StoredEntry>,
    archive: Seq<char>,
    path: Seq<char>,
)
    requires
        forall|i: int|
            0 <= i < stored.len() ==> (#[trigger] stored[i]).entry.enclosed_path != Some(path),
    ensures
        untouched(tree, installed(tree, stored, archive), path),
{
    let writes = plan_writes(stored, archive);
    let put = |s: StoredEntry| entry_write(s);
    lemma_plan_writes_the_honored_entries(stored, archive);
    assert forall|k: int| 0 <= k < writes.len() implies (#[trigger] writes[k]).path != path by {
        assert(writes.contains(writes[k]));
        stored.lemma_filter_map_contains(put, writes[k]);
        let s = choose|s: StoredEntry| #[trigger] stored.contains(s) && put(s) == Some(writes[k]);
        let i = choose|i: int| 0 <= i < stored.len() && stored[i] == s;
        assert(stored[i].entry.enclosed_path == Some(writes[k].path));
    }
    lemma_writes_touch_their_paths(tree, writes, path);
}

/// Making changes on a tree lays what they write over the tree.
proof fn lemma_writes_overlay(tree: Tree, writes: Seq<Write>)
    ensures
        after_writes(tree, writes) == tree.union_prefer_right(after_writes(Map::empty(), writes)),
    decreases writes.len(),
{
    if writes.len() == 0 {
        assert(tree.union_prefer_right(Map::<Seq<char>, Node>::empty()) =~= tree);
    } else {
        lemma_writes_overlay(tree, writes.drop_last());
        let written = after_writes(Map::empty(), writes.drop_last());
        let last = writes.last();
        assert(tree.union_prefer_right(written).insert(last.path, last.node)
            =~= tree.union_prefer_right(written.insert(last.path, last.node)));
    }
}

/// Installing is idempotent: carrying out the plan of an archive once more,
/// over its own result, changes nothing.
pub proof fn lemma_install_is_idempotent(tree: Tree, stored: Seq<StoredEntry>, archive: Seq<char>)
    ensures
        installed(installed(tree, stored, archive), stored, archive) == installed(
            tree,
            stored,
            archive,
        ),
{
    let writes = plan_writes(stored, archive);
    let written = after_writes(Map::empty(), writes);
    lemma_writes_overlay(tree, writes);
    lemma_writes_overlay(after_writes(tree, writes), writes);
    assert(tree.union_prefer_right(written).union_prefer_right(written)
        =~= tree.union_prefer_right(written));
}

} // verus!
