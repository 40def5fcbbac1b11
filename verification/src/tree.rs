//! What a walk gives on a directory tree: the files of the wanted kind in
//! the order in which a depth-first walk meets them.

use crate::walk::{
    after_entry, first_step, is_skipped, is_wanted, next_step, resume, DirEntryView, FileKindView,
    FileWalkView, FrameView, ListReplyView, WalkStepView,
};
use vstd::prelude::*;

verus! {

/// An entry of a directory tree with the entries below it. A file has none.
pub struct DirTree {
    pub name: Seq<char>,
    pub is_dir: bool,
    pub children: Seq<DirTree>,
}

/// The files that the walk collects at or below the entry `node` of the
/// directory at `dir`: none where its name is skipped; for a directory the
/// collected files of its entries; for a file itself, if it is wanted.
pub open spec fn files_of(node: DirTree, dir: Seq<Seq<char>>, wanted: FileKindView) -> Seq<
    Seq<Seq<char>>,
>
    decreases node, 0nat,
{
    if is_skipped(node.name) {
        Seq::empty()
    } else if node.is_dir {
        files_from(node.children, 0, dir.push(node.name), wanted)
    } else if is_wanted(node.name, wanted) {
        seq![dir.push(node.name)]
    } else {
        Seq::empty()
    }
}

/// The files that the walk collects at or below the entries
/// `nodes[start..]` of the directory at `dir`, entry by entry in their order.
pub open spec fn files_from(
    nodes: Seq<DirTree>,
    start: int,
    dir: Seq<Seq<char>>,
    wanted: FileKindView,
) -> Seq<Seq<Seq<char>>>
    decreases nodes, nodes.len() - start,
{
    if 0 <= start < nodes.len() {
        files_of(nodes[start], dir, wanted) + files_from(nodes, start + 1, dir, wanted)
    } else {
        Seq::empty()
    }
}

/// The number of entries at or below `node`, itself included.
pub open spec fn tree_size(node: DirTree) -> nat
    decreases node, 0nat,
{
    1 + forest_size(node.children, 0)
}

/// The number of entries at or below the entries `nodes[start..]`.
pub open spec fn forest_size(nodes: Seq<DirTree>, start: int) -> nat
    decreases nodes, nodes.len() - start,
{
    if 0 <= start < nodes.len() {
        tree_size(nodes[start]) + forest_size(nodes, start + 1)
    } else {
        0
    }
}

/// Whether the entries of every directory have names of their own: no two
/// entries of one directory share a name.
pub open spec fn names_distinct(nodes: Seq<DirTree>) -> bool
    decreases nodes,
{
    &&& forall|i: int, j: int|
        0 <= i < j < nodes.len() ==> (#[trigger] nodes[i]).name != (#[trigger] nodes[j]).name
    &&& forall|i: int| 0 <= i < nodes.len() ==> names_distinct((#[trigger] nodes[i]).children)
}

/// The entries of the entry of `nodes` that is named `name`; none where no
/// entry has that name.
pub open spec fn entries_of_named(nodes: Seq<DirTree>, name: Seq<char>) -> Seq<DirTree> {
    if exists|i: int| 0 <= i < nodes.len() && (#[trigger] nodes[i]).name == name {
        let i = choose|i: int| 0 <= i < nodes.len() && (#[trigger] nodes[i]).name == name;
        nodes[i].children
    } else {
        Seq::empty()
    }
}

/// The entries of the directory at `path` in the tree whose top directory
/// has the entries `root`.
pub open spec fn entries_at(root: Seq<DirTree>, path: Seq<Seq<char>>) -> Seq<DirTree>
    decreases path.len(),
{
    if path.len() == 0 {
        root
    } else {
        entries_of_named(entries_at(root, path.drop_last()), path.last())
    }
}

/// The listing that the host gives for a directory with the entries
/// `nodes`: every entry is read, in order.
pub open spec fn listing_of(nodes: Seq<DirTree>) -> Seq<Result<DirEntryView, Seq<char>>> {
    Seq::new(
        nodes.len(),
        |i: int|
            Ok::<DirEntryView, Seq<char>>(
                DirEntryView { name: nodes[i].name, is_dir: nodes[i].is_dir },
            ),
    )
}

/// What a walk ends with when it goes on from `step` and the host answers
/// every request with the listing of that directory in the tree `root`;
/// `None` where the walk asks for more than `fuel` listings.
pub open spec fn outcome(step: WalkStepView, root: Seq<DirTree>, fuel: nat) -> Option<
    Result<Seq<Seq<Seq<char>>>, Seq<char>>,
>
    decreases fuel,
{
    match step {
        WalkStepView::Done(result) => Some(result),
        WalkStepView::List { path, walk } => if fuel == 0 {
            None
        } else {
            outcome(
                next_step(walk, ListReplyView::Listed(listing_of(entries_at(root, path)))),
                root,
                (fuel - 1) as nat,
            )
        },
    }
}

/// A directory of the tree that the walk is going through: the entries
/// before `done` have been dealt with.
pub struct TreeFrame {
    pub dir: Seq<Seq<char>>,
    pub all: Seq<DirTree>,
    pub done: int,
}

/// Whether the frames of a walk are those of the tree frames `frames`.
pub open spec fn agrees(root: Seq<DirTree>, stack: Seq<FrameView>, frames: Seq<TreeFrame>) -> bool {
    &&& stack.len() == frames.len()
    &&& forall|k: int|
        0 <= k < frames.len() ==> {
            &&& 0 <= (#[trigger] frames[k]).done <= frames[k].all.len()
            &&& stack[k].dir == frames[k].dir
            &&& stack[k].rest == listing_of(frames[k].all).skip(frames[k].done)
            &&& entries_at(root, frames[k].dir) == frames[k].all
            &&& names_distinct(frames[k].all)
        }
}

/// The files still to be collected from the tree frames, the innermost
/// frame first.
pub open spec fn pending(frames: Seq<TreeFrame>, wanted: FileKindView) -> Seq<Seq<Seq<char>>>
    decreases frames.len(),
{
    if frames.len() == 0 {
        Seq::empty()
    } else {
        files_from(frames.last().all, frames.last().done, frames.last().dir, wanted) + pending(
            frames.drop_last(),
            wanted,
        )
    }
}

/// The number of entries still to be dealt with in the tree frames.
pub open spec fn pending_size(frames: Seq<TreeFrame>) -> nat
    decreases frames.len(),
{
    if frames.len() == 0 {
        0
    } else {
        forest_size(frames.last().all, frames.last().done) + pending_size(frames.drop_last())
    }
}

/// In a directory whose entries have names of their own, the entries of
/// the one named like `nodes[i]` are those of `nodes[i]`.
proof fn lemma_named_entry(nodes: Seq<DirTree>, i: int)
    requires
        names_distinct(nodes),
        0 <= i < nodes.len(),
    ensures
        entries_of_named(nodes, nodes[i].name) == nodes[i].children,
        names_distinct(nodes[i].children),
{
    let name = nodes[i].name;
    assert(exists|j: int| 0 <= j < nodes.len() && (#[trigger] nodes[j]).name == name);
    let j = choose|j: int| 0 <= j < nodes.len() && (#[trigger] nodes[j]).name == name;
    if j < i {
        assert(nodes[j].name != nodes[i].name);
    } else if i < j {
        assert(nodes[i].name != nodes[j].name);
    }
}

/// Putting a frame on top adds its files before the pending ones and its
/// entries to the pending size.
proof fn lemma_push_frame(frames: Seq<TreeFrame>, top: TreeFrame, wanted: FileKindView)
    ensures
        pending(frames.push(top), wanted) == files_from(top.all, top.done, top.dir, wanted)
            + pending(frames, wanted),
        pending_size(frames.push(top)) == forest_size(top.all, top.done) + pending_size(frames),
{
    assert(frames.push(top).drop_last() =~= frames);
    assert(frames.push(top).last() == top);
}

/// The walk that goes on from frames agreeing with tree frames ends with
/// what was found followed by the files still pending, within as many
/// listings as entries are still to be dealt with.
proof fn lemma_outcome(
    root: Seq<DirTree>,
    wanted: FileKindView,
    stack: Seq<FrameView>,
    frames: Seq<TreeFrame>,
    found: Seq<Seq<Seq<char>>>,
    fuel: nat,
)
    requires
        agrees(root, stack, frames),
        fuel >= pending_size(frames),
    ensures
        outcome(resume(wanted, stack, found), root, fuel) == Some(
            Ok::<Seq<Seq<Seq<char>>>, Seq<char>>(found + pending(frames, wanted)),
        ),
    decreases pending_size(frames), stack.len(),
{
    if stack.len() == 0 {
        assert(found + pending(frames, wanted) =~= found);
    } else {
        let k = frames.len() - 1;
        let top = frames[k];
        let below = frames.drop_last();
        let lower = stack.drop_last();
        assert(frames =~= below.push(top));
        lemma_push_frame(below, top, wanted);
        assert(stack.last() == stack[k]);
        assert forall|i: int| 0 <= i < below.len() implies {
            &&& 0 <= (#[trigger] below[i]).done <= below[i].all.len()
            &&& lower[i].dir == below[i].dir
            &&& lower[i].rest == listing_of(below[i].all).skip(below[i].done)
            &&& entries_at(root, below[i].dir) == below[i].all
            &&& names_distinct(below[i].all)
        } by {
            assert(below[i] == frames[i]);
            assert(lower[i] == stack[i]);
        }
        assert(agrees(root, lower, below));
        if stack.last().rest.len() == 0 {
            assert(top.done == top.all.len());
            assert(pending(frames, wanted) =~= pending(below, wanted));
            lemma_outcome(root, wanted, lower, below, found, fuel);
        } else {
            let node = top.all[top.done];
            let entry = DirEntryView { name: node.name, is_dir: node.is_dir };
            assert(stack.last().rest[0] == Ok::<DirEntryView, Seq<char>>(entry));
            let next = TreeFrame { dir: top.dir, all: top.all, done: top.done + 1 };
            let frames2 = below.push(next);
            let stack2 = after_entry(stack);
            lemma_push_frame(below, next, wanted);
            assert(stack.last().rest.drop_first() =~= listing_of(top.all).skip(top.done + 1));
            assert forall|i: int| 0 <= i < frames2.len() implies {
                &&& 0 <= (#[trigger] frames2[i]).done <= frames2[i].all.len()
                &&& stack2[i].dir == frames2[i].dir
                &&& stack2[i].rest == listing_of(frames2[i].all).skip(frames2[i].done)
                &&& entries_at(root, frames2[i].dir) == frames2[i].all
                &&& names_distinct(frames2[i].all)
            } by {
                if i < below.len() {
                    assert(frames2[i] == below[i]);
                    assert(stack2[i] == lower[i]);
                }
            }
            assert(agrees(root, stack2, frames2));
            let files_next = files_from(top.all, top.done + 1, top.dir, wanted);
            let rest = pending(below, wanted);
            assert(files_from(top.all, top.done, top.dir, wanted) == files_of(
                node,
                top.dir,
                wanted,
            ) + files_next);
            assert(forest_size(top.all, top.done) == tree_size(node) + forest_size(
                top.all,
                top.done + 1,
            ));
            let path = top.dir.push(node.name);
            if is_skipped(node.name) {
                assert(found + pending(frames, wanted) =~= found + pending(frames2, wanted));
                lemma_outcome(root, wanted, stack2, frames2, found, fuel);
            } else if node.is_dir {
                lemma_named_entry(top.all, top.done);
                assert(path.drop_last() =~= top.dir);
                assert(entries_at(root, path) == node.children);
                let inner = TreeFrame { dir: path, all: node.children, done: 0 };
                let frames3 = frames2.push(inner);
                let stack3 = stack2.push(FrameView { dir: path, rest: listing_of(node.children) });
                lemma_push_frame(frames2, inner, wanted);
                assert(listing_of(node.children).skip(0) =~= listing_of(node.children));
                assert forall|i: int| 0 <= i < frames3.len() implies {
                    &&& 0 <= (#[trigger] frames3[i]).done <= frames3[i].all.len()
                    &&& stack3[i].dir == frames3[i].dir
                    &&& stack3[i].rest == listing_of(frames3[i].all).skip(frames3[i].done)
                    &&& entries_at(root, frames3[i].dir) == frames3[i].all
                    &&& names_distinct(frames3[i].all)
                } by {
                    if i < frames2.len() {
                        assert(frames3[i] == frames2[i]);
                        assert(stack3[i] == stack2[i]);
                    }
                }
                assert(agrees(root, stack3, frames3));
                assert(found + pending(frames, wanted) =~= found + pending(frames3, wanted));
                lemma_outcome(root, wanted, stack3, frames3, found, (fuel - 1) as nat);
                let walk = FileWalkView {
                    wanted: wanted,
                    awaiting: path,
                    stack: stack2,
                    found: found,
                };
                assert(resume(wanted, stack, found) == (WalkStepView::List { path, walk }));
                assert(next_step(walk, ListReplyView::Listed(listing_of(entries_at(root, path))))
                    == resume(wanted, stack3, found));
            } else if is_wanted(node.name, wanted) {
                assert(found + pending(frames, wanted) =~= found.push(path) + pending(
                    frames2,
                    wanted,
                ));
                lemma_outcome(root, wanted, stack2, frames2, found.push(path), fuel);
            } else {
                assert(found + pending(frames, wanted) =~= found + pending(frames2, wanted));
                lemma_outcome(root, wanted, stack2, frames2, found, fuel);
            }
        }
    }
}

/// A walk over a directory tree, in which the host answers every request
/// with the listing of that directory, ends without failure and gives the
/// files of the wanted kind in the order of a depth-first walk: the files
/// of a directory's entries in the order of the entries, those below an
/// entry before those of the entries after it, nothing from below a skipped
/// name. It asks for no more listings than the tree has entries, and one for
/// the top directory.
pub proof fn lemma_walk_collects_tree(root: Seq<DirTree>, wanted: FileKindView)
    requires
        names_distinct(root),
    ensures
        outcome(first_step(wanted, true), root, forest_size(root, 0) + 1) == Some(
            Ok::<Seq<Seq<Seq<char>>>, Seq<char>>(files_from(root, 0, Seq::empty(), wanted)),
        ),
{
    let top = TreeFrame { dir: Seq::empty(), all: root, done: 0 };
    let frames = Seq::<TreeFrame>::empty().push(top);
    let stack = Seq::<FrameView>::empty().push(
        FrameView { dir: Seq::empty(), rest: listing_of(root) },
    );
    let found = Seq::<Seq<Seq<char>>>::empty();
    lemma_push_frame(Seq::<TreeFrame>::empty(), top, wanted);
    assert(listing_of(root).skip(0) =~= listing_of(root));
    assert(agrees(root, stack, frames));
    lemma_outcome(root, wanted, stack, frames, found, forest_size(root, 0));
    assert(found + pending(frames, wanted) =~= files_from(root, 0, Seq::empty(), wanted));
    let walk = FileWalkView {
        wanted: wanted,
        awaiting: Seq::empty(),
        stack: Seq::empty(),
        found: Seq::empty(),
    };
    assert(first_step(wanted, true) == (WalkStepView::List { path: Seq::empty(), walk }));
    assert(entries_at(root, Seq::empty()) == root);
    assert(next_step(walk, ListReplyView::Listed(listing_of(root))) == resume(
        wanted,
        stack,
        found,
    ));
}

} // verus!
