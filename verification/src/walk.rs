//! The walk over a project directory that collects the files of one kind.
//!
//! The host lists directories; the walk decides which directory is listed
//! next, which entries are passed over and which files are collected. A path
//! is the list of names that leads from the project directory to an entry.

use crate::text::{chars_of, ends_with, has_suffix, paths_view, same_text, texts};
use vstd::prelude::*;

verus! {

/// One entry of a directory as the host lists it.
#[derive(Debug)]
pub struct DirEntry {
    pub name: String,
    pub is_dir: bool,
}

/// What a `DirEntry` holds, its name as a character sequence.
pub struct DirEntryView {
    pub name: Seq<char>,
    pub is_dir: bool,
}

impl View for DirEntry {
    type V = DirEntryView;

    open spec fn view(&self) -> DirEntryView {
        DirEntryView { name: self.name@, is_dir: self.is_dir }
    }
}

/// What the host answers when asked to list a directory.
#[derive(Debug)]
pub enum ListReply {
    /// The entries in the order in which the directory gave them, each one
    /// the entry itself or the message of the failure to read it.
    Listed(Vec<Result<DirEntry, String>>),
    /// The directory could not be opened: the message.
    Failed(String),
}

/// One listed entry by its view.
pub open spec fn listed_view(e: Result<DirEntry, String>) -> Result<DirEntryView, Seq<char>> {
    match e {
        Ok(entry) => Ok(entry@),
        Err(message) => Err(message@),
    }
}

/// A listing by the views of its entries.
pub open spec fn listing_view(entries: Seq<Result<DirEntry, String>>) -> Seq<
    Result<DirEntryView, Seq<char>>,
> {
    entries.map_values(|e: Result<DirEntry, String>| listed_view(e))
}

/// A `ListReply` by the views of what it holds.
pub enum ListReplyView {
    Listed(Seq<Result<DirEntryView, Seq<char>>>),
    Failed(Seq<char>),
}

impl View for ListReply {
    type V = ListReplyView;

    open spec fn view(&self) -> ListReplyView {
        match self {
            ListReply::Listed(entries) => ListReplyView::Listed(listing_view(entries@)),
            ListReply::Failed(message) => ListReplyView::Failed(message@),
        }
    }
}

/// Whether an entry of this name is passed over, whatever it is.
pub open spec fn is_skipped(name: Seq<char>) -> bool {
    name == "node_modules"@ || name == "bin"@ || name == "obj"@
}

/// Whether the file name `name` has the extension `extension`: the name ends
/// with a dot and the extension, something stands before that dot, and the
/// extension itself holds no dot.
pub open spec fn has_extension(name: Seq<char>, extension: Seq<char>) -> bool {
    &&& !extension.contains('.')
    &&& name.len() > extension.len() + 1
    &&& has_suffix(name, seq!['.'] + extension)
}

/// Which files a walk collects.
#[derive(Debug)]
pub enum FileKind {
    /// The files with this extension.
    WithExtension(String),
    /// The files with this name.
    Named(String),
}

/// A `FileKind` by the characters it holds.
pub enum FileKindView {
    WithExtension(Seq<char>),
    Named(Seq<char>),
}

impl View for FileKind {
    type V = FileKindView;

    open spec fn view(&self) -> FileKindView {
        match self {
            FileKind::WithExtension(extension) => FileKindView::WithExtension(extension@),
            FileKind::Named(name) => FileKindView::Named(name@),
        }
    }
}

/// Whether a file of this name is one that the walk collects.
pub open spec fn is_wanted(name: Seq<char>, wanted: FileKindView) -> bool {
    match wanted {
        FileKindView::WithExtension(extension) => has_extension(name, extension),
        FileKindView::Named(n) => name == n,
    }
}

/// Whether no name of `path` is one that the walk passes over.
pub open spec fn no_skipped(path: Seq<Seq<char>>) -> bool {
    forall|i: int| 0 <= i < path.len() ==> !is_skipped(#[trigger] path[i])
}

/// A directory whose entries are being gone through.
struct Frame {
    dir: Vec<String>,
    entries: Vec<Result<DirEntry, String>>,
    next: usize,
}

/// A `Frame` as the walk's contracts see it: the directory and the entries
/// that are still to be looked at.
pub struct FrameView {
    pub dir: Seq<Seq<char>>,
    pub rest: Seq<Result<DirEntryView, Seq<char>>>,
}

impl View for Frame {
    type V = FrameView;

    closed spec fn view(&self) -> FrameView {
        FrameView {
            dir: texts(self.dir@),
            rest: if self.next <= self.entries@.len() {
                listing_view(self.entries@).skip(self.next as int)
            } else {
                Seq::empty()
            },
        }
    }
}

/// A walk that waits for the listing of one directory.
pub struct FileWalk {
    wanted: FileKind,
    awaiting: Vec<String>,
    stack: Vec<Frame>,
    found: Vec<Vec<String>>,
}

/// A `FileWalk` as its contracts see it.
pub struct FileWalkView {
    /// Which files are collected.
    pub wanted: FileKindView,
    /// The directory whose listing the walk waits for.
    pub awaiting: Seq<Seq<char>>,
    /// The directories that are being gone through, the innermost last.
    pub stack: Seq<FrameView>,
    /// The files collected so far.
    pub found: Seq<Seq<Seq<char>>>,
}

/// The frames of a stack, each by its view.
spec fn frame_views(stack: Seq<Frame>) -> Seq<FrameView> {
    stack.map_values(|f: Frame| f@)
}

impl View for FileWalk {
    type V = FileWalkView;

    closed spec fn view(&self) -> FileWalkView {
        FileWalkView {
            wanted: self.wanted@,
            awaiting: texts(self.awaiting@),
            stack: frame_views(self.stack@),
            found: paths_view(self.found@),
        }
    }
}

impl FileWalk {
    /// A walk never waits for or goes through a directory below a skipped
    /// name, and it has collected only wanted files.
    #[verifier::type_invariant]
    spec fn keeps_out_of_skipped(self) -> bool {
        keeps_out(self@)
    }
}

/// What the walk asks of the host next.
pub enum WalkStep {
    /// List the directory at `path` and hand the listing to `walk`.
    List { path: Vec<String>, walk: FileWalk },
    /// The walk is over: the files collected, in the order of the walk, or
    /// the message of the failure that ended it.
    Done(Result<Vec<Vec<String>>, String>),
}

/// A `WalkStep` by the views of what it holds.
pub enum WalkStepView {
    List { path: Seq<Seq<char>>, walk: FileWalkView },
    Done(Result<Seq<Seq<Seq<char>>>, Seq<char>>),
}

impl View for WalkStep {
    type V = WalkStepView;

    open spec fn view(&self) -> WalkStepView {
        match self {
            WalkStep::List { path, walk } => WalkStepView::List { path: texts(path@), walk: walk@ },
            WalkStep::Done(Ok(found)) => WalkStepView::Done(Ok(paths_view(found@))),
            WalkStep::Done(Err(message)) => WalkStepView::Done(Err(message@)),
        }
    }
}

/// The stack with the first remaining entry of its innermost frame taken off.
pub open spec fn after_entry(stack: Seq<FrameView>) -> Seq<FrameView> {
    stack.drop_last().push(
        FrameView { dir: stack.last().dir, rest: stack.last().rest.drop_first() },
    )
}

/// How the walk goes on from the frames `stack` with `found` collected. The
/// entries of the innermost frame are taken in order. An entry that could not
/// be read ends the walk with its message. An entry with a skipped name is
/// passed over. A directory is listed next, and its entries are gone through
/// before the ones that follow it. A file of the wanted kind is collected.
/// A frame without entries left gives way to the one below it, and with no
/// frame left the walk is over.
pub open spec fn resume(
    wanted: FileKindView,
    stack: Seq<FrameView>,
    found: Seq<Seq<Seq<char>>>,
) -> WalkStepView
    decreases stack.len(), (if stack.len() > 0 {
            stack.last().rest.len()
        } else {
            0
        }),
{
    if stack.len() == 0 {
        WalkStepView::Done(Ok(found))
    } else if stack.last().rest.len() == 0 {
        resume(wanted, stack.drop_last(), found)
    } else {
        let dir = stack.last().dir;
        match stack.last().rest[0] {
            Err(message) => WalkStepView::Done(Err(message)),
            Ok(entry) => if is_skipped(entry.name) {
                resume(wanted, after_entry(stack), found)
            } else if entry.is_dir {
                WalkStepView::List {
                    path: dir.push(entry.name),
                    walk: FileWalkView {
                        wanted: wanted,
                        awaiting: dir.push(entry.name),
                        stack: after_entry(stack),
                        found: found,
                    },
                }
            } else if is_wanted(entry.name, wanted) {
                resume(wanted, after_entry(stack), found.push(dir.push(entry.name)))
            } else {
                resume(wanted, after_entry(stack), found)
            },
        }
    }
}

/// The first step of a walk for the files of the kind `wanted`: the project
/// directory is listed, unless it is no directory, when nothing is found.
pub open spec fn first_step(wanted: FileKindView, root_is_dir: bool) -> WalkStepView {
    if root_is_dir {
        WalkStepView::List {
            path: Seq::empty(),
            walk: FileWalkView {
                wanted: wanted,
                awaiting: Seq::empty(),
                stack: Seq::empty(),
                found: Seq::empty(),
            },
        }
    } else {
        WalkStepView::Done(Ok(Seq::empty()))
    }
}

/// The step after the host answered `reply` for the directory that `walk`
/// waits for: a failure ends the walk with its message; a listing is gone
/// through before everything that was still to come.
pub open spec fn next_step(walk: FileWalkView, reply: ListReplyView) -> WalkStepView {
    match reply {
        ListReplyView::Failed(message) => WalkStepView::Done(Err(message)),
        ListReplyView::Listed(entries) => resume(
            walk.wanted,
            walk.stack.push(FrameView { dir: walk.awaiting, rest: entries }),
            walk.found,
        ),
    }
}

/// Whether the walk has kept out of the skipped directories: no directory
/// that it waits for or goes through has a skipped name on its path, and
/// every file collected is of the wanted kind and has no skipped name on its
/// path.
pub open spec fn keeps_out(walk: FileWalkView) -> bool {
    &&& no_skipped(walk.awaiting)
    &&& forall|k: int| 0 <= k < walk.stack.len() ==> no_skipped((#[trigger] walk.stack[k]).dir)
    &&& collected_well(walk.wanted, walk.found)
}

/// Whether every path of `found` ends in the name of a wanted file and
/// holds no skipped name.
pub open spec fn collected_well(wanted: FileKindView, found: Seq<Seq<Seq<char>>>) -> bool {
    forall|k: int|
        0 <= k < found.len() ==> (#[trigger] found[k]).len() > 0 && is_wanted(
            found[k].last(),
            wanted,
        ) && no_skipped(found[k])
}

/// Whether a step was reached by a walk that kept out of the skipped
/// directories.
pub open spec fn step_keeps_out(wanted: FileKindView, step: WalkStepView) -> bool {
    match step {
        WalkStepView::List { path, walk } => path == walk.awaiting && walk.wanted == wanted
            && keeps_out(walk),
        WalkStepView::Done(Ok(found)) => collected_well(wanted, found),
        WalkStepView::Done(Err(_)) => true,
    }
}

/// Whether the file name `name` has the extension `extension`.
pub fn name_has_extension(name: &str, extension: &str) -> (r: bool)
    ensures
        r == has_extension(name@, extension@),
{
    let name_chars = chars_of(name);
    let ext_chars = chars_of(extension);
    let mut suffix: Vec<char> = Vec::new();
    suffix.push('.');
    let mut i: usize = 0;
    while i < ext_chars.len()
        invariant
            i <= ext_chars.len(),
            ext_chars@ == extension@,
            suffix@ == seq!['.'] + ext_chars@.take(i as int),
            forall|k: int| 0 <= k < i ==> ext_chars@[k] != '.',
        decreases ext_chars.len() - i,
    {
        if ext_chars[i] == '.' {
            assert(ext_chars@[i as int] == '.');
            return false;
        }
        suffix.push(ext_chars[i]);
        assert(ext_chars@.take(i + 1) =~= ext_chars@.take(i as int).push(ext_chars@[i as int]));
        assert(suffix@ =~= seq!['.'] + ext_chars@.take(i + 1));
        i += 1;
    }
    assert(ext_chars@.take(i as int) =~= ext_chars@);
    name_chars.len() > suffix.len() && ends_with(&name_chars, &suffix)
}

/// Whether a file of this name is one that the walk collects.
pub fn name_is_wanted(name: &str, wanted: &FileKind) -> (r: bool)
    ensures
        r == is_wanted(name@, wanted@),
{
    match wanted {
        FileKind::WithExtension(extension) => name_has_extension(name, extension.as_str()),
        FileKind::Named(n) => same_text(name, n.as_str()),
    }
}

/// Whether an entry of this name is passed over.
pub fn name_is_skipped(name: &str) -> (r: bool)
    ensures
        r == is_skipped(name@),
{
    same_text(name, "node_modules") || same_text(name, "bin") || same_text(name, "obj")
}

/// A copy of `path`.
pub fn clone_path(path: &Vec<String>) -> (copy: Vec<String>)
    ensures
        texts(copy@) == texts(path@),
{
    let mut copy: Vec<String> = Vec::new();
    let mut i: usize = 0;
    while i < path.len()
        invariant
            i <= path.len(),
            texts(copy@) == texts(path@).take(i as int),
        decreases path.len() - i,
    {
        let name = path[i].clone();
        let ghost before = texts(copy@);
        copy.push(name);
        assert(texts(copy@) =~= before.push(name@));
        assert(texts(path@).take(i + 1) =~= texts(path@).take(i as int).push(path@[i as int]@));
        i += 1;
    }
    assert(texts(path@).take(i as int) =~= texts(path@));
    copy
}

/// The path of the entry `name` of the directory at `dir`.
fn child_path(dir: &Vec<String>, name: &String) -> (path: Vec<String>)
    ensures
        texts(path@) == texts(dir@).push(name@),
{
    let mut path = clone_path(dir);
    let ghost before = texts(path@);
    let copy = name.clone();
    path.push(copy);
    assert(texts(path@) =~= before.push(copy@));
    path
}

impl FileWalk {
    /// Starts a walk that collects the files of the kind `wanted` under the
    /// project directory; `root_is_dir` says whether that is a directory.
    pub fn begin(wanted: FileKind, root_is_dir: bool) -> (step: WalkStep)
        ensures
            step@ == first_step(wanted@, root_is_dir),
            step_keeps_out(wanted@, step@),
            step@ matches WalkStepView::List { path, .. } ==> no_skipped(path),
    {
        if root_is_dir {
            let walk = FileWalk {
                wanted: wanted,
                awaiting: Vec::new(),
                stack: Vec::new(),
                found: Vec::new(),
            };
            let path: Vec<String> = Vec::new();
            proof {
                assert(texts(path@) =~= Seq::<Seq<char>>::empty());
                assert(texts(walk.awaiting@) =~= Seq::<Seq<char>>::empty());
                assert(frame_views(walk.stack@) =~= Seq::<FrameView>::empty());
                assert(paths_view(walk.found@) =~= Seq::<Seq<Seq<char>>>::empty());
            }
            WalkStep::List { path, walk }
        } else {
            let found: Vec<Vec<String>> = Vec::new();
            assert(paths_view(found@) =~= Seq::<Seq<Seq<char>>>::empty());
            WalkStep::Done(Ok(found))
        }
    }

    /// Takes the host's answer for the directory that the walk waits for and
    /// goes on to the next directory to list, or to the end of the walk.
    pub fn advance(self, reply: ListReply) -> (step: WalkStep)
        ensures
            step@ == next_step(self@, reply@),
            step_keeps_out(self@.wanted, step@),
            step@ matches WalkStepView::List { path, .. } ==> no_skipped(path),
    {
        proof {
            use_type_invariant(&self);
        }
        match reply {
            ListReply::Failed(message) => WalkStep::Done(Err(message)),
            ListReply::Listed(entries) => {
                let FileWalk { wanted, awaiting, stack, found } = self;
                let mut stack = stack;
                let ghost below = frame_views(stack@);
                let frame = Frame { dir: awaiting, entries: entries, next: 0 };
                proof {
                    assert(listing_view(entries@).skip(0) =~= listing_view(entries@));
                }
                stack.push(frame);
                proof {
                    assert(frame_views(stack@) =~= below.push(frame@));
                    assert forall|k: int| 0 <= k < stack@.len() implies no_skipped(
                        (#[trigger] frame_views(stack@)[k]).dir,
                    ) by {
                        if k < below.len() {
                            assert(frame_views(stack@)[k] == self@.stack[k]);
                        }
                    }
                    lemma_resume_keeps_out(wanted@, frame_views(stack@), paths_view(found@));
                }
                go_on(wanted, stack, found)
            },
        }
    }
}

/// Goes through the frames until a directory has to be listed or no frame is
/// left.
fn go_on(wanted: FileKind, frames: Vec<Frame>, collected: Vec<Vec<String>>) -> (step: WalkStep)
    requires
        forall|k: int|
            0 <= k < frames@.len() ==> no_skipped((#[trigger] frame_views(frames@)[k]).dir),
        collected_well(wanted@, paths_view(collected@)),
    ensures
        step@ == resume(wanted@, frame_views(frames@), paths_view(collected@)),
{
    let mut stack = frames;
    let mut found = collected;
    loop
        invariant
            resume(wanted@, frame_views(frames@), paths_view(collected@)) == resume(
                wanted@,
                frame_views(stack@),
                paths_view(found@),
            ),
            forall|k: int|
                0 <= k < stack@.len() ==> no_skipped((#[trigger] frame_views(stack@)[k]).dir),
            collected_well(wanted@, paths_view(found@)),
        decreases
                stack@.len(),
                (if stack@.len() > 0 {
                    frame_views(stack@).last().rest.len()
                } else {
                    0
                }),
    {
        let ghost views = frame_views(stack@);
        let ghost so_far = paths_view(found@);
        let mut frame = match stack.pop() {
            None => {
                assert(views.len() == 0);
                return WalkStep::Done(Ok(found));
            },
            Some(frame) => frame,
        };
        proof {
            assert(views.len() > 0);
            assert(views.last() == frame@);
            assert(frame_views(stack@) =~= views.drop_last());
            assert(no_skipped(views[views.len() - 1].dir));
            assert forall|k: int| 0 <= k < stack@.len() implies no_skipped(
                (#[trigger] frame_views(stack@)[k]).dir,
            ) by {
                assert(frame_views(stack@)[k] == views[k]);
            }
        }
        if frame.next >= frame.entries.len() {
            proof {
                assert(frame@.rest.len() == 0);
            }
            continue ;
        }
        let ghost rest = frame@.rest;
        let ghost index = frame.next as int;
        let ghost dir = frame@.dir;
        assert(rest.len() > 0 && views.last().rest == rest);
        assert(rest[0] == listed_view(frame.entries@[index]));
        frame.next = frame.next + 1;
        proof {
            assert(frame@.rest =~= rest.drop_first());
            assert(frame@.dir == dir);
        }
        let descend: Option<Vec<String>> = match &frame.entries[frame.next - 1] {
            Err(message) => {
                return WalkStep::Done(Err(message.clone()));
            },
            Ok(entry) => {
                if name_is_skipped(entry.name.as_str()) {
                    None
                } else if entry.is_dir {
                    Some(child_path(&frame.dir, &entry.name))
                } else if name_is_wanted(entry.name.as_str(), &wanted) {
                    let path = child_path(&frame.dir, &entry.name);
                    found.push(path);
                    assert(paths_view(found@) =~= so_far.push(texts(path@)));
                    assert(collected_well(wanted@, paths_view(found@))) by {
                        assert(texts(path@).last() == entry.name@);
                        assert(no_skipped(dir));
                        assert(no_skipped(texts(path@)));
                    }
                    None
                } else {
                    None
                }
            },
        };
        let ghost lower = frame_views(stack@);
        stack.push(frame);
        proof {
            assert(frame_views(stack@) =~= after_entry(views)) by {
                assert(frame_views(stack@) =~= lower.push(frame@));
            }
            lemma_after_entry_keeps_out(views);
        }
        match descend {
            Some(path) => {
                let awaiting = clone_path(&path);
                proof {
                    assert(no_skipped(dir));
                    assert(no_skipped(texts(awaiting@)));
                }
                return WalkStep::List {
                    path: path,
                    walk: FileWalk { wanted, awaiting, stack, found },
                };
            },
            None => {},
        }
    }
}

/// Taking an entry off the innermost frame leaves the directories of the
/// frames as they are.
proof fn lemma_after_entry_keeps_out(stack: Seq<FrameView>)
    requires
        stack.len() > 0,
        forall|k: int| 0 <= k < stack.len() ==> no_skipped((#[trigger] stack[k]).dir),
    ensures
        forall|k: int|
            0 <= k < after_entry(stack).len() ==> no_skipped((#[trigger] after_entry(stack)[k]).dir),
{
    let after = after_entry(stack);
    assert forall|k: int| 0 <= k < after.len() implies no_skipped((#[trigger] after[k]).dir) by {
        if k < after.len() - 1 {
            assert(after[k] == stack[k]);
        } else {
            assert(after[k].dir == stack[stack.len() - 1].dir);
        }
    }
}

/// A walk that has kept out of the skipped directories goes on keeping out
/// of them: the directory it lists next has no skipped name on its path.
pub proof fn lemma_resume_keeps_out(
    wanted: FileKindView,
    stack: Seq<FrameView>,
    found: Seq<Seq<Seq<char>>>,
)
    requires
        forall|k: int| 0 <= k < stack.len() ==> no_skipped((#[trigger] stack[k]).dir),
        collected_well(wanted, found),
    ensures
        step_keeps_out(wanted, resume(wanted, stack, found)),
    decreases stack.len(), (if stack.len() > 0 {
            stack.last().rest.len()
        } else {
            0
        }),
{
    if stack.len() == 0 {
    } else if stack.last().rest.len() == 0 {
        lemma_resume_keeps_out(wanted, stack.drop_last(), found);
    } else {
        let dir = stack.last().dir;
        let after = after_entry(stack);
        lemma_after_entry_keeps_out(stack);
        match stack.last().rest[0] {
            Err(message) => {},
            Ok(entry) => {
                if is_skipped(entry.name) {
                    lemma_resume_keeps_out(wanted, after, found);
                } else if entry.is_dir {
                    assert(no_skipped(dir));
                    assert(no_skipped(dir.push(entry.name)));
                } else if is_wanted(entry.name, wanted) {
                    let path = dir.push(entry.name);
                    assert(no_skipped(dir));
                    assert(no_skipped(path));
                    assert(path.last() == entry.name);
                    lemma_resume_keeps_out(wanted, after, found.push(path));
                } else {
                    lemma_resume_keeps_out(wanted, after, found);
                }
            },
        }
    }
}

/// Every step of a walk keeps out of the skipped directories: the first
/// step does, and so does the step after one that did, whatever the host
/// answered.
pub proof fn lemma_walk_keeps_out(walk: FileWalkView, reply: ListReplyView)
    requires
        keeps_out(walk),
    ensures
        step_keeps_out(walk.wanted, first_step(walk.wanted, true)),
        step_keeps_out(walk.wanted, first_step(walk.wanted, false)),
        step_keeps_out(walk.wanted, next_step(walk, reply)),
{
    match reply {
        ListReplyView::Failed(message) => {},
        ListReplyView::Listed(entries) => {
            let stack = walk.stack.push(FrameView { dir: walk.awaiting, rest: entries });
            assert forall|k: int| 0 <= k < stack.len() implies no_skipped(
                (#[trigger] stack[k]).dir,
            ) by {
                if k < walk.stack.len() {
                    assert(stack[k] == walk.stack[k]);
                }
            }
            lemma_resume_keeps_out(walk.wanted, stack, walk.found);
        },
    }
}

} // verus!
