//! Directory watching: which file system events are passed on to the host.
//!
//! The host registers the native watcher and converts what it delivers; the
//! functions here decide which events count. A path is the list of its
//! components, outermost first.

use crate::text::{list_contains, paths_view, same_text, texts};
use vstd::prelude::*;

verus! {

/// What is watched.
#[derive(Debug, Clone, Copy, PartialEq, Eq, Structural)]
pub enum WatchTarget {
    /// The directory of feature files of a project.
    Features,
    /// The whole project directory.
    Project,
}

/// What happened to a file or directory.
#[derive(Debug, Clone, Copy, PartialEq, Eq, Structural)]
pub enum ChangeKind {
    Create,
    Remove,
    Modify,
    /// Anything else, such as a read.
    Other,
}

/// Whether a change of this kind counts for a target. For the feature files
/// every creation, removal and modification counts. For the project only
/// creations and removals do: editors that save by themselves would
/// otherwise flood the host.
pub open spec fn is_change_worthy(target: WatchTarget, kind: ChangeKind) -> bool {
    match target {
        WatchTarget::Features => kind == ChangeKind::Create || kind == ChangeKind::Remove || kind
            == ChangeKind::Modify,
        WatchTarget::Project => kind == ChangeKind::Create || kind == ChangeKind::Remove,
    }
}

/// Whether a change of this kind counts for a target.
pub fn change_worthy(target: WatchTarget, kind: ChangeKind) -> (r: bool)
    ensures
        r == is_change_worthy(target, kind),
{
    match target {
        WatchTarget::Features => match kind {
            ChangeKind::Create | ChangeKind::Remove | ChangeKind::Modify => true,
            ChangeKind::Other => false,
        },
        WatchTarget::Project => match kind {
            ChangeKind::Create | ChangeKind::Remove => true,
            ChangeKind::Modify | ChangeKind::Other => false,
        },
    }
}

/// The name of the event that tells the host of a change.
pub fn event_name(target: WatchTarget) -> (name: &'static str)
    ensures
        name@ == match target {
            WatchTarget::Features => "feature-files-changed"@,
            WatchTarget::Project => "project-files-changed"@,
        },
{
    match target {
        WatchTarget::Features => "feature-files-changed",
        WatchTarget::Project => "project-files-changed",
    }
}

/// The names whose subtrees are left out of the watch of a target: none for
/// the feature files; for the project the directories of dependencies, of
/// version control, of build output and of tools.
pub open spec fn exclusions_of(target: WatchTarget) -> Seq<Seq<char>> {
    match target {
        WatchTarget::Features => Seq::empty(),
        WatchTarget::Project => seq![
            "node_modules"@,
            ".git"@,
            "bin"@,
            "obj"@,
            "dist"@,
            "build"@,
            "out"@,
            ".naide"@,
            "target"@,
            "__pycache__"@,
            ".venv"@,
            "venv"@,
        ],
    }
}

/// The names whose subtrees are left out of the watch of a target.
pub fn exclusions(target: WatchTarget) -> (names: Vec<String>)
    ensures
        texts(names@) == exclusions_of(target),
{
    let mut names: Vec<String> = Vec::new();
    match target {
        WatchTarget::Features => {},
        WatchTarget::Project => {
            names.push("node_modules".to_owned());
            names.push(".git".to_owned());
            names.push("bin".to_owned());
            names.push("obj".to_owned());
            names.push("dist".to_owned());
            names.push("build".to_owned());
            names.push("out".to_owned());
            names.push(".naide".to_owned());
            names.push("target".to_owned());
            names.push("__pycache__".to_owned());
            names.push(".venv".to_owned());
            names.push("venv".to_owned());
        },
    }
    assert(texts(names@) =~= exclusions_of(target));
    names
}

/// Whether `path` lies at or under `root`: the components of `root` are the
/// first components of `path`.
pub open spec fn is_under(path: Seq<Seq<char>>, root: Seq<Seq<char>>) -> bool {
    root.len() <= path.len() && path.take(root.len() as int) == root
}

/// Whether one of the components of `relative` is an excluded name.
pub open spec fn names_excluded(relative: Seq<Seq<char>>, excluded: Seq<Seq<char>>) -> bool {
    exists|i: int| 0 <= i < relative.len() && excluded.contains(#[trigger] relative[i])
}

/// Whether `path` is excluded from the watch of `root`: it lies under
/// `root`, and one of its components below `root` is an excluded name. The
/// components of `root` itself do not count.
pub open spec fn is_excluded_path(
    path: Seq<Seq<char>>,
    root: Seq<Seq<char>>,
    excluded: Seq<Seq<char>>,
) -> bool {
    is_under(path, root) && names_excluded(path.skip(root.len() as int), excluded)
}

/// Whether one of `paths` is excluded from the watch of `root`.
pub open spec fn any_excluded(
    paths: Seq<Seq<Seq<char>>>,
    root: Seq<Seq<char>>,
    excluded: Seq<Seq<char>>,
) -> bool {
    exists|k: int| 0 <= k < paths.len() && is_excluded_path(#[trigger] paths[k], root, excluded)
}

/// Whether an event is passed on to the host: its kind counts for the
/// target, and none of its paths is excluded.
pub open spec fn is_forwarded(
    target: WatchTarget,
    kind: ChangeKind,
    paths: Seq<Seq<Seq<char>>>,
    root: Seq<Seq<char>>,
    excluded: Seq<Seq<char>>,
) -> bool {
    is_change_worthy(target, kind) && !any_excluded(paths, root, excluded)
}

/// The notifications that the host gets for one event: one for an event
/// that is passed on, none for any other.
pub open spec fn notifications_for(forwarded: bool) -> nat {
    if forwarded {
        1
    } else {
        0
    }
}

/// Whether `path` lies at or under `root`.
pub fn lies_under(path: &Vec<String>, root: &Vec<String>) -> (r: bool)
    ensures
        r == is_under(texts(path@), texts(root@)),
{
    if root.len() > path.len() {
        return false;
    }
    let mut i: usize = 0;
    while i < root.len()
        invariant
            i <= root.len() <= path.len(),
            forall|k: int| 0 <= k < i ==> texts(path@)[k] == texts(root@)[k],
        decreases root.len() - i,
    {
        if !same_text(path[i].as_str(), root[i].as_str()) {
            assert(texts(path@).take(root.len() as int)[i as int] != texts(root@)[i as int]);
            return false;
        }
        i += 1;
    }
    assert(texts(path@).take(root.len() as int) =~= texts(root@));
    true
}

/// Whether `path` is excluded from the watch of `root`.
pub fn path_excluded(path: &Vec<String>, root: &Vec<String>, excluded: &Vec<String>) -> (r: bool)
    ensures
        r == is_excluded_path(texts(path@), texts(root@), texts(excluded@)),
{
    if !lies_under(path, root) {
        return false;
    }
    let ghost relative = texts(path@).skip(root.len() as int);
    let mut i: usize = root.len();
    while i < path.len()
        invariant
            root.len() <= i <= path.len(),
            is_under(texts(path@), texts(root@)),
            relative == texts(path@).skip(root.len() as int),
            forall|k: int| 0 <= k < i - root.len() ==> !texts(excluded@).contains(relative[k]),
        decreases path.len() - i,
    {
        if list_contains(excluded, path[i].as_str()) {
            assert(relative[i - root.len()] == path@[i as int]@);
            assert(names_excluded(relative, texts(excluded@)));
            return true;
        }
        i += 1;
    }
    false
}

/// Whether an event is passed on to the host by a watch of `target` rooted
/// at `root` that leaves out the names `excluded`.
pub fn forwards(
    target: WatchTarget,
    kind: ChangeKind,
    paths: &Vec<Vec<String>>,
    root: &Vec<String>,
    excluded: &Vec<String>,
) -> (r: bool)
    ensures
        r == is_forwarded(
            target,
            kind,
            paths_view(paths@),
            texts(root@),
            texts(excluded@),
        ),
{
    if !change_worthy(target, kind) {
        return false;
    }
    let ghost all = paths_view(paths@);
    let mut k: usize = 0;
    while k < paths.len()
        invariant
            k <= paths.len(),
            all == paths_view(paths@),
            forall|j: int| 0 <= j < k ==> !is_excluded_path(all[j], texts(root@), texts(excluded@)),
        decreases paths.len() - k,
    {
        if path_excluded(&paths[k], root, excluded) {
            assert(all[k as int] == texts(paths@[k as int]@));
            return false;
        }
        k += 1;
    }
    true
}

/// The number of notifications that the host gets for one event.
pub fn notifications(
    target: WatchTarget,
    kind: ChangeKind,
    paths: &Vec<Vec<String>>,
    root: &Vec<String>,
    excluded: &Vec<String>,
) -> (n: usize)
    ensures
        n == notifications_for(
            is_forwarded(
                target,
                kind,
                paths_view(paths@),
                texts(root@),
                texts(excluded@),
            ),
        ),
{
    if forwards(target, kind, paths, root, excluded) {
        1
    } else {
        0
    }
}

/// The exclusions are applied to the part of a path below the root of the
/// watch: whatever the components of the root are, a path under it is
/// excluded exactly if a component below the root is an excluded name.
pub proof fn lemma_exclusion_is_relative(
    root: Seq<Seq<char>>,
    relative: Seq<Seq<char>>,
    excluded: Seq<Seq<char>>,
)
    ensures
        is_excluded_path(root + relative, root, excluded) == names_excluded(relative, excluded),
{
    assert((root + relative).take(root.len() as int) =~= root);
    assert((root + relative).skip(root.len() as int) =~= relative);
}

/// A creation under an excluded name gives the host no notification, and a
/// creation at a path under the root without an excluded name gives it
/// exactly one.
pub proof fn lemma_creation_notifications(
    target: WatchTarget,
    root: Seq<Seq<char>>,
    relative: Seq<Seq<char>>,
    excluded: Seq<Seq<char>>,
)
    ensures
        names_excluded(relative, excluded) ==> notifications_for(
            is_forwarded(target, ChangeKind::Create, seq![root + relative], root, excluded),
        ) == 0,
        !names_excluded(relative, excluded) ==> notifications_for(
            is_forwarded(target, ChangeKind::Create, seq![root + relative], root, excluded),
        ) == 1,
{
    lemma_exclusion_is_relative(root, relative, excluded);
    let paths = seq![root + relative];
    if names_excluded(relative, excluded) {
        assert(is_excluded_path(paths[0], root, excluded));
    }
}

/// One watch: what is watched, where, what is left out, and the handle that
/// keeps the native watcher alive.
pub struct WatchSession<W> {
    pub target: WatchTarget,
    pub root: Vec<String>,
    pub excluded: Vec<String>,
    pub handle: W,
}

impl<W> WatchSession<W> {
    /// A watch of `target` rooted at `root`, kept alive by `handle`, with
    /// the exclusions of its target.
    pub fn new(target: WatchTarget, root: Vec<String>, handle: W) -> (session: WatchSession<W>)
        ensures
            session.target == target,
            session.root == root,
            texts(session.excluded@) == exclusions_of(target),
            session.handle == handle,
    {
        WatchSession { target, root, excluded: exclusions(target), handle }
    }

    /// Whether this watch passes an event on to the host.
    pub fn forwards(&self, kind: ChangeKind, paths: &Vec<Vec<String>>) -> (r: bool)
        ensures
            r == is_forwarded(
                self.target,
                kind,
                paths_view(paths@),
                texts(self.root@),
                texts(self.excluded@),
            ),
    {
        forwards(self.target, kind, paths, &self.root, &self.excluded)
    }
}

/// The watches that are active: at most one for each target.
pub struct WatchRegistry<W> {
    features: Option<WatchSession<W>>,
    project: Option<WatchSession<W>>,
}

impl<W> WatchRegistry<W> {
    /// The watch of `target`, if one is active.
    pub closed spec fn session(&self, target: WatchTarget) -> Option<WatchSession<W>> {
        match target {
            WatchTarget::Features => self.features,
            WatchTarget::Project => self.project,
        }
    }

    /// A registry without watches.
    pub fn new() -> (registry: WatchRegistry<W>)
        ensures
            forall|target: WatchTarget| registry.session(target) is None,
    {
        WatchRegistry { features: None, project: None }
    }

    /// Whether a watch of `target` is active.
    pub fn is_active(&self, target: WatchTarget) -> (active: bool)
        ensures
            active == self.session(target) is Some,
    {
        match target {
            WatchTarget::Features => self.features.is_some(),
            WatchTarget::Project => self.project.is_some(),
        }
    }

    /// Makes `session` the watch of its target. The watch that it replaces,
    /// if any, comes back to be torn down; the watch of the other target
    /// stays.
    pub fn install(&mut self, session: WatchSession<W>) -> (replaced: Option<WatchSession<W>>)
        ensures
            final(self).session(session.target) == Some(session),
            replaced == old(self).session(session.target),
            forall|other: WatchTarget|
                other != session.target ==> final(self).session(other) == old(self).session(other),
    {
        match session.target {
            WatchTarget::Features => {
                let replaced = self.features.take();
                self.features = Some(session);
                replaced
            },
            WatchTarget::Project => {
                let replaced = self.project.take();
                self.project = Some(session);
                replaced
            },
        }
    }

    /// Ends the attempt to start a watch of `target` at `root`. Where the
    /// host registered a watcher, the new watch takes the place of the old
    /// one, which comes back to be torn down. Where it failed, the failure
    /// is reported and every watch stays as it was.
    pub fn finish_start(
        &mut self,
        target: WatchTarget,
        root: Vec<String>,
        registration: Result<W, String>,
    ) -> (r: Result<Option<WatchSession<W>>, String>)
        ensures
            match registration {
                Ok(handle) => r == Ok::<Option<WatchSession<W>>, String>(
                    old(self).session(target),
                ) && (final(self).session(target) matches Some(s) && s.target == target && s.root
                    == root && s.handle == handle && texts(s.excluded@) == exclusions_of(target)),
                Err(message) => r == Err::<Option<WatchSession<W>>, String>(message)
                    && final(self).session(target) == old(self).session(target),
            },
            forall|other: WatchTarget|
                other != target ==> final(self).session(other) == old(self).session(other),
    {
        match registration {
            Ok(handle) => Ok(self.install(WatchSession::new(target, root, handle))),
            Err(message) => Err(message),
        }
    }

    /// Takes every watch out of the registry, to be torn down when the host
    /// shuts down: the watch of the feature files and the watch of the
    /// project.
    pub fn stop_all(&mut self) -> (stopped: (Option<WatchSession<W>>, Option<WatchSession<W>>))
        ensures
            forall|target: WatchTarget| final(self).session(target) is None,
            stopped.0 == old(self).session(WatchTarget::Features),
            stopped.1 == old(self).session(WatchTarget::Project),
    {
        (self.features.take(), self.project.take())
    }
}

/// Why a watch of `target` cannot start where the directory to watch is
/// missing.
pub fn missing_root_message(target: WatchTarget) -> (message: String)
    ensures
        message@ == match target {
            WatchTarget::Features => "Features directory does not exist"@,
            WatchTarget::Project => "Project directory does not exist"@,
        },
{
    match target {
        WatchTarget::Features => "Features directory does not exist".to_owned(),
        WatchTarget::Project => "Project directory does not exist".to_owned(),
    }
}

/// The directory of the feature files, as the components that lead to it
/// from the project directory.
pub fn features_subpath() -> (path: Vec<String>)
    ensures
        texts(path@) == seq![".prompts"@, "features"@],
{
    let mut path: Vec<String> = Vec::new();
    path.push(".prompts".to_owned());
    path.push("features".to_owned());
    assert(texts(path@) =~= seq![".prompts"@, "features"@]);
    path
}

} // verus!
