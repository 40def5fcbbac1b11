//! Global settings: the last used project and the list of recent projects.

use crate::order::lowercase;
use crate::text::{chars_of, same_text};
use vstd::prelude::*;
use vstd::string::*;

verus! {

/// The most recent projects kept in the list.
pub const MAX_RECENT_PROJECTS: usize = 10;

/// A project directory and the moment it was last opened.
#[derive(Debug, Clone)]
pub struct LastProject {
    pub path: String,
    pub last_accessed: String,
}

/// What a `LastProject` holds, as character sequences.
pub struct LastProjectView {
    pub path: Seq<char>,
    pub last_accessed: Seq<char>,
}

impl View for LastProject {
    type V = LastProjectView;

    open spec fn view(&self) -> LastProjectView {
        LastProjectView { path: self.path@, last_accessed: self.last_accessed@ }
    }
}

/// The settings shared by all projects.
#[derive(Debug, Clone)]
pub struct GlobalSettings {
    pub version: u32,
    pub last_used_project: Option<LastProject>,
    pub recent_projects: Vec<LastProject>,
    pub project_link_domains: Vec<String>,
}

/// The entries of a project list, each by its view.
pub open spec fn project_views(projects: Seq<LastProject>) -> Seq<LastProjectView> {
    projects.map_values(|p: LastProject| p@)
}

/// How two paths are held against each other to tell whether they name
/// the same project.
#[derive(Debug, Clone, Copy, PartialEq, Eq, Structural)]
pub enum PathComparison {
    /// Character by character.
    Exact,
    /// By their lower case forms, for file systems that take no account of
    /// case.
    IgnoreCase,
    /// Character by character, an ASCII letter being the same in both
    /// cases.
    IgnoreAsciiCase,
}

/// Whether a character is an ASCII capital letter.
pub open spec fn is_ascii_capital(c: char) -> bool {
    'A' as u32 <= c as u32 <= 'Z' as u32
}

/// Whether two characters are the same, an ASCII letter being the same in
/// both cases: the small letter stands 32 places after its capital.
pub open spec fn same_letter(a: char, b: char) -> bool {
    ||| a == b
    ||| (is_ascii_capital(a) && b as u32 == a as u32 + 32)
    ||| (is_ascii_capital(b) && a as u32 == b as u32 + 32)
}

/// Whether two texts are the same, an ASCII letter being the same in both
/// cases.
pub open spec fn same_ignoring_ascii_case(a: Seq<char>, b: Seq<char>) -> bool {
    a.len() == b.len() && forall|i: int| 0 <= i < a.len() ==> same_letter(a[i], b[i])
}

/// Whether two paths name the same project under a comparison.
pub open spec fn same_path(how: PathComparison, a: Seq<char>, b: Seq<char>) -> bool {
    match how {
        PathComparison::Exact => a == b,
        PathComparison::IgnoreCase => lowercase(a) == lowercase(b),
        PathComparison::IgnoreAsciiCase => same_ignoring_ascii_case(a, b),
    }
}

/// The entries of `projects` whose path is not `path` under the comparison
/// `how`, in their old order.
pub open spec fn without_path_by(
    projects: Seq<LastProjectView>,
    path: Seq<char>,
    how: PathComparison,
) -> Seq<LastProjectView> {
    projects.filter(|p: LastProjectView| !same_path(how, p.path, path))
}

/// The entries of `projects` whose path is not `path`, in their old order.
pub open spec fn without_path(projects: Seq<LastProjectView>, path: Seq<char>) -> Seq<
    LastProjectView,
> {
    without_path_by(projects, path, PathComparison::Exact)
}

/// The list after `path` was opened at `timestamp`: the new entry first, then
/// the entries for other paths under the comparison `how` in their old
/// order, cut to `MAX_RECENT_PROJECTS`.
pub open spec fn with_recent_by(
    projects: Seq<LastProjectView>,
    path: Seq<char>,
    timestamp: Seq<char>,
    how: PathComparison,
) -> Seq<LastProjectView> {
    let all = seq![LastProjectView { path: path, last_accessed: timestamp }] + without_path_by(
        projects,
        path,
        how,
    );
    if all.len() > MAX_RECENT_PROJECTS {
        all.take(MAX_RECENT_PROJECTS as int)
    } else {
        all
    }
}

/// The list after `path` was opened at `timestamp`: the new entry first, then
/// the other entries in their old order, cut to `MAX_RECENT_PROJECTS`.
pub open spec fn with_recent(
    projects: Seq<LastProjectView>,
    path: Seq<char>,
    timestamp: Seq<char>,
) -> Seq<LastProjectView> {
    with_recent_by(projects, path, timestamp, PathComparison::Exact)
}

/// The last used project after `path` was removed from the settings, paths
/// compared as `how` says.
pub open spec fn last_used_without_by(
    last: Option<LastProject>,
    path: Seq<char>,
    how: PathComparison,
) -> Option<LastProject> {
    match last {
        Some(p) => if same_path(how, p.path@, path) {
            None
        } else {
            Some(p)
        },
        None => None,
    }
}

/// The last used project after `path` was removed from the settings.
pub open spec fn last_used_without(last: Option<LastProject>, path: Seq<char>) -> Option<
    LastProject,
> {
    last_used_without_by(last, path, PathComparison::Exact)
}

impl Default for GlobalSettings {
    fn default() -> (s: GlobalSettings)
        ensures
            s.version == 1,
            s.last_used_project is None,
            s.recent_projects@.len() == 0,
            s.project_link_domains@.len() == 0,
    {
        GlobalSettings {
            version: 1,
            last_used_project: None,
            recent_projects: Vec::new(),
            project_link_domains: Vec::new(),
        }
    }
}

/// Whether two characters are the same, an ASCII letter being the same in
/// both cases.
fn letters_match(a: char, b: char) -> (r: bool)
    ensures
        r == same_letter(a, b),
{
    let x: u32 = a as u32;
    let y: u32 = b as u32;
    if a == b {
        true
    } else if 'A' as u32 <= x && x <= 'Z' as u32 && y == x + 32 {
        true
    } else {
        'A' as u32 <= y && y <= 'Z' as u32 && x == y + 32
    }
}

/// Whether two paths name the same project under a comparison.
pub fn paths_match(how: PathComparison, a: &str, b: &str) -> (r: bool)
    ensures
        r == same_path(how, a@, b@),
{
    match how {
        PathComparison::Exact => same_text(a, b),
        PathComparison::IgnoreCase => same_text(a.to_lowercase().as_str(), b.to_lowercase().as_str()),
        PathComparison::IgnoreAsciiCase => {
            let x = chars_of(a);
            let y = chars_of(b);
            if x.len() != y.len() {
                return false;
            }
            let mut i: usize = 0;
            while i < x.len()
                invariant
                    i <= x.len(),
                    x.len() == y.len(),
                    x@ == a@,
                    y@ == b@,
                    how == PathComparison::IgnoreAsciiCase,
                    forall|k: int| 0 <= k < i ==> same_letter(x@[k], y@[k]),
                decreases x.len() - i,
            {
                if !letters_match(x[i], y[i]) {
                    assert(!same_letter(a@[i as int], b@[i as int]));
                    return false;
                }
                i += 1;
            }
            true
        },
    }
}

/// Moves the entries of `projects` whose path is not `path` under the
/// comparison `how` into a new list, keeping their order.
fn drop_path(projects: Vec<LastProject>, path: &str, how: PathComparison) -> (kept: Vec<
    LastProject,
>)
    ensures
        project_views(kept@) == without_path_by(project_views(projects@), path@, how),
{
    let ghost all = project_views(projects@);
    let ghost wanted = |p: LastProjectView| !same_path(how, p.path, path@);
    let mut kept: Vec<LastProject> = Vec::new();
    assert(all.take(0).filter(wanted) =~= Seq::<LastProjectView>::empty());
    assert(project_views(kept@) =~= Seq::<LastProjectView>::empty());
    for p in it: projects
        invariant
            it.seq() == projects@,
            all == project_views(projects@),
            wanted == |p: LastProjectView| !same_path(how, p.path, path@),
            project_views(kept@) == all.take(it.index() as int).filter(wanted),
    {
        let ghost i = it.index() as int;
        let ghost before = project_views(kept@);
        proof {
            assert(all.take(i + 1).drop_last() =~= all.take(i));
            assert(all.take(i + 1).last() == p@);
            reveal(Seq::filter);
        }
        if !paths_match(how, p.path.as_str(), path) {
            kept.push(p);
            assert(project_views(kept@) =~= before.push(p@));
        }
    }
    assert(all.take(projects@.len() as int) =~= all);
    kept
}

/// Records that `path` was opened at `timestamp`, paths compared as `how`
/// says: an older entry for the same path is dropped, the new entry comes
/// first, and at most `MAX_RECENT_PROJECTS` entries are kept.
pub fn add_recent_project_by(
    settings: &mut GlobalSettings,
    path: String,
    timestamp: String,
    how: PathComparison,
)
    ensures
        project_views(final(settings).recent_projects@) == with_recent_by(
            project_views(old(settings).recent_projects@),
            path@,
            timestamp@,
            how,
        ),
        final(settings).version == old(settings).version,
        final(settings).last_used_project == old(settings).last_used_project,
        final(settings).project_link_domains == old(settings).project_link_domains,
{
    let ghost before = project_views(settings.recent_projects@);
    let mut projects: Vec<LastProject> = Vec::new();
    std::mem::swap(&mut projects, &mut settings.recent_projects);
    let mut kept = drop_path(projects, path.as_str(), how);
    let entry = LastProject { path: path, last_accessed: timestamp };
    kept.insert(0, entry);
    assert(project_views(kept@) =~= seq![entry@] + without_path_by(before, path@, how));
    if kept.len() > MAX_RECENT_PROJECTS {
        kept.truncate(MAX_RECENT_PROJECTS);
        assert(project_views(kept@) =~= (seq![entry@] + without_path_by(before, path@, how)).take(
            MAX_RECENT_PROJECTS as int,
        ));
    }
    settings.recent_projects = kept;
}

/// Records that `path` was opened at `timestamp`: an older entry for the same
/// path is dropped, the new entry comes first, and at most
/// `MAX_RECENT_PROJECTS` entries are kept.
pub fn add_recent_project(settings: &mut GlobalSettings, path: String, timestamp: String)
    ensures
        project_views(final(settings).recent_projects@) == with_recent(
            project_views(old(settings).recent_projects@),
            path@,
            timestamp@,
        ),
        final(settings).version == old(settings).version,
        final(settings).last_used_project == old(settings).last_used_project,
        final(settings).project_link_domains == old(settings).project_link_domains,
{
    add_recent_project_by(settings, path, timestamp, PathComparison::Exact);
}

/// Forgets `path`, paths compared as `how` says: its entry leaves the list
/// of recent projects, and the last used project is cleared if it is `path`.
pub fn remove_recent_project_by(settings: &mut GlobalSettings, path: &str, how: PathComparison)
    ensures
        project_views(final(settings).recent_projects@) == without_path_by(
            project_views(old(settings).recent_projects@),
            path@,
            how,
        ),
        final(settings).last_used_project == last_used_without_by(
            old(settings).last_used_project,
            path@,
            how,
        ),
        final(settings).version == old(settings).version,
        final(settings).project_link_domains == old(settings).project_link_domains,
{
    let mut projects: Vec<LastProject> = Vec::new();
    std::mem::swap(&mut projects, &mut settings.recent_projects);
    settings.recent_projects = drop_path(projects, path, how);
    let matches = match &settings.last_used_project {
        Some(last) => paths_match(how, last.path.as_str(), path),
        None => false,
    };
    if matches {
        settings.last_used_project = None;
    }
}

/// Forgets `path`: its entry leaves the list of recent projects, and the last
/// used project is cleared if it is `path`.
pub fn remove_recent_project(settings: &mut GlobalSettings, path: &str)
    ensures
        project_views(final(settings).recent_projects@) == without_path(
            project_views(old(settings).recent_projects@),
            path@,
        ),
        final(settings).last_used_project == last_used_without(
            old(settings).last_used_project,
            path@,
        ),
        final(settings).version == old(settings).version,
        final(settings).project_link_domains == old(settings).project_link_domains,
{
    remove_recent_project_by(settings, path, PathComparison::Exact);
}

/// Whether no two entries of a list are for the same path.
pub open spec fn paths_distinct(projects: Seq<LastProjectView>) -> bool {
    forall|i: int, j: int|
        0 <= i < j < projects.len() ==> (#[trigger] projects[i]).path != (#[trigger] projects[j]).path
}

/// The entries left after a path was taken out are entries of the old
/// list, none of them is for that path, and they are for different paths if
/// the old ones were.
proof fn lemma_without_path(projects: Seq<LastProjectView>, path: Seq<char>)
    ensures
        without_path(projects, path).len() <= projects.len(),
        forall|k: int|
            0 <= k < without_path(projects, path).len() ==> (#[trigger] without_path(
                projects,
                path,
            )[k]).path != path && exists|i: int|
                0 <= i < projects.len() && #[trigger] projects[i] == without_path(projects, path)[k],
        paths_distinct(projects) ==> paths_distinct(without_path(projects, path)),
    decreases projects.len(),
{
    reveal(Seq::filter);
    let kept = without_path(projects, path);
    if projects.len() > 0 {
        let shorter = projects.drop_last();
        let before = without_path(shorter, path);
        lemma_without_path(shorter, path);
        assert forall|k: int| 0 <= k < kept.len() implies (#[trigger] kept[k]).path != path
            && exists|i: int| 0 <= i < projects.len() && #[trigger] projects[i] == kept[k] by {
            if k < before.len() {
                assert(kept[k] == before[k]);
                let i = choose|i: int| 0 <= i < shorter.len() && #[trigger] shorter[i] == before[k];
                assert(projects[i] == kept[k]);
            } else {
                assert(projects[projects.len() - 1] == kept[k]);
            }
        }
        if paths_distinct(projects) {
            assert(paths_distinct(shorter)) by {
                assert forall|i: int, j: int| 0 <= i < j < shorter.len() implies (
                #[trigger] shorter[i]).path != (#[trigger] shorter[j]).path by {
                    assert(shorter[i] == projects[i] && shorter[j] == projects[j]);
                }
            }
            assert forall|i: int, j: int| 0 <= i < j < kept.len() implies (#[trigger] kept[i]).path
                != (#[trigger] kept[j]).path by {
                if j < before.len() {
                    assert(kept[i] == before[i] && kept[j] == before[j]);
                } else {
                    assert(kept[i] == before[i]);
                    assert(kept[j] == projects[projects.len() - 1]);
                    let a = choose|a: int|
                        0 <= a < shorter.len() && #[trigger] shorter[a] == before[i];
                    assert(projects[a] == kept[i]);
                }
            }
        }
    }
}

/// The list of recent projects after a project was opened begins with
/// that project, holds at most `MAX_RECENT_PROJECTS` entries, and has one
/// entry for each path if the old list had.
pub proof fn lemma_recent_list_is_short_and_distinct(
    projects: Seq<LastProjectView>,
    path: Seq<char>,
    timestamp: Seq<char>,
)
    ensures
        1 <= with_recent(projects, path, timestamp).len() <= MAX_RECENT_PROJECTS,
        with_recent(projects, path, timestamp)[0] == (LastProjectView {
            path: path,
            last_accessed: timestamp,
        }),
        paths_distinct(projects) ==> paths_distinct(with_recent(projects, path, timestamp)),
{
    lemma_without_path(projects, path);
    let entry = LastProjectView { path: path, last_accessed: timestamp };
    let kept = without_path(projects, path);
    let all = seq![entry] + kept;
    let list = with_recent(projects, path, timestamp);
    assert(all[0] == entry);
    assert forall|i: int| 0 <= i < list.len() implies #[trigger] list[i] == all[i] by {}
    if paths_distinct(projects) {
        assert forall|i: int, j: int| 0 <= i < j < list.len() implies (#[trigger] list[i]).path != (
        #[trigger] list[j]).path by {
            assert(list[i] == all[i] && list[j] == all[j]);
            assert(all[j] == kept[j - 1]);
            if i > 0 {
                assert(all[i] == kept[i - 1]);
            }
        }
    }
}

/// Why a path cannot be taken as a project, by what the host found at it:
/// nothing, or something that is no directory. `None` where it is a
/// directory.
pub open spec fn project_path_problem(path: Seq<char>, exists: bool, is_dir: bool) -> Option<
    Seq<char>,
> {
    if !exists {
        Some("Path does not exist: "@ + path)
    } else if !is_dir {
        Some("Path is not a directory: "@ + path)
    } else {
        None
    }
}

/// Checks that a path can be taken as a project, from what the host found
/// at it.
pub fn check_project_path(path: &str, exists: bool, is_dir: bool) -> (r: Result<(), String>)
    ensures
        match project_path_problem(path@, exists, is_dir) {
            Some(problem) => r matches Err(message) && message@ == problem,
            None => r is Ok,
        },
{
    if !exists {
        Err("Path does not exist: ".to_owned().concat(path))
    } else if !is_dir {
        Err("Path is not a directory: ".to_owned().concat(path))
    } else {
        Ok(())
    }
}

/// Makes `path` the last used project, opened at `timestamp`, and records
/// it among the recent projects, paths compared as `how` says.
pub fn set_last_project_by(
    settings: &mut GlobalSettings,
    path: String,
    timestamp: String,
    how: PathComparison,
)
    ensures
        final(settings).last_used_project matches Some(last) && last@ == (LastProjectView {
            path: path@,
            last_accessed: timestamp@,
        }),
        project_views(final(settings).recent_projects@) == with_recent_by(
            project_views(old(settings).recent_projects@),
            path@,
            timestamp@,
            how,
        ),
        final(settings).version == old(settings).version,
        final(settings).project_link_domains == old(settings).project_link_domains,
{
    settings.last_used_project = Some(
        LastProject { path: path.clone(), last_accessed: timestamp.clone() },
    );
    add_recent_project_by(settings, path, timestamp, how);
}

/// Makes `path` the last used project, opened at `timestamp`, and records
/// it among the recent projects.
pub fn set_last_project(settings: &mut GlobalSettings, path: String, timestamp: String)
    ensures
        final(settings).last_used_project matches Some(last) && last@ == (LastProjectView {
            path: path@,
            last_accessed: timestamp@,
        }),
        project_views(final(settings).recent_projects@) == with_recent(
            project_views(old(settings).recent_projects@),
            path@,
            timestamp@,
        ),
        final(settings).version == old(settings).version,
        final(settings).project_link_domains == old(settings).project_link_domains,
{
    set_last_project_by(settings, path, timestamp, PathComparison::Exact);
}

/// Forgets the last used project; the recent projects stay.
pub fn clear_last_project(settings: &mut GlobalSettings)
    ensures
        final(settings).last_used_project is None,
        final(settings).version == old(settings).version,
        final(settings).recent_projects == old(settings).recent_projects,
        final(settings).project_link_domains == old(settings).project_link_domains,
{
    settings.last_used_project = None;
}

/// The recent projects, most recent first.
pub fn get_recent_projects(settings: &GlobalSettings) -> (projects: Vec<LastProject>)
    ensures
        project_views(projects@) == project_views(settings.recent_projects@),
{
    let mut projects: Vec<LastProject> = Vec::new();
    let mut i: usize = 0;
    while i < settings.recent_projects.len()
        invariant
            i <= settings.recent_projects.len(),
            project_views(projects@) == project_views(settings.recent_projects@).take(i as int),
        decreases settings.recent_projects.len() - i,
    {
        let p = &settings.recent_projects[i];
        let copy = LastProject { path: p.path.clone(), last_accessed: p.last_accessed.clone() };
        let ghost before = project_views(projects@);
        projects.push(copy);
        assert(project_views(projects@) =~= before.push(copy@));
        assert(project_views(settings.recent_projects@).take(i + 1) =~= project_views(
            settings.recent_projects@,
        ).take(i as int).push(p@));
        i += 1;
    }
    assert(project_views(settings.recent_projects@).take(i as int) =~= project_views(
        settings.recent_projects@,
    ));
    projects
}

} // verus!
