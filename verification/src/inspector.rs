//! Project inspection: which runnable applications a project holds.
//!
//! The host reads the files; the functions here decide, from what was read,
//! which application is launched and how.

use crate::json::{json_object_keys, key_listing_view, object_keys};
use crate::text::{
    chars_of, contains, is_substring, join, join_first, joined, list_contains, opt_text, texts,
};
use vstd::prelude::*;
use vstd::string::*;

verus! {

/// How a detected application is started.
#[derive(Debug, Clone)]
pub struct AppInfo {
    /// `"npm"` or `"dotnet"`.
    pub app_type: String,
    /// For `"dotnet"` the project file, relative to the project directory;
    /// for `"npm"` the subdirectory that holds the manifest, if it is not the
    /// project directory itself.
    pub project_file: Option<String>,
    /// For `"npm"` the name of the script to run.
    pub command: Option<String>,
}

/// What an `AppInfo` holds, as character sequences.
pub struct AppInfoView {
    pub app_type: Seq<char>,
    pub project_file: Option<Seq<char>>,
    pub command: Option<Seq<char>>,
}

impl View for AppInfo {
    type V = AppInfoView;

    open spec fn view(&self) -> AppInfoView {
        AppInfoView {
            app_type: self.app_type@,
            project_file: opt_text(self.project_file),
            command: opt_text(self.command),
        }
    }
}

/// A started application as the host sees it.
#[derive(Debug)]
pub struct RunningAppInfo {
    pub pid: u32,
    pub url: Option<String>,
}

/// The outcome of a detection, by the views of what it holds.
pub open spec fn detection_view(r: Result<Option<AppInfo>, String>) -> Result<
    Option<AppInfoView>,
    Seq<char>,
> {
    match r {
        Ok(Some(info)) => Ok(Some(info@)),
        Ok(None) => Ok(None),
        Err(e) => Err(e@),
    }
}

/// The descriptor of a script-runner application that runs `script`.
pub open spec fn npm_app(script: Seq<char>) -> AppInfoView {
    AppInfoView { app_type: "npm"@, project_file: None, command: Some(script) }
}

/// The descriptor of a managed-runtime web project defined by `project_file`.
pub open spec fn dotnet_app(project_file: Seq<char>) -> AppInfoView {
    AppInfoView { app_type: "dotnet"@, project_file: Some(project_file), command: None }
}

/// The script names that make a manifest runnable, most preferred first.
pub open spec fn script_priority() -> Seq<Seq<char>> {
    seq!["dev"@, "start"@, "serve"@, "preview"@]
}

/// The script that is run where a manifest declares the scripts `declared`:
/// the most preferred name that is declared.
pub open spec fn preferred_script(declared: Seq<Seq<char>>) -> Option<Seq<char>> {
    if declared.contains("dev"@) {
        Some("dev"@)
    } else if declared.contains("start"@) {
        Some("start"@)
    } else if declared.contains("serve"@) {
        Some("serve"@)
    } else if declared.contains("preview"@) {
        Some("preview"@)
    } else {
        None
    }
}

/// The script to run for a manifest that declares the scripts `declared`.
pub fn select_script(declared: &Vec<String>) -> (r: Option<String>)
    ensures
        opt_text(r) == preferred_script(texts(declared@)),
{
    if list_contains(declared, "dev") {
        Some("dev".to_owned())
    } else if list_contains(declared, "start") {
        Some("start".to_owned())
    } else if list_contains(declared, "serve") {
        Some("serve".to_owned())
    } else if list_contains(declared, "preview") {
        Some("preview".to_owned())
    } else {
        None
    }
}

/// The choice of script depends on which names are declared, not on the
/// order in which the manifest lists them.
pub proof fn lemma_selection_ignores_order(a: Seq<Seq<char>>, b: Seq<Seq<char>>)
    requires
        a.to_set() == b.to_set(),
    ensures
        preferred_script(a) == preferred_script(b),
{
    assert forall|name: Seq<char>| a.contains(name) == b.contains(name) by {
        assert(a.contains(name) == a.to_set().contains(name));
        assert(b.contains(name) == b.to_set().contains(name));
    }
}

/// The chosen script is the first name of the priority order that the
/// manifest declares, and none is chosen only where it declares none of them.
pub proof fn lemma_selection_is_first_declared(declared: Seq<Seq<char>>)
    ensures
        match preferred_script(declared) {
            Some(script) => exists|i: int|
                0 <= i < script_priority().len() && script_priority()[i] == script
                    && declared.contains(script) && forall|j: int|
                    0 <= j < i ==> !declared.contains(#[trigger] script_priority()[j]),
            None => forall|j: int|
                0 <= j < script_priority().len() ==> !declared.contains(
                    #[trigger] script_priority()[j],
                ),
        },
{
    let p = script_priority();
    assert(p.len() == 4 && p[0] == "dev"@ && p[1] == "start"@ && p[2] == "serve"@ && p[3]
        == "preview"@);
    if declared.contains("dev"@) {
        assert(p[0] == "dev"@);
    } else if declared.contains("start"@) {
        assert(p[1] == "start"@);
    } else if declared.contains("serve"@) {
        assert(p[2] == "serve"@);
    } else if declared.contains("preview"@) {
        assert(p[3] == "preview"@);
    }
}

/// What the inspection of a manifest gives, from the keys of its `scripts`
/// object as `json_object_keys` names them.
pub open spec fn npm_detection(scripts: Result<Option<Seq<Seq<char>>>, Seq<char>>) -> Result<
    Option<AppInfoView>,
    Seq<char>,
> {
    match scripts {
        Err(e) => Err("Failed to parse package.json: "@ + e),
        Ok(None) => Ok(None),
        Ok(Some(declared)) => match preferred_script(declared) {
            Some(script) => Ok(Some(npm_app(script))),
            None => Ok(None),
        },
    }
}

/// Decides from the keys of a manifest's `scripts` object whether the
/// manifest is runnable, and with which script.
pub fn npm_app_from_scripts(scripts: Result<Option<Vec<String>>, String>) -> (r: Result<
    Option<AppInfo>,
    String,
>)
    ensures
        detection_view(r) == npm_detection(key_listing_view(scripts)),
{
    match scripts {
        Err(e) => {
            let message = "Failed to parse package.json: ".to_owned();
            Err(message.concat(e.as_str()))
        },
        Ok(None) => Ok(None),
        Ok(Some(declared)) => match select_script(&declared) {
            Some(script) => Ok(
                Some(
                    AppInfo { app_type: "npm".to_owned(), project_file: None, command: Some(script) },
                ),
            ),
            None => Ok(None),
        },
    }
}

/// Inspects the text of a package manifest: the application is runnable if
/// its `scripts` object declares one of `dev`, `start`, `serve`, `preview`,
/// and the first of these that is declared is the script to run.
pub fn detect_npm_app(manifest: &str) -> (r: Result<Option<AppInfo>, String>)
    ensures
        detection_view(r) == npm_detection(json_object_keys(manifest@, "scripts"@)),
{
    npm_app_from_scripts(object_keys(manifest, "scripts"))
}

/// The application that is started where none was chosen by hand: the
/// script-runner application of the project directory if there is one, else
/// the managed-runtime web project if there is one. The second inspection
/// counts only where the first found nothing, failures included.
pub open spec fn runnable_app(
    npm: Result<Option<AppInfoView>, Seq<char>>,
    dotnet: Result<Option<AppInfoView>, Seq<char>>,
) -> Result<Option<AppInfoView>, Seq<char>> {
    match npm {
        Ok(None) => dotnet,
        _ => npm,
    }
}

/// Picks the application that is started where none was chosen by hand.
pub fn detect_runnable_app(
    npm: Result<Option<AppInfo>, String>,
    dotnet: Result<Option<AppInfo>, String>,
) -> (r: Result<Option<AppInfo>, String>)
    ensures
        detection_view(r) == runnable_app(detection_view(npm), detection_view(dotnet)),
{
    match npm {
        Ok(None) => dotnet,
        _ => npm,
    }
}

/// The applications of a list, each by its view.
pub open spec fn app_views(apps: Seq<AppInfo>) -> Seq<AppInfoView> {
    apps.map_values(|a: AppInfo| a@)
}

/// The list of the applications of a project, most preferred first: the
/// script-runner applications in the order in which they were found, then
/// the managed-runtime web project.
pub fn classify(npm: Vec<AppInfo>, dotnet: Option<AppInfo>) -> (apps: Vec<AppInfo>)
    ensures
        app_views(apps@) == app_views(npm@) + match dotnet {
            Some(app) => seq![app@],
            None => Seq::<AppInfoView>::empty(),
        },
{
    let mut apps = npm;
    match dotnet {
        Some(app) => {
            let ghost before = app_views(apps@);
            apps.push(app);
            assert(app_views(apps@) =~= before + seq![app@]);
        },
        None => {
            assert(app_views(apps@) =~= app_views(apps@) + Seq::<AppInfoView>::empty());
        },
    }
    apps
}

/// A package manifest that the host found, in the order of the walk.
#[derive(Debug)]
pub struct ManifestFile {
    /// The components of its path, from the project directory on; the last
    /// one is the name of the manifest itself.
    pub path: Vec<String>,
    /// Its text, or the message of the failed read.
    pub content: Result<String, String>,
}

/// What a `ManifestFile` holds, as character sequences.
pub struct ManifestFileView {
    pub path: Seq<Seq<char>>,
    pub content: Result<Seq<char>, Seq<char>>,
}

/// The directory of the file at `path`, relative to the project directory
/// and written with `separator` between its components; `None` for a file
/// of the project directory itself.
pub open spec fn directory_of(path: Seq<Seq<char>>, separator: Seq<char>) -> Option<Seq<char>> {
    if path.len() > 1 {
        Some(joined(path.drop_last(), separator))
    } else {
        None
    }
}

impl View for ManifestFile {
    type V = ManifestFileView;

    open spec fn view(&self) -> ManifestFileView {
        ManifestFileView {
            path: texts(self.path@),
            content: match self.content {
                Ok(text) => Ok(text@),
                Err(e) => Err(e@),
            },
        }
    }
}

/// The manifests of a list, each by its view.
pub open spec fn manifest_views(files: Seq<ManifestFile>) -> Seq<ManifestFileView> {
    files.map_values(|f: ManifestFile| f@)
}

/// The outcome of a classification, by the views of what it holds.
pub open spec fn classification_view(r: Result<Vec<AppInfo>, String>) -> Result<
    Seq<AppInfoView>,
    Seq<char>,
> {
    match r {
        Ok(apps) => Ok(app_views(apps@)),
        Err(e) => Err(e@),
    }
}

/// The applications of `found` followed by those of `later`, unless `later`
/// is a failure.
pub open spec fn followed_by(found: Seq<AppInfoView>, later: Result<Seq<AppInfoView>, Seq<char>>)
    -> Result<Seq<AppInfoView>, Seq<char>> {
    match later {
        Ok(apps) => Ok(found + apps),
        Err(e) => Err(e),
    }
}

/// The script-runner applications of the manifests `files`, in their
/// order: every runnable manifest gives one application, which runs in the
/// directory of the manifest. A manifest that could not be read or is no
/// JSON ends the inspection with the message.
pub open spec fn npm_apps_of(files: Seq<ManifestFileView>, separator: Seq<char>) -> Result<
    Seq<AppInfoView>,
    Seq<char>,
>
    decreases files.len(),
{
    if files.len() == 0 {
        Ok(Seq::empty())
    } else {
        match files[0].content {
            Err(e) => Err(e),
            Ok(text) => match npm_detection(json_object_keys(text, "scripts"@)) {
                Err(e) => Err(e),
                Ok(Some(app)) => followed_by(
                    seq![
                        AppInfoView {
                            app_type: app.app_type,
                            project_file: directory_of(files[0].path, separator),
                            command: app.command,
                        },
                    ],
                    npm_apps_of(files.drop_first(), separator),
                ),
                Ok(None) => npm_apps_of(files.drop_first(), separator),
            },
        }
    }
}

/// The directory of the file at `path`, relative to the project directory.
fn directory(path: &Vec<String>, separator: &str) -> (dir: Option<String>)
    ensures
        opt_text(dir) == directory_of(texts(path@), separator@),
{
    if path.len() > 1 {
        assert(texts(path@).drop_last() =~= texts(path@).take(path@.len() - 1));
        Some(join_first(path, path.len() - 1, separator))
    } else {
        None
    }
}

/// Lists the script-runner applications among the package manifests of a
/// project; `separator` stands between the components of a path.
pub fn detect_all_npm_apps(files: &Vec<ManifestFile>, separator: &str) -> (r: Result<
    Vec<AppInfo>,
    String,
>)
    ensures
        classification_view(r) == npm_apps_of(manifest_views(files@), separator@),
{
    let ghost all = manifest_views(files@);
    let mut apps: Vec<AppInfo> = Vec::new();
    let mut i: usize = 0;
    proof {
        assert(all.skip(0) =~= all);
        assert(app_views(apps@) =~= Seq::<AppInfoView>::empty());
        match npm_apps_of(all, separator@) {
            Ok(found) => {
                assert(Seq::<AppInfoView>::empty() + found =~= found);
            },
            Err(_) => {},
        }
    }
    while i < files.len()
        invariant
            i <= files.len(),
            all == manifest_views(files@),
            npm_apps_of(all, separator@) == followed_by(
                app_views(apps@),
                npm_apps_of(all.skip(i as int), separator@),
            ),
        decreases files.len() - i,
    {
        let file = &files[i];
        let ghost before = app_views(apps@);
        proof {
            assert(all.skip(i as int)[0] == file@);
            assert(all.skip(i as int).drop_first() =~= all.skip(i + 1));
        }
        match &file.content {
            Err(e) => {
                return Err(e.clone());
            },
            Ok(text) => match detect_npm_app(text.as_str()) {
                Err(e) => {
                    return Err(e);
                },
                Ok(Some(app)) => {
                    let placed = AppInfo {
                        app_type: app.app_type,
                        project_file: directory(&file.path, separator),
                        command: app.command,
                    };
                    apps.push(placed);
                    proof {
                        assert(app_views(apps@) =~= before.push(placed@));
                        match npm_apps_of(all.skip(i + 1), separator@) {
                            Ok(later) => {
                                assert(before + (seq![placed@] + later) =~= before.push(placed@)
                                    + later);
                            },
                            Err(_) => {},
                        }
                    }
                },
                Ok(None) => {},
            },
        }
        i += 1;
    }
    proof {
        assert(app_views(apps@) + Seq::<AppInfoView>::empty() =~= app_views(apps@));
    }
    Ok(apps)
}

/// The list of a project's applications, from its package manifests and
/// its project definition files: the script-runner applications first, then
/// the managed-runtime web project. A failure of either inspection is the
/// outcome, that of the manifests first.
pub open spec fn project_classification(
    manifests: Seq<ManifestFileView>,
    project_files: Seq<ProjectFileView>,
    separator: Seq<char>,
) -> Result<Seq<AppInfoView>, Seq<char>> {
    match npm_apps_of(manifests, separator) {
        Err(e) => Err(e),
        Ok(npm) => match dotnet_detection(project_files, separator) {
            Err(e) => Err(e),
            Ok(Some(app)) => Ok(npm + seq![app]),
            Ok(None) => Ok(npm),
        },
    }
}

/// Lists the applications of a project, most preferred first; `separator`
/// stands between the components of a path.
pub fn classify_project(
    manifests: &Vec<ManifestFile>,
    project_files: &Vec<ProjectFile>,
    separator: &str,
) -> (r: Result<Vec<AppInfo>, String>)
    ensures
        classification_view(r) == project_classification(
            manifest_views(manifests@),
            project_file_views(project_files@),
            separator@,
        ),
{
    match detect_all_npm_apps(manifests, separator) {
        Err(e) => Err(e),
        Ok(npm) => match detect_dotnet_app(project_files, separator) {
            Err(e) => Err(e),
            Ok(dotnet) => {
                proof {
                    assert(app_views(npm@) + Seq::<AppInfoView>::empty() =~= app_views(npm@));
                }
                Ok(classify(npm, dotnet))
            },
        },
    }
}

/// The two types of application have different names.
pub proof fn lemma_app_types_differ()
    ensures
        "npm"@ != "dotnet"@,
{
    reveal_strlit("npm");
    reveal_strlit("dotnet");
    assert("npm"@.len() == 3);
    assert("dotnet"@.len() == 6);
}

/// Every application that the manifests give is a script-runner
/// application.
pub proof fn lemma_npm_apps_are_npm(files: Seq<ManifestFileView>, separator: Seq<char>)
    ensures
        npm_apps_of(files, separator) matches Ok(apps) ==> forall|k: int|
            0 <= k < apps.len() ==> (#[trigger] apps[k]).app_type == "npm"@ && apps[k].command
                is Some,
    decreases files.len(),
{
    if files.len() > 0 {
        lemma_npm_apps_are_npm(files.drop_first(), separator);
    }
}

/// In the list of a project's applications the script-runner applications
/// come first: no other application stands before one of them.
pub proof fn lemma_script_runners_come_first(
    manifests: Seq<ManifestFileView>,
    project_files: Seq<ProjectFileView>,
    separator: Seq<char>,
    i: int,
    j: int,
)
    requires
        project_classification(manifests, project_files, separator) matches Ok(apps) && 0 <= i
            < j < apps.len() && apps[j].app_type == "npm"@,
    ensures
        project_classification(manifests, project_files, separator) matches Ok(apps)
            && apps[i].app_type == "npm"@,
{
    lemma_npm_apps_are_npm(manifests, separator);
    lemma_app_types_differ();
}

/// Whether the text of a project definition file marks a web project: it
/// names the web SDK or one of the web framework packages.
pub open spec fn is_web_content(content: Seq<char>) -> bool {
    is_substring(content, "Microsoft.NET.Sdk.Web"@) || is_substring(
        content,
        "Microsoft.AspNetCore.App"@,
    ) || is_substring(content, "Microsoft.AspNetCore.All"@)
}

/// Whether the text of a project definition file marks a web project.
pub fn is_web_project(content: &str) -> (r: bool)
    ensures
        r == is_web_content(content@),
{
    let text = chars_of(content);
    contains(&text, &chars_of("Microsoft.NET.Sdk.Web")) || contains(
        &text,
        &chars_of("Microsoft.AspNetCore.App"),
    ) || contains(&text, &chars_of("Microsoft.AspNetCore.All"))
}

/// A project definition file that the host found, in the order of the walk.
#[derive(Debug)]
pub struct ProjectFile {
    /// The components of its path, from the project directory on.
    pub path: Vec<String>,
    /// Its text, or the message of the failed read.
    pub content: Result<String, String>,
}

/// What a `ProjectFile` holds, as character sequences.
pub struct ProjectFileView {
    pub path: Seq<Seq<char>>,
    pub content: Result<Seq<char>, Seq<char>>,
}

impl View for ProjectFile {
    type V = ProjectFileView;

    open spec fn view(&self) -> ProjectFileView {
        ProjectFileView {
            path: texts(self.path@),
            content: match self.content {
                Ok(text) => Ok(text@),
                Err(e) => Err(e@),
            },
        }
    }
}

/// The files of a list, each by its view.
pub open spec fn project_file_views(files: Seq<ProjectFile>) -> Seq<ProjectFileView> {
    files.map_values(|f: ProjectFile| f@)
}

/// What the inspection of the project definition files gives: the files are
/// taken in order; a file that could not be read ends the inspection with its
/// message; the first web project found is the application. Its project
/// file is named by its path relative to the project directory, written with
/// `separator` between the components.
pub open spec fn dotnet_detection(files: Seq<ProjectFileView>, separator: Seq<char>) -> Result<
    Option<AppInfoView>,
    Seq<char>,
>
    decreases files.len(),
{
    if files.len() == 0 {
        Ok(None)
    } else {
        match files[0].content {
            Err(e) => Err(e),
            Ok(text) => if is_web_content(text) {
                Ok(Some(dotnet_app(joined(files[0].path, separator))))
            } else {
                dotnet_detection(files.drop_first(), separator)
            },
        }
    }
}

/// Picks the application among the project definition files of a project;
/// `separator` stands between the components of a path.
pub fn detect_dotnet_app(files: &Vec<ProjectFile>, separator: &str) -> (r: Result<
    Option<AppInfo>,
    String,
>)
    ensures
        detection_view(r) == dotnet_detection(project_file_views(files@), separator@),
{
    let ghost all = project_file_views(files@);
    let mut i: usize = 0;
    assert(all.skip(0) =~= all);
    while i < files.len()
        invariant
            i <= files.len(),
            all == project_file_views(files@),
            dotnet_detection(all, separator@) == dotnet_detection(all.skip(i as int), separator@),
        decreases files.len() - i,
    {
        let file = &files[i];
        proof {
            assert(all.skip(i as int)[0] == file@);
            assert(all.skip(i as int).drop_first() =~= all.skip(i + 1));
        }
        match &file.content {
            Err(e) => {
                return Err(e.clone());
            },
            Ok(text) => {
                if is_web_project(text.as_str()) {
                    return Ok(
                        Some(
                            AppInfo {
                                app_type: "dotnet".to_owned(),
                                project_file: Some(join(&file.path, separator)),
                                command: None,
                            },
                        ),
                    );
                }
            },
        }
        i += 1;
    }
    Ok(None)
}

/// Where the inspection finds an application, it is the first web project
/// of the list, and every file before it was read and is no web project.
pub proof fn lemma_first_web_project_wins(files: Seq<ProjectFileView>, separator: Seq<char>)
    ensures
        match dotnet_detection(files, separator) {
            Ok(Some(app)) => exists|i: int|
                0 <= i < files.len() && app == dotnet_app(joined(#[trigger] files[i].path, separator))
                    && files[i].content is Ok && is_web_content(files[i].content->Ok_0)
                    && forall|j: int|
                    0 <= j < i ==> (#[trigger] files[j]).content is Ok && !is_web_content(
                        files[j].content->Ok_0,
                    ),
            Ok(None) => forall|j: int|
                0 <= j < files.len() ==> (#[trigger] files[j]).content is Ok && !is_web_content(
                    files[j].content->Ok_0,
                ),
            Err(e) => exists|i: int|
                0 <= i < files.len() && (#[trigger] files[i]).content == Err::<Seq<char>, Seq<char>>(e)
                    && forall|j: int|
                    0 <= j < i ==> (#[trigger] files[j]).content is Ok && !is_web_content(
                        files[j].content->Ok_0,
                    ),
        },
    decreases files.len(),
{
    if files.len() > 0 {
        let rest = files.drop_first();
        lemma_first_web_project_wins(rest, separator);
        match files[0].content {
            Err(e) => {
                assert(files[0].content == Err::<Seq<char>, Seq<char>>(e));
            },
            Ok(text) => {
                if is_web_content(text) {
                    assert(dotnet_app(joined(files[0].path, separator)) == dotnet_detection(files, separator)->Ok_0->Some_0);
                } else {
                    assert forall|j: int| 0 <= j < rest.len() implies #[trigger] rest[j]
                        == files[j + 1] by {}
                    match dotnet_detection(rest, separator) {
                        Ok(Some(app)) => {
                            let i = choose|i: int|
                                0 <= i < rest.len() && app == dotnet_app(joined(#[trigger] rest[i].path, separator))
                                    && rest[i].content is Ok && is_web_content(
                                    rest[i].content->Ok_0,
                                ) && forall|j: int|
                                    0 <= j < i ==> (#[trigger] rest[j]).content is Ok
                                        && !is_web_content(rest[j].content->Ok_0);
                            assert(rest[i] == files[i + 1]);
                            assert forall|j: int| 0 <= j < i + 1 implies (#[trigger] files[j]).content is Ok
                                && !is_web_content(files[j].content->Ok_0) by {
                                if j > 0 {
                                    assert(rest[j - 1] == files[j]);
                                }
                            }
                            assert(app == dotnet_app(joined(files[i + 1].path, separator)));
                        },
                        Ok(None) => {
                            assert forall|j: int| 0 <= j < files.len() implies (#[trigger] files[j]).content is Ok
                                && !is_web_content(files[j].content->Ok_0) by {
                                if j > 0 {
                                    assert(rest[j - 1] == files[j]);
                                }
                            }
                        },
                        Err(e) => {
                            let i = choose|i: int|
                                0 <= i < rest.len() && (#[trigger] rest[i]).content == Err::<
                                    Seq<char>,
                                    Seq<char>,
                                >(e) && forall|j: int|
                                    0 <= j < i ==> (#[trigger] rest[j]).content is Ok
                                        && !is_web_content(rest[j].content->Ok_0);
                            assert(rest[i] == files[i + 1]);
                            assert forall|j: int| 0 <= j < i + 1 implies (#[trigger] files[j]).content is Ok
                                && !is_web_content(files[j].content->Ok_0) by {
                                if j > 0 {
                                    assert(rest[j - 1] == files[j]);
                                }
                            }
                            assert(files[i + 1].content == Err::<Seq<char>, Seq<char>>(e));
                        },
                    }
                }
            },
        }
    }
}

} // verus!
