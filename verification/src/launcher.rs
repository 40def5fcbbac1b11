//! How a detected application is launched: the command, its working
//! directory and its environment.
//!
//! The host starts the process; the plan made here tells it how.

use crate::inspector::{dotnet_detection, npm_detection, AppInfo, AppInfoView, ProjectFileView};
use crate::text::{opt_text, same_text, texts};
use vstd::prelude::*;
use vstd::string::*;

verus! {

/// How one of the standard streams of the child is connected.
#[derive(Debug, Clone, Copy, PartialEq, Eq, Structural)]
pub enum StdioMode {
    /// To nothing: the child reads end of file and never the host's input.
    Null,
    /// To a pipe that the host reads.
    Piped,
}

/// A directory or file: `base`, or the entry `relative` below it.
#[derive(Debug)]
pub struct LaunchPath {
    pub base: String,
    pub relative: Option<String>,
}

/// What a `LaunchPath` holds, as character sequences.
pub struct LaunchPathView {
    pub base: Seq<char>,
    pub relative: Option<Seq<char>>,
}

impl View for LaunchPath {
    type V = LaunchPathView;

    open spec fn view(&self) -> LaunchPathView {
        LaunchPathView { base: self.base@, relative: opt_text(self.relative) }
    }
}

/// A variable set in the environment of the child.
#[derive(Debug)]
pub struct EnvVar {
    pub name: String,
    pub value: String,
}

/// What an `EnvVar` holds, as character sequences.
pub struct EnvVarView {
    pub name: Seq<char>,
    pub value: Seq<char>,
}

impl View for EnvVar {
    type V = EnvVarView;

    open spec fn view(&self) -> EnvVarView {
        EnvVarView { name: self.name@, value: self.value@ }
    }
}

/// The variables of a list, each by its view.
pub open spec fn env_views(vars: Seq<EnvVar>) -> Seq<EnvVarView> {
    vars.map_values(|v: EnvVar| v@)
}

/// The command that starts an application.
#[derive(Debug)]
pub struct LaunchPlan {
    /// The program to run, found on the execution path.
    pub program: String,
    /// Its arguments, in order.
    pub args: Vec<String>,
    /// One more argument after `args`: the path of a file.
    pub file_arg: Option<LaunchPath>,
    /// The directory in which the program runs.
    pub working_dir: LaunchPath,
    /// Variables added to the environment.
    pub env: Vec<EnvVar>,
    pub stdin: StdioMode,
    pub stdout: StdioMode,
    pub stderr: StdioMode,
}

/// What a `LaunchPlan` holds, as mathematical values.
pub struct LaunchPlanView {
    pub program: Seq<char>,
    pub args: Seq<Seq<char>>,
    pub file_arg: Option<LaunchPathView>,
    pub working_dir: LaunchPathView,
    pub env: Seq<EnvVarView>,
    pub stdin: StdioMode,
    pub stdout: StdioMode,
    pub stderr: StdioMode,
}

impl View for LaunchPlan {
    type V = LaunchPlanView;

    open spec fn view(&self) -> LaunchPlanView {
        LaunchPlanView {
            program: self.program@,
            args: texts(self.args@),
            file_arg: match self.file_arg {
                Some(p) => Some(p@),
                None => None,
            },
            working_dir: self.working_dir@,
            env: env_views(self.env@),
            stdin: self.stdin,
            stdout: self.stdout,
            stderr: self.stderr,
        }
    }
}

/// The outcome of planning, by the views of what it holds.
pub open spec fn plan_view(r: Result<LaunchPlan, String>) -> Result<LaunchPlanView, Seq<char>> {
    match r {
        Ok(plan) => Ok(plan@),
        Err(message) => Err(message@),
    }
}

/// The plan for the script `script` of a script-runner application: the
/// script runner is told to run it, in the project directory or in the
/// subdirectory `subdir` of it.
pub open spec fn npm_plan(
    project_path: Seq<char>,
    subdir: Option<Seq<char>>,
    script: Seq<char>,
) -> LaunchPlanView {
    LaunchPlanView {
        program: "npm"@,
        args: seq!["run"@, script],
        file_arg: None,
        working_dir: LaunchPathView { base: project_path, relative: subdir },
        env: Seq::empty(),
        stdin: StdioMode::Null,
        stdout: StdioMode::Piped,
        stderr: StdioMode::Piped,
    }
}

/// The plan for a managed-runtime web project: the runtime watches the
/// project file and restarts the application by itself; it is told not to
/// open a browser and to restart where a change cannot be applied.
pub open spec fn dotnet_plan(project_path: Seq<char>, project_file: Seq<char>) -> LaunchPlanView {
    LaunchPlanView {
        program: "dotnet"@,
        args: seq!["watch"@, "--non-interactive"@, "--project"@],
        file_arg: Some(LaunchPathView { base: project_path, relative: Some(project_file) }),
        working_dir: LaunchPathView { base: project_path, relative: None },
        env: seq![
            EnvVarView { name: "DOTNET_WATCH_SUPPRESS_LAUNCH_BROWSER"@, value: "1"@ },
            EnvVarView { name: "HotReloadAutoRestart"@, value: "true"@ },
        ],
        stdin: StdioMode::Null,
        stdout: StdioMode::Piped,
        stderr: StdioMode::Piped,
    }
}

/// The plan for the application that `info` describes, in the project at
/// `project_path`, or why there is none: a script-runner application needs
/// its script, a managed-runtime project its project file, and no other kind
/// of application is known.
pub open spec fn plan_for(info: AppInfoView, project_path: Seq<char>) -> Result<
    LaunchPlanView,
    Seq<char>,
> {
    if info.app_type == "npm"@ {
        match info.command {
            Some(script) => Ok(npm_plan(project_path, info.project_file, script)),
            None => Err("No script specified for npm app"@),
        }
    } else if info.app_type == "dotnet"@ {
        match info.project_file {
            Some(file) => Ok(dotnet_plan(project_path, file)),
            None => Err("No project file specified for .NET app"@),
        }
    } else {
        Err("Unsupported app type: "@ + info.app_type)
    }
}

/// An optional string copied.
fn copy_opt(o: &Option<String>) -> (r: Option<String>)
    ensures
        opt_text(r) == opt_text(*o),
{
    match o {
        Some(s) => Some(s.clone()),
        None => None,
    }
}

/// Plans the launch of the application that `info` describes in the project
/// at `project_path`.
pub fn launch_plan(info: &AppInfo, project_path: &str) -> (r: Result<LaunchPlan, String>)
    ensures
        plan_view(r) == plan_for(info@, project_path@),
{
    if same_text(info.app_type.as_str(), "npm") {
        match &info.command {
            Some(script) => {
                let mut args: Vec<String> = Vec::new();
                args.push("run".to_owned());
                args.push(script.clone());
                let plan = LaunchPlan {
                    program: "npm".to_owned(),
                    args: args,
                    file_arg: None,
                    working_dir: LaunchPath {
                        base: project_path.to_owned(),
                        relative: copy_opt(&info.project_file),
                    },
                    env: Vec::new(),
                    stdin: StdioMode::Null,
                    stdout: StdioMode::Piped,
                    stderr: StdioMode::Piped,
                };
                proof {
                    assert(texts(plan.args@) =~= seq!["run"@, script@]);
                    assert(env_views(plan.env@) =~= Seq::<EnvVarView>::empty());
                }
                Ok(plan)
            },
            None => Err("No script specified for npm app".to_owned()),
        }
    } else if same_text(info.app_type.as_str(), "dotnet") {
        match &info.project_file {
            Some(file) => {
                let mut args: Vec<String> = Vec::new();
                args.push("watch".to_owned());
                args.push("--non-interactive".to_owned());
                args.push("--project".to_owned());
                let mut env: Vec<EnvVar> = Vec::new();
                env.push(
                    EnvVar {
                        name: "DOTNET_WATCH_SUPPRESS_LAUNCH_BROWSER".to_owned(),
                        value: "1".to_owned(),
                    },
                );
                env.push(EnvVar { name: "HotReloadAutoRestart".to_owned(), value: "true".to_owned() });
                let plan = LaunchPlan {
                    program: "dotnet".to_owned(),
                    args: args,
                    file_arg: Some(
                        LaunchPath { base: project_path.to_owned(), relative: Some(file.clone()) },
                    ),
                    working_dir: LaunchPath { base: project_path.to_owned(), relative: None },
                    env: env,
                    stdin: StdioMode::Null,
                    stdout: StdioMode::Piped,
                    stderr: StdioMode::Piped,
                };
                proof {
                    assert(texts(plan.args@) =~= seq![
                        "watch"@,
                        "--non-interactive"@,
                        "--project"@,
                    ]);
                    assert(env_views(plan.env@) =~= seq![
                        EnvVarView { name: "DOTNET_WATCH_SUPPRESS_LAUNCH_BROWSER"@, value: "1"@ },
                        EnvVarView { name: "HotReloadAutoRestart"@, value: "true"@ },
                    ]);
                }
                Ok(plan)
            },
            None => Err("No project file specified for .NET app".to_owned()),
        }
    } else {
        let message = "Unsupported app type: ".to_owned();
        Err(message.concat(info.app_type.as_str()))
    }
}

impl LaunchPlan {
    /// The message for a launch that failed: it names the program and the
    /// cause that the platform gave.
    pub fn failure_message(&self, cause: &str) -> (message: String)
        ensures
            message@ == "Failed to start "@ + self.program@ + ": "@ + cause@,
    {
        "Failed to start ".to_owned().concat(self.program.as_str()).concat(": ").concat(cause)
    }
}

/// Every application that the inspection of a project finds can be
/// launched: the script-runner application of a manifest and the
/// managed-runtime web project among the project files both have a plan.
pub proof fn lemma_detected_apps_launch(
    scripts: Result<Option<Seq<Seq<char>>>, Seq<char>>,
    files: Seq<ProjectFileView>,
    separator: Seq<char>,
    project_path: Seq<char>,
)
    ensures
        npm_detection(scripts) matches Ok(Some(app)) ==> plan_for(app, project_path) is Ok,
        dotnet_detection(files, separator) matches Ok(Some(app)) ==> plan_for(app, project_path)
            is Ok,
{
    crate::inspector::lemma_app_types_differ();
    crate::inspector::lemma_first_web_project_wins(files, separator);
}

/// Whatever is launched, the child never reads the host's input, and both
/// of its output streams are captured.
pub proof fn lemma_streams_of_every_plan(info: AppInfoView, project_path: Seq<char>)
    ensures
        plan_for(info, project_path) matches Ok(plan) ==> plan.stdin == StdioMode::Null
            && plan.stdout == StdioMode::Piped && plan.stderr == StdioMode::Piped,
{
}

} // verus!
