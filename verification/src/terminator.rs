//! Killing a process tree and finding out whether a process lives: which
//! tool the host runs on which platform, and what its outcome means.

use crate::text::{
    after_last, chars_of, contains, find_after_last, is_substring, opt_text, texts,
};
use vstd::prelude::*;
use vstd::string::*;

verus! {

/// The platform that the host runs on, as far as processes are concerned.
#[derive(Debug, Clone, Copy, PartialEq, Eq, Structural)]
pub enum Platform {
    /// Windows, which has a tool that kills a process with its descendants.
    Windows,
    /// Any other platform, where only the process itself is signalled.
    Other,
}

/// The character of the digit `d`.
pub open spec fn digit_char(d: nat) -> char {
    if d == 0 {
        '0'
    } else if d == 1 {
        '1'
    } else if d == 2 {
        '2'
    } else if d == 3 {
        '3'
    } else if d == 4 {
        '4'
    } else if d == 5 {
        '5'
    } else if d == 6 {
        '6'
    } else if d == 7 {
        '7'
    } else if d == 8 {
        '8'
    } else {
        '9'
    }
}

/// The number `n` written in decimal digits, without leading zeros.
pub open spec fn decimal(n: nat) -> Seq<char>
    decreases n,
{
    if n < 10 {
        seq![digit_char(n)]
    } else {
        decimal(n / 10).push(digit_char(n % 10))
    }
}

/// The digit `d` as a text.
fn digit_text(d: u32) -> (text: &'static str)
    requires
        d < 10,
    ensures
        text@ == seq![digit_char(d as nat)],
{
    proof {
        reveal_strlit("0");
        reveal_strlit("1");
        reveal_strlit("2");
        reveal_strlit("3");
        reveal_strlit("4");
        reveal_strlit("5");
        reveal_strlit("6");
        reveal_strlit("7");
        reveal_strlit("8");
        reveal_strlit("9");
    }
    let text = if d == 0 {
        "0"
    } else if d == 1 {
        "1"
    } else if d == 2 {
        "2"
    } else if d == 3 {
        "3"
    } else if d == 4 {
        "4"
    } else if d == 5 {
        "5"
    } else if d == 6 {
        "6"
    } else if d == 7 {
        "7"
    } else if d == 8 {
        "8"
    } else {
        "9"
    };
    assert(text@ =~= seq![digit_char(d as nat)]);
    text
}

/// The text `text` followed by the decimal digits of `n`.
fn with_decimal(text: String, n: u32) -> (r: String)
    ensures
        r@ == text@ + decimal(n as nat),
    decreases n,
{
    if n < 10 {
        let r = text.concat(digit_text(n));
        assert(r@ =~= text@ + decimal(n as nat));
        r
    } else {
        let r = with_decimal(text, n / 10).concat(digit_text(n % 10));
        assert(r@ =~= text@ + decimal(n as nat));
        r
    }
}

/// The process id `pid` in decimal digits.
pub fn pid_text(pid: u32) -> (text: String)
    ensures
        text@ == decimal(pid as nat),
{
    let text = with_decimal(String::new(), pid);
    assert(text@ =~= decimal(pid as nat));
    text
}

/// The decimal digits of a process id.
pub fn pid_digits(pid: u32) -> (digits: Vec<char>)
    ensures
        digits@ == decimal(pid as nat),
{
    chars_of(pid_text(pid).as_str())
}

/// Whether a listing of the tasks with one process id shows that process:
/// the listing does not say that no tasks are running, and it holds the
/// digits of the id.
pub open spec fn is_process_listed(listing: Seq<char>, pid: u32) -> bool {
    !is_substring(listing, "No tasks"@) && is_substring(listing, decimal(pid as nat))
}

/// Whether a listing of the tasks with the process id `pid` shows that
/// process.
pub fn process_listed(listing: &str, pid: u32) -> (r: bool)
    ensures
        r == is_process_listed(listing@, pid),
{
    let text = chars_of(listing);
    !contains(&text, &chars_of("No tasks")) && contains(&text, &pid_digits(pid))
}

/// A tool that the host runs, with its arguments.
#[derive(Debug)]
pub struct ToolCommand {
    pub program: String,
    pub args: Vec<String>,
}

/// What a `ToolCommand` holds, as character sequences.
pub struct ToolCommandView {
    pub program: Seq<char>,
    pub args: Seq<Seq<char>>,
}

impl View for ToolCommand {
    type V = ToolCommandView;

    open spec fn view(&self) -> ToolCommandView {
        ToolCommandView { program: self.program@, args: texts(self.args@) }
    }
}

/// The tool that kills the process `pid`: on Windows the task killer, told
/// to kill the whole tree and by force; elsewhere the kill signal that
/// cannot be caught, sent to the process itself.
pub open spec fn kill_tool(platform: Platform, pid: u32) -> ToolCommandView {
    match platform {
        Platform::Windows => ToolCommandView {
            program: "taskkill"@,
            args: seq!["/PID"@, decimal(pid as nat), "/T"@, "/F"@],
        },
        Platform::Other => ToolCommandView {
            program: "kill"@,
            args: seq!["-9"@, decimal(pid as nat)],
        },
    }
}

/// The tool that kills the process `pid` and, where the platform can, its
/// descendants.
pub fn kill_command(platform: Platform, pid: u32) -> (command: ToolCommand)
    ensures
        command@ == kill_tool(platform, pid),
{
    let mut args: Vec<String> = Vec::new();
    match platform {
        Platform::Windows => {
            args.push("/PID".to_owned());
            args.push(pid_text(pid));
            args.push("/T".to_owned());
            args.push("/F".to_owned());
            assert(texts(args@) =~= seq!["/PID"@, decimal(pid as nat), "/T"@, "/F"@]);
            ToolCommand { program: "taskkill".to_owned(), args }
        },
        Platform::Other => {
            args.push("-9".to_owned());
            args.push(pid_text(pid));
            assert(texts(args@) =~= seq!["-9"@, decimal(pid as nat)]);
            ToolCommand { program: "kill".to_owned(), args }
        },
    }
}

/// How a run of a tool ended.
#[derive(Debug)]
pub enum ToolRun {
    /// The tool could not be started: the message of the platform.
    NotStarted(String),
    /// The tool ran. `success` is whether it ended with success, `errors`
    /// what it wrote to its error stream.
    Exited { success: bool, errors: String },
}

/// A `ToolRun` by the characters it holds.
pub enum ToolRunView {
    NotStarted(Seq<char>),
    Exited { success: bool, errors: Seq<char> },
}

impl View for ToolRun {
    type V = ToolRunView;

    open spec fn view(&self) -> ToolRunView {
        match self {
            ToolRun::NotStarted(message) => ToolRunView::NotStarted(message@),
            ToolRun::Exited { success, errors } => ToolRunView::Exited {
                success: *success,
                errors: errors@,
            },
        }
    }
}

/// Why a run of the kill tool made no kill: the message of the failed
/// start, or what the tool wrote when it ended without success. `None`
/// where the tool ended with success.
pub open spec fn kill_failure_of(run: ToolRunView) -> Option<Seq<char>> {
    match run {
        ToolRunView::NotStarted(message) => Some(message),
        ToolRunView::Exited { success, errors } => if success {
            None
        } else {
            Some(errors)
        },
    }
}

/// What a run of the kill tool means for the stop of the process `pid`;
/// `alive_after` says whether the process was seen alive after the run. A
/// kill that the tool made counts. A kill that failed counts as made where
/// the process is gone: it was gone already, or went by itself. A kill that
/// failed while the process lives is a failure, reported with its cause.
pub open spec fn kill_verdict_of(pid: u32, run: ToolRunView, alive_after: bool) -> Result<
    (),
    Seq<char>,
> {
    match kill_failure_of(run) {
        Some(cause) => if alive_after {
            Err("Failed to kill process "@ + decimal(pid as nat) + ": "@ + cause)
        } else {
            Ok(())
        },
        None => Ok(()),
    }
}

/// Why a run of the kill tool made no kill, if it made none.
pub fn kill_failure(run: ToolRun) -> (cause: Option<String>)
    ensures
        opt_text(cause) == kill_failure_of(run@),
{
    match run {
        ToolRun::NotStarted(message) => Some(message),
        ToolRun::Exited { success, errors } => if success {
            None
        } else {
            Some(errors)
        },
    }
}

/// Decides whether the kill of the process `pid` counts as made, from how
/// the kill tool ended and whether the process was seen alive after it.
pub fn kill_verdict(pid: u32, run: ToolRun, alive_after: bool) -> (r: Result<(), String>)
    ensures
        match kill_verdict_of(pid, run@, alive_after) {
            Ok(_) => r is Ok,
            Err(message) => r matches Err(m) && m@ == message,
        },
{
    match kill_failure(run) {
        Some(cause) => {
            if alive_after {
                let message = with_decimal("Failed to kill process ".to_owned(), pid);
                Err(message.concat(": ").concat(cause.as_str()))
            } else {
                Ok(())
            }
        },
        None => Ok(()),
    }
}

/// How the host finds out whether a process lives.
#[derive(Debug)]
pub enum LivenessProbe {
    /// Run the tool and read its output: the listing of the tasks.
    Listing(ToolCommand),
    /// Read the file at this path: the status of the process.
    Status(String),
}

/// A `LivenessProbe` by the views of what it holds.
pub enum LivenessProbeView {
    Listing(ToolCommandView),
    Status(Seq<char>),
}

impl View for LivenessProbe {
    type V = LivenessProbeView;

    open spec fn view(&self) -> LivenessProbeView {
        match self {
            LivenessProbe::Listing(command) => LivenessProbeView::Listing(command@),
            LivenessProbe::Status(path) => LivenessProbeView::Status(path@),
        }
    }
}

/// The probe for the process `pid`: on Windows the task list, filtered by
/// the process id and without a header; elsewhere the status of the process
/// in the process file system.
pub open spec fn probe_for(platform: Platform, pid: u32) -> LivenessProbeView {
    match platform {
        Platform::Windows => LivenessProbeView::Listing(
            ToolCommandView {
                program: "tasklist"@,
                args: seq!["/FI"@, "PID eq "@ + decimal(pid as nat), "/NH"@],
            },
        ),
        Platform::Other => LivenessProbeView::Status("/proc/"@ + decimal(pid as nat) + "/stat"@),
    }
}

/// How the host finds out whether the process `pid` lives.
pub fn liveness_probe(platform: Platform, pid: u32) -> (probe: LivenessProbe)
    ensures
        probe@ == probe_for(platform, pid),
{
    match platform {
        Platform::Windows => {
            let mut args: Vec<String> = Vec::new();
            args.push("/FI".to_owned());
            args.push(with_decimal("PID eq ".to_owned(), pid));
            args.push("/NH".to_owned());
            assert(texts(args@) =~= seq!["/FI"@, "PID eq "@ + decimal(pid as nat), "/NH"@]);
            LivenessProbe::Listing(ToolCommand { program: "tasklist".to_owned(), args })
        },
        Platform::Other => LivenessProbe::Status(
            with_decimal("/proc/".to_owned(), pid).concat("/stat"),
        ),
    }
}

/// Whether the process `pid` lives, from what the task list gave:
/// `listing` is its output, or `None` where the tool could not be run. A
/// process that cannot be looked for counts as dead.
pub fn alive_by_listing(listing: Option<String>, pid: u32) -> (alive: bool)
    ensures
        alive == match listing {
            Some(text) => is_process_listed(text@, pid),
            None => false,
        },
{
    match listing {
        Some(text) => process_listed(text.as_str(), pid),
        None => false,
    }
}

/// The state that the status of a process names. The status begins with
/// the process id and the name of the command in parentheses; after the
/// last `)` come a blank and the one character of the state. `None` where
/// the text is not of that form.
pub open spec fn state_in_status(status: Seq<char>) -> Option<char> {
    let blank = after_last(status, ')', 0, status.len() as int);
    if 0 < blank && blank + 1 < status.len() && status[blank] == ' ' {
        Some(status[blank + 1])
    } else {
        None
    }
}

/// Whether a state is that of a process that has ended: a zombie, which
/// waits to be collected by its parent, or a dead process.
pub open spec fn is_ended_state(state: char) -> bool {
    state == 'Z' || state == 'X' || state == 'x'
}

/// Whether a process lives, from its status in the process file system;
/// `None` stands for a status that cannot be read. Without a status there
/// is no process. A process whose state is that of an ended one counts as
/// dead, though its entry is still there. Any other process lives.
pub open spec fn is_alive_by_status(status: Option<Seq<char>>) -> bool {
    match status {
        None => false,
        Some(text) => match state_in_status(text) {
            Some(state) => !is_ended_state(state),
            None => true,
        },
    }
}

/// Whether a process lives, from its status in the process file system.
pub fn alive_by_status(status: Option<String>) -> (alive: bool)
    ensures
        alive == is_alive_by_status(opt_text(status)),
{
    match status {
        None => false,
        Some(text) => {
            let chars = chars_of(text.as_str());
            let blank = find_after_last(&chars, ')', 0, chars.len());
            if 0 < blank && blank < chars.len() && blank + 1 < chars.len() && chars[blank] == ' ' {
                let state = chars[blank + 1];
                !(state == 'Z' || state == 'X' || state == 'x')
            } else {
                true
            }
        },
    }
}

/// The kill of a process that is gone counts as made, however the kill
/// tool ended.
pub proof fn lemma_kill_of_dead_process_succeeds(pid: u32, run: ToolRunView)
    ensures
        kill_verdict_of(pid, run, false) is Ok,
{
}

/// A kill that failed while the process lives is reported, and only such
/// a kill is.
pub proof fn lemma_failed_kill_of_live_process_is_reported(
    pid: u32,
    run: ToolRunView,
    alive_after: bool,
)
    ensures
        kill_verdict_of(pid, run, alive_after) is Err <==> kill_failure_of(run) is Some
            && alive_after,
{
}

/// A task list that says that no tasks are running shows no process.
pub proof fn lemma_empty_listing_shows_nothing(listing: Seq<char>, pid: u32)
    requires
        is_substring(listing, "No tasks"@),
    ensures
        !is_process_listed(listing, pid),
{
}

/// A zombie counts as dead, whatever the name of its command holds.
pub proof fn lemma_zombie_counts_as_dead(before: Seq<char>, after: Seq<char>)
    requires
        !after.contains(')'),
    ensures
        !is_alive_by_status(Some(before + seq![')', ' ', 'Z'] + after)),
{
    let status = before + seq![')', ' ', 'Z'] + after;
    let close = before.len() as int;
    lemma_after_last_found(status, ')', 0, status.len() as int, close);
    assert(status[close + 1] == ' ');
    assert(status[close + 2] == 'Z');
}

/// Where `text` holds `c` at `at` and not after it, the place after the
/// last `c` is the one after `at`.
proof fn lemma_after_last_found(text: Seq<char>, c: char, from: int, to: int, at: int)
    requires
        0 <= from <= at < to <= text.len(),
        text[at] == c,
        forall|k: int| at < k < to ==> text[k] != c,
    ensures
        after_last(text, c, from, to) == at + 1,
    decreases to - at,
{
    if to - 1 > at {
        lemma_after_last_found(text, c, from, to - 1, at);
    }
}

} // verus!
