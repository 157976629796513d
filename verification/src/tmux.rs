//! What the multiplexer is asked to do, and what its answers mean.
//!
//! Nothing here runs a process. Starting and ending a session are worked out as a
//! list of [`Step`]s for the caller to carry out in order, and the text that the
//! multiplexer prints is taken as a plain value and classified.

use vstd::prelude::*;
use crate::config::{Project, ProjectModel, Window, WindowModel};
use crate::error::{Error, ErrorModel};
use crate::text;
use crate::text::{joined, numeral, occurs_in, pieces};

verus! {

/// How long a pane is given to wind down after it was interrupted, in milliseconds.
pub const INTERRUPT_GRACE_MILLIS: u64 = 500;

/// What came back from one call of the multiplexer.
#[derive(Clone, Debug, PartialEq, Eq)]
pub struct TmuxResult {
    /// Whether the process ended with a success status.
    pub success: bool,
    /// The exit code, where the process ended with one.
    pub code: Option<i32>,
    pub stderr: String,
    pub stdout: String,
}

/// What a [`TmuxResult`] holds, as plain text.
pub struct TmuxResultModel {
    pub success: bool,
    pub code: Option<i32>,
    pub stderr: Seq<char>,
    pub stdout: Seq<char>,
}

impl View for TmuxResult {
    type V = TmuxResultModel;

    open spec fn view(&self) -> TmuxResultModel {
        TmuxResultModel {
            success: self.success,
            code: self.code,
            stderr: self.stderr@,
            stdout: self.stdout@,
        }
    }
}

/// A pane that the multiplexer listed, with the session it belongs to.
#[derive(Clone, Debug, PartialEq, Eq)]
pub struct RunningPane {
    pub project: String,
    pub pane_id: String,
}

/// What a [`RunningPane`] holds, as plain text.
pub struct PaneModel {
    pub project: Seq<char>,
    pub pane_id: Seq<char>,
}

impl View for RunningPane {
    type V = PaneModel;

    open spec fn view(&self) -> PaneModel {
        PaneModel { project: self.project@, pane_id: self.pane_id@ }
    }
}

impl DeepView for RunningPane {
    type V = PaneModel;

    open spec fn deep_view(&self) -> PaneModel {
        self@
    }
}

/// One thing for the caller to do. Steps are carried out in order, and a step that
/// fails ends the command: what was done before it is left as it is.
#[derive(Clone, Debug, PartialEq, Eq)]
pub enum Step {
    /// Call the multiplexer with these arguments and wait for it to succeed.
    Run(Vec<String>),
    /// Do nothing for this many milliseconds.
    Wait(u64),
    /// Call the multiplexer with these arguments on the user's terminal and wait
    /// until the user leaves it.
    Attach(Vec<String>),
    /// Print this line for the user.
    Report(String),
}

/// What a [`Step`] holds, as plain text.
pub enum StepModel {
    Run(Seq<Seq<char>>),
    Wait(u64),
    Attach(Seq<Seq<char>>),
    Report(Seq<char>),
}

impl View for Step {
    type V = StepModel;

    open spec fn view(&self) -> StepModel {
        match *self {
            Step::Run(arguments) => StepModel::Run(arguments.deep_view()),
            Step::Wait(millis) => StepModel::Wait(millis),
            Step::Attach(arguments) => StepModel::Attach(arguments.deep_view()),
            Step::Report(line) => StepModel::Report(line@),
        }
    }
}

impl DeepView for Step {
    type V = StepModel;

    open spec fn deep_view(&self) -> StepModel {
        self@
    }
}

/// How a window is addressed: the session's name, a colon and the window's place.
pub open spec fn window_identity(session: Seq<char>, index: nat) -> Seq<char> {
    session + ":"@ + numeral(index)
}

/// The title a window is shown under: its name, else its folder, else nothing.
pub open spec fn display_name(window: WindowModel) -> Seq<char> {
    match window.name {
        Some(name) => name,
        None => match window.folder {
            Some(folder) => folder,
            None => Seq::<char>::empty(),
        },
    }
}

/// The directory a window works in: its folder inside the project, or the
/// project's own directory where it names none.
pub open spec fn window_path(project_path: Seq<char>, window: WindowModel) -> Seq<char> {
    match window.folder {
        Some(folder) => project_path + "/"@ + folder,
        None => project_path,
    }
}

/// What a window's first pane runs once it is set up: the declared command, or an
/// echo of the window's title where none is declared.
pub open spec fn main_command(window: WindowModel) -> Seq<char> {
    match window.command {
        Some(command) => command,
        None => "echo \""@ + display_name(window) + "\""@,
    }
}

/// What both panes of a window do first: change to the window's directory, clear
/// the screen and, where the window has a start script, source it.
pub open spec fn basic_actions(project_path: Seq<char>, window: WindowModel) -> Seq<Seq<char>> {
    let first = seq!["cd "@ + window_path(project_path, window), "clear"@];
    match window.start {
        Some(script) => first.push("source "@ + project_path + "/"@ + script),
        None => first,
    }
}

/// The shell line that runs the commands one after another and stops at the first
/// that fails.
pub open spec fn statement(commands: Seq<Seq<char>>) -> Seq<char> {
    joined(commands, " && "@)
}

/// Arguments that create a detached session of this name.
pub open spec fn new_session_arguments(session: Seq<char>) -> Seq<Seq<char>> {
    seq!["new-session"@, "-d"@, "-s"@, session, "-t"@, session]
}

/// Arguments that give the window at `identity` its title.
pub open spec fn rename_window_arguments(identity: Seq<char>, window: WindowModel) -> Seq<
    Seq<char>,
> {
    seq!["rename-window"@, "-t"@, identity, display_name(window)]
}

/// Arguments that create a window at `identity` under its title.
pub open spec fn new_window_arguments(identity: Seq<char>, window: WindowModel) -> Seq<Seq<char>> {
    seq!["new-window"@, "-t"@, identity, "-n"@, display_name(window)]
}

/// Arguments that split the window at `identity` into two panes side by side.
pub open spec fn split_window_arguments(identity: Seq<char>) -> Seq<Seq<char>> {
    seq!["split-window"@, "-h"@, "-t"@, identity]
}

/// Arguments that type the commands, as one statement, into the pane at
/// `identity` and press Enter.
pub open spec fn send_keys_arguments(identity: Seq<char>, commands: Seq<Seq<char>>) -> Seq<
    Seq<char>,
> {
    seq!["send-keys"@, "-t"@, identity, statement(commands), "Enter"@]
}

/// Arguments that interrupt whatever runs in the pane `pane_id`.
pub open spec fn interrupt_arguments(pane_id: Seq<char>) -> Seq<Seq<char>> {
    seq!["send-keys"@, "-t"@, pane_id, "C-c"@]
}

/// Arguments that destroy the session of this name.
pub open spec fn kill_session_arguments(session: Seq<char>) -> Seq<Seq<char>> {
    seq!["kill-session"@, "-t"@, session]
}

/// Arguments that hand the terminal over to the session of this name.
pub open spec fn attach_arguments(session: Seq<char>) -> Seq<Seq<char>> {
    seq!["-2"@, "attach-session"@, "-t"@, session]
}

/// Arguments that list the sessions that are up.
pub open spec fn list_sessions_arguments() -> Seq<Seq<char>> {
    seq!["ls"@]
}

/// Arguments that list every pane of every session, one per line, as the pane's
/// id, a comma and the session's name.
pub open spec fn list_panes_arguments() -> Seq<Seq<char>> {
    seq!["list-panes"@, "-a"@, "-F"@, "#{pane_id},#{session_name}"@]
}

/// The steps that split the window at `identity` and set both panes up. The first
/// pane goes on to run the window's command; the second is left at its prompt.
pub open spec fn split_steps(
    identity: Seq<char>,
    window: WindowModel,
    project_path: Seq<char>,
) -> Seq<StepModel> {
    let actions = basic_actions(project_path, window);
    seq![
        StepModel::Run(split_window_arguments(identity)),
        StepModel::Run(send_keys_arguments(identity + ".0"@, actions.push(main_command(window)))),
        StepModel::Run(send_keys_arguments(identity + ".1"@, actions)),
    ]
}

/// The step that brings the window at place `index` into being: the window that a
/// new session comes with is renamed, every later one is created.
pub open spec fn open_step(session: Seq<char>, index: nat, window: WindowModel) -> StepModel {
    if index == 0 {
        StepModel::Run(rename_window_arguments(window_identity(session, index), window))
    } else {
        StepModel::Run(new_window_arguments(window_identity(session, index), window))
    }
}

/// The four steps that one window takes: open it, split it, set up each pane.
pub open spec fn window_steps(project: ProjectModel, index: nat) -> Seq<StepModel> {
    let window = project.windows[index as int];
    seq![open_step(project.name, index, window)] + split_steps(
        window_identity(project.name, index),
        window,
        project.path,
    )
}

/// The steps of the first `count` windows of a project, window by window.
pub open spec fn windows_steps(project: ProjectModel, count: nat) -> Seq<StepModel>
    decreases count,
{
    if count == 0 {
        Seq::<StepModel>::empty()
    } else {
        windows_steps(project, (count - 1) as nat) + window_steps(project, (count - 1) as nat)
    }
}

/// Everything that starting a project takes: create the session, then bring up
/// its windows in their declared order.
pub open spec fn start_steps(project: ProjectModel) -> Seq<StepModel> {
    seq![StepModel::Run(new_session_arguments(project.name))] + windows_steps(
        project,
        project.windows.len(),
    )
}

/// The text that the listing of sessions shows for a session of this name.
pub open spec fn session_marker(name: Seq<char>) -> Seq<char> {
    name + ": "@
}

/// The multiplexer says that no server is up, or that its socket cannot be
/// reached: the ordinary state when no session exists.
pub open spec fn reports_absence(stderr: Seq<char>) -> bool {
    "no server running"@.is_prefix_of(stderr) || "error connecting to "@.is_prefix_of(stderr)
}

/// The failure that a call with these arguments and this answer amounts to.
pub open spec fn unavailable(arguments: Seq<Seq<char>>, output: TmuxResultModel) -> ErrorModel {
    ErrorModel::MultiplexerUnavailable { arguments, code: output.code, stderr: output.stderr }
}

/// Whether the project `name` has a session, going by what the listing of
/// sessions answered.
///
/// A listing that succeeded settles it by whether it shows the session's marker.
/// A listing that failed because no server is up means that nothing runs. Any
/// other failure is one of the multiplexer itself.
pub open spec fn running(name: Seq<char>, output: TmuxResultModel) -> Result<bool, ErrorModel> {
    if output.success {
        Ok(occurs_in(session_marker(name), output.stdout))
    } else if reports_absence(output.stderr) {
        Ok(false)
    } else {
        Err(unavailable(list_sessions_arguments(), output))
    }
}

/// The test that picks the lines of a listing that hold anything.
pub open spec fn is_filled() -> spec_fn(Seq<char>) -> bool {
    |line: Seq<char>| line.len() > 0
}

/// The lines of a listing that hold anything, in order.
pub open spec fn listed_lines(stdout: Seq<char>) -> Seq<Seq<char>> {
    pieces(stdout, '\n').filter(is_filled())
}

/// Whether a line of the pane listing can be read: it has a pane id and, after a
/// comma, a session name.
pub open spec fn is_pane_line(line: Seq<char>) -> bool {
    pieces(line, ',').len() >= 2
}

/// The pane that a line of the pane listing stands for.
pub open spec fn pane_of(line: Seq<char>) -> PaneModel {
    PaneModel { pane_id: pieces(line, ',')[0], project: pieces(line, ',')[1] }
}

/// The reading of a line, as a function.
pub open spec fn to_pane() -> spec_fn(Seq<char>) -> PaneModel {
    |line: Seq<char>| pane_of(line)
}

/// The test that picks the panes of the session `name`.
pub open spec fn in_session(name: Seq<char>) -> spec_fn(PaneModel) -> bool {
    |pane: PaneModel| pane.project == name
}

/// Whether every line of a pane listing that holds anything can be read.
pub open spec fn is_pane_listing(stdout: Seq<char>) -> bool {
    forall|i: int|
        0 <= i < listed_lines(stdout).len() ==> is_pane_line(#[trigger] listed_lines(stdout)[i])
}

/// The panes of the session `name` in a pane listing, in the order listed.
pub open spec fn panes_in_session(stdout: Seq<char>, name: Seq<char>) -> Seq<PaneModel> {
    listed_lines(stdout).map_values(to_pane()).filter(in_session(name))
}

/// The panes of the project `name`, going by what the listing of panes answered.
///
/// A listing that failed, or one with a line that cannot be read, is a failure of
/// the multiplexer.
pub open spec fn project_panes(name: Seq<char>, output: TmuxResultModel) -> Result<
    Seq<PaneModel>,
    ErrorModel,
> {
    if output.success && is_pane_listing(output.stdout) {
        Ok(panes_in_session(output.stdout, name))
    } else {
        Err(unavailable(list_panes_arguments(), output))
    }
}

/// The steps that interrupt the panes one after another, each followed by the
/// pause that lets its program wind down.
pub open spec fn interrupt_steps(panes: Seq<PaneModel>) -> Seq<StepModel>
    decreases panes.len(),
{
    if panes.len() == 0 {
        Seq::<StepModel>::empty()
    } else {
        interrupt_steps(panes.drop_last()).push(
            StepModel::Run(interrupt_arguments(panes.last().pane_id)),
        ).push(StepModel::Wait(INTERRUPT_GRACE_MILLIS))
    }
}

/// Everything that ending a session takes: interrupt its panes, then destroy it.
pub open spec fn kill_steps(session: Seq<char>, panes: Seq<PaneModel>) -> Seq<StepModel> {
    interrupt_steps(panes).push(StepModel::Run(kill_session_arguments(session)))
}

/// A listing that failed because no server is up, or because the socket of the
/// multiplexer cannot be reached, is not a failure of the multiplexer: the
/// project is simply not running. A listing that succeeded shows the project as
/// running exactly when it holds the session's marker.
pub proof fn lemma_running(name: Seq<char>, output: TmuxResultModel)
    ensures
        !output.success && "no server running"@.is_prefix_of(output.stderr) ==> running(
            name,
            output,
        ) == Ok::<bool, ErrorModel>(false),
        !output.success && "error connecting to "@.is_prefix_of(output.stderr) ==> running(
            name,
            output,
        ) == Ok::<bool, ErrorModel>(false),
        output.success ==> running(name, output) == Ok::<bool, ErrorModel>(
            occurs_in(name + ": "@, output.stdout),
        ),
        running(name, output) is Err <==> !output.success && !reports_absence(output.stderr),
{
}

/// The test that picks the steps that call the multiplexer's command `verb`.
pub open spec fn calling(verb: Seq<char>) -> spec_fn(StepModel) -> bool {
    |step: StepModel|
        step matches StepModel::Run(arguments) && arguments.len() > 0 && arguments[0] == verb
}

/// How many of the steps call the multiplexer's command `verb`.
pub open spec fn calls(steps: Seq<StepModel>, verb: Seq<char>) -> nat {
    steps.filter(calling(verb)).len()
}

/// The calls of one more step are counted on top of those before it.
proof fn lemma_calls_push(steps: Seq<StepModel>, step: StepModel, verb: Seq<char>)
    ensures
        calls(steps.push(step), verb) == calls(steps, verb) + if calling(verb)(step) {
            1nat
        } else {
            0nat
        },
{
    steps.lemma_filter_push(step, calling(verb));
}

/// The calls of two lists of steps add up.
proof fn lemma_calls_add(first: Seq<StepModel>, second: Seq<StepModel>, verb: Seq<char>)
    ensures
        calls(first + second, verb) == calls(first, verb) + calls(second, verb),
{
    Seq::filter_distributes_over_add(first, second, calling(verb));
}

/// The names of the multiplexer's commands differ from one another.
proof fn lemma_verbs_differ()
    ensures
        "new-session"@.len() == 11,
        "rename-window"@.len() == 13,
        "new-window"@.len() == 10,
        "split-window"@.len() == 12,
        "send-keys"@.len() == 9,
        "kill-session"@.len() == 12,
        "split-window"@ != "kill-session"@,
{
    reveal_strlit("new-session");
    reveal_strlit("rename-window");
    reveal_strlit("new-window");
    reveal_strlit("split-window");
    reveal_strlit("send-keys");
    reveal_strlit("kill-session");
    assert("split-window"@[0] != "kill-session"@[0]);
}

/// What one window adds to the calls of each command: one call that opens it,
/// which is a rename for the first window and a creation for every other, one
/// split, and two injections of keystrokes.
proof fn lemma_window_calls(project: ProjectModel, index: nat)
    ensures
        window_steps(project, index).len() == 4,
        calls(window_steps(project, index), "new-session"@) == 0,
        calls(window_steps(project, index), "rename-window"@) == if index == 0 {
            1nat
        } else {
            0nat
        },
        calls(window_steps(project, index), "new-window"@) == if index == 0 {
            0nat
        } else {
            1nat
        },
        calls(window_steps(project, index), "split-window"@) == 1,
        calls(window_steps(project, index), "send-keys"@) == 2,
{
    lemma_verbs_differ();
    let steps = window_steps(project, index);
    let none = Seq::<StepModel>::empty();
    assert(steps =~= none.push(steps[0]).push(steps[1]).push(steps[2]).push(steps[3]));
    assert forall|verb: Seq<char>|
        calls(steps, verb) == (if calling(verb)(steps[0]) {
            1nat
        } else {
            0nat
        }) + (if calling(verb)(steps[1]) {
            1nat
        } else {
            0nat
        }) + (if calling(verb)(steps[2]) {
            1nat
        } else {
            0nat
        }) + (if calling(verb)(steps[3]) {
            1nat
        } else {
            0nat
        }) by {
        reveal(Seq::filter);
        assert(none.filter(calling(verb)) =~= none);
        lemma_calls_push(none, steps[0], verb);
        lemma_calls_push(none.push(steps[0]), steps[1], verb);
        lemma_calls_push(none.push(steps[0]).push(steps[1]), steps[2], verb);
        lemma_calls_push(none.push(steps[0]).push(steps[1]).push(steps[2]), steps[3], verb);
    }
}

/// What the first `count` windows add to the calls of each command.
proof fn lemma_windows_calls(project: ProjectModel, count: nat)
    ensures
        windows_steps(project, count).len() == 4 * count,
        calls(windows_steps(project, count), "new-session"@) == 0,
        calls(windows_steps(project, count), "rename-window"@) == if count == 0 {
            0nat
        } else {
            1nat
        },
        calls(windows_steps(project, count), "new-window"@) == if count == 0 {
            0nat
        } else {
            (count - 1) as nat
        },
        calls(windows_steps(project, count), "split-window"@) == count,
        calls(windows_steps(project, count), "send-keys"@) == 2 * count,
    decreases count,
{
    if count == 0 {
        reveal(Seq::filter);
    } else {
        let before = windows_steps(project, (count - 1) as nat);
        let last = window_steps(project, (count - 1) as nat);
        lemma_windows_calls(project, (count - 1) as nat);
        lemma_window_calls(project, (count - 1) as nat);
        lemma_calls_add(before, last, "new-session"@);
        lemma_calls_add(before, last, "rename-window"@);
        lemma_calls_add(before, last, "new-window"@);
        lemma_calls_add(before, last, "split-window"@);
        lemma_calls_add(before, last, "send-keys"@);
    }
}

/// Starting a project with `n` windows creates the session once, renames the
/// window that the session comes with and so creates only `n - 1` windows, splits
/// each window once and types into each of its two panes once.
pub proof fn lemma_start_calls(project: ProjectModel)
    ensures
        start_steps(project).len() == 1 + 4 * project.windows.len(),
        calls(start_steps(project), "new-session"@) == 1,
        calls(start_steps(project), "rename-window"@) == if project.windows.len() == 0 {
            0nat
        } else {
            1nat
        },
        calls(start_steps(project), "new-window"@) == if project.windows.len() == 0 {
            0nat
        } else {
            (project.windows.len() - 1) as nat
        },
        calls(start_steps(project), "split-window"@) == project.windows.len(),
        calls(start_steps(project), "send-keys"@) == 2 * project.windows.len(),
{
    lemma_verbs_differ();
    let create = StepModel::Run(new_session_arguments(project.name));
    let first = seq![create];
    let rest = windows_steps(project, project.windows.len());
    lemma_windows_calls(project, project.windows.len());
    assert forall|verb: Seq<char>|
        calls(first, verb) == if calling(verb)(create) {
            1nat
        } else {
            0nat
        } by {
        reveal(Seq::filter);
        let none = Seq::<StepModel>::empty();
        assert(none.filter(calling(verb)) =~= none);
        assert(first =~= none.push(create));
        lemma_calls_push(none, create, verb);
    }
    lemma_calls_add(first, rest, "new-session"@);
    lemma_calls_add(first, rest, "rename-window"@);
    lemma_calls_add(first, rest, "new-window"@);
    lemma_calls_add(first, rest, "split-window"@);
    lemma_calls_add(first, rest, "send-keys"@);
}

/// The first step of starting a project creates the session, and the window at
/// place `index` takes the four steps after those of the windows before it: it is
/// opened, split, and each of its panes is set up.
pub proof fn lemma_start_order(project: ProjectModel, index: nat)
    requires
        index < project.windows.len(),
    ensures
        start_steps(project)[0] == StepModel::Run(new_session_arguments(project.name)),
        start_steps(project).subrange(1 + 4 * (index as int), 5 + 4 * (index as int))
            == window_steps(project, index),
{
    let at: int = 4 * (index as int);
    lemma_windows_prefix(project, index + 1, project.windows.len());
    lemma_windows_calls(project, index);
    lemma_windows_calls(project, index + 1);
    lemma_windows_calls(project, project.windows.len());
    let whole = windows_steps(project, project.windows.len());
    let upto = windows_steps(project, index + 1);
    assert(upto =~= windows_steps(project, index) + window_steps(project, index));
    assert(start_steps(project).subrange(1 + at, 5 + at) =~= whole.subrange(at, at + 4));
    assert(whole.subrange(at, at + 4) =~= upto.subrange(at, at + 4));
    assert(upto.subrange(at, at + 4) =~= window_steps(project, index));
}

/// The steps of the first `fewer` windows are where the steps of the first `count`
/// windows begin.
proof fn lemma_windows_prefix(project: ProjectModel, fewer: nat, count: nat)
    requires
        fewer <= count,
    ensures
        windows_steps(project, fewer).is_prefix_of(windows_steps(project, count)),
    decreases count,
{
    if fewer < count {
        lemma_windows_prefix(project, fewer, (count - 1) as nat);
    }
}

/// Ending a session interrupts each of the panes once, in their order and each
/// followed by the pause, and then destroys the session once, as the last step,
/// also where there is no pane to interrupt.
pub proof fn lemma_kill_steps(session: Seq<char>, panes: Seq<PaneModel>)
    ensures
        kill_steps(session, panes).len() == 2 * panes.len() + 1,
        forall|k: int|
            0 <= k < panes.len() ==> {
                &&& kill_steps(session, panes)[2 * k] == StepModel::Run(
                    interrupt_arguments((#[trigger] panes[k]).pane_id),
                )
                &&& kill_steps(session, panes)[2 * k + 1] == StepModel::Wait(
                    INTERRUPT_GRACE_MILLIS,
                )
            },
        kill_steps(session, panes).last() == StepModel::Run(kill_session_arguments(session)),
        calls(kill_steps(session, panes), "send-keys"@) == panes.len(),
        calls(kill_steps(session, panes), "kill-session"@) == 1,
{
    lemma_verbs_differ();
    lemma_interrupt_steps(panes);
    lemma_calls_push(
        interrupt_steps(panes),
        StepModel::Run(kill_session_arguments(session)),
        "send-keys"@,
    );
    lemma_calls_push(
        interrupt_steps(panes),
        StepModel::Run(kill_session_arguments(session)),
        "kill-session"@,
    );
    assert forall|k: int| 0 <= k < panes.len() implies {
        &&& kill_steps(session, panes)[2 * k] == StepModel::Run(
            interrupt_arguments((#[trigger] panes[k]).pane_id),
        )
        &&& kill_steps(session, panes)[2 * k + 1] == StepModel::Wait(INTERRUPT_GRACE_MILLIS)
    } by {
        let pane = panes[k];
        assert(interrupt_steps(panes)[2 * k] == StepModel::Run(interrupt_arguments(pane.pane_id)));
        assert(kill_steps(session, panes)[2 * k] == interrupt_steps(panes)[2 * k]);
        assert(kill_steps(session, panes)[2 * k + 1] == interrupt_steps(panes)[2 * k + 1]);
    }
}

/// The interrupts come pane by pane, each followed by the pause.
proof fn lemma_interrupt_steps(panes: Seq<PaneModel>)
    ensures
        interrupt_steps(panes).len() == 2 * panes.len(),
        forall|k: int|
            0 <= k < panes.len() ==> {
                &&& interrupt_steps(panes)[2 * k] == StepModel::Run(
                    interrupt_arguments((#[trigger] panes[k]).pane_id),
                )
                &&& interrupt_steps(panes)[2 * k + 1] == StepModel::Wait(INTERRUPT_GRACE_MILLIS)
            },
        calls(interrupt_steps(panes), "send-keys"@) == panes.len(),
        calls(interrupt_steps(panes), "kill-session"@) == 0,
    decreases panes.len(),
{
    lemma_verbs_differ();
    if panes.len() == 0 {
        reveal(Seq::filter);
    } else {
        let front = panes.drop_last();
        lemma_interrupt_steps(front);
        let interrupt = StepModel::Run(interrupt_arguments(panes.last().pane_id));
        let pause = StepModel::Wait(INTERRUPT_GRACE_MILLIS);
        lemma_calls_push(interrupt_steps(front), interrupt, "send-keys"@);
        lemma_calls_push(interrupt_steps(front).push(interrupt), pause, "send-keys"@);
        lemma_calls_push(interrupt_steps(front), interrupt, "kill-session"@);
        lemma_calls_push(interrupt_steps(front).push(interrupt), pause, "kill-session"@);
        assert forall|k: int| 0 <= k < panes.len() implies {
            &&& interrupt_steps(panes)[2 * k] == StepModel::Run(
                interrupt_arguments((#[trigger] panes[k]).pane_id),
            )
            &&& interrupt_steps(panes)[2 * k + 1] == StepModel::Wait(INTERRUPT_GRACE_MILLIS)
        } by {
            if k < front.len() {
                assert(front[k] == panes[k]);
            }
        }
    }
}

/// Every pane that is taken for the session `name` belongs to it, and no more
/// panes are taken than the listing has lines.
pub proof fn lemma_panes_in_session(stdout: Seq<char>, name: Seq<char>)
    ensures
        forall|k: int|
            0 <= k < panes_in_session(stdout, name).len() ==> (#[trigger] panes_in_session(
                stdout,
                name,
            )[k]).project == name,
        panes_in_session(stdout, name).len() <= listed_lines(stdout).len(),
{
    let all = listed_lines(stdout).map_values(to_pane());
    assert forall|k: int| 0 <= k < all.filter(in_session(name)).len() implies (
    #[trigger] all.filter(in_session(name))[k]).project == name by {
        all.lemma_filter_pred(in_session(name), k);
    }
    all.lemma_filter_len(in_session(name));
}

/// Adds a copy of `text` at the end of `arguments`.
fn push_text(arguments: &mut Vec<String>, text: &str)
    ensures
        final(arguments).deep_view() == old(arguments).deep_view().push(text@),
{
    let ghost before = arguments.deep_view();
    arguments.push(String::from_str(text));
    assert(arguments.deep_view() =~= before.push(text@));
}

/// Adds `step` at the end of `steps`.
fn push_step(steps: &mut Vec<Step>, step: Step)
    ensures
        final(steps).deep_view() == old(steps).deep_view().push(step@),
{
    let ghost before = steps.deep_view();
    steps.push(step);
    assert(steps.deep_view() =~= before.push(step@));
}

/// Moves every step of `more` to the end of `steps`, in order.
fn push_steps(steps: &mut Vec<Step>, more: Vec<Step>)
    ensures
        final(steps).deep_view() == old(steps).deep_view() + more.deep_view(),
{
    let ghost before = steps.deep_view();
    let ghost added = more.deep_view();
    let mut more = more;
    steps.append(&mut more);
    assert(steps.deep_view() =~= before + added);
}

/// The address of the window at place `index` of the session `session`.
pub fn get_window_identity(session: &str, index: usize) -> (identity: String)
    ensures
        identity@ == window_identity(session@, index as nat),
{
    let mut identity = String::from_str(session);
    identity.append(":");
    let number = text::decimal(index as u64);
    identity.append(number.as_str());
    identity
}

/// The title a window is shown under: its name, else its folder, else nothing.
pub fn get_display_name(window: &Window) -> (title: String)
    ensures
        title@ == display_name(window@),
{
    match &window.name {
        Some(name) => name.clone(),
        None => match &window.folder {
            Some(folder) => folder.clone(),
            None => String::new(),
        },
    }
}

/// The call that gives the window at `identity` its title.
pub fn rename_window(identity: &str, window: &Window) -> (step: Step)
    ensures
        step@ == StepModel::Run(rename_window_arguments(identity@, window@)),
{
    let mut arguments: Vec<String> = Vec::new();
    push_text(&mut arguments, "rename-window");
    push_text(&mut arguments, "-t");
    push_text(&mut arguments, identity);
    push_text(&mut arguments, get_display_name(window).as_str());
    assert(arguments.deep_view() =~= rename_window_arguments(identity@, window@));
    Step::Run(arguments)
}

/// The call that creates a window at `identity` under its title.
pub fn start_window(identity: &str, window: &Window) -> (step: Step)
    ensures
        step@ == StepModel::Run(new_window_arguments(identity@, window@)),
{
    let mut arguments: Vec<String> = Vec::new();
    push_text(&mut arguments, "new-window");
    push_text(&mut arguments, "-t");
    push_text(&mut arguments, identity);
    push_text(&mut arguments, "-n");
    push_text(&mut arguments, get_display_name(window).as_str());
    assert(arguments.deep_view() =~= new_window_arguments(identity@, window@));
    Step::Run(arguments)
}

/// The call that types the commands, as one statement, into the pane at
/// `identity` and presses Enter.
pub fn run_command_in(identity: String, commands: Vec<String>) -> (step: Step)
    ensures
        step@ == StepModel::Run(send_keys_arguments(identity@, commands.deep_view())),
{
    let line = text::join(&commands, " && ");
    let mut arguments: Vec<String> = Vec::new();
    push_text(&mut arguments, "send-keys");
    push_text(&mut arguments, "-t");
    push_text(&mut arguments, identity.as_str());
    push_text(&mut arguments, line.as_str());
    push_text(&mut arguments, "Enter");
    assert(arguments.deep_view() =~= send_keys_arguments(identity@, commands.deep_view()));
    Step::Run(arguments)
}

/// What both panes of a window do first.
fn get_basic_actions(window: &Window, project_path: &str) -> (actions: Vec<String>)
    ensures
        actions.deep_view() == basic_actions(project_path@, window@),
{
    let mut move_to_window_path = String::from_str("cd ");
    move_to_window_path.append(project_path);
    match &window.folder {
        Some(folder) => {
            move_to_window_path.append("/");
            move_to_window_path.append(folder.as_str());
        },
        None => {},
    }
    assert(move_to_window_path@ =~= "cd "@ + window_path(project_path@, window@));
    let mut actions: Vec<String> = Vec::new();
    push_text(&mut actions, move_to_window_path.as_str());
    push_text(&mut actions, "clear");
    match &window.start {
        Some(script) => {
            let mut source = String::from_str("source ");
            source.append(project_path);
            source.append("/");
            source.append(script.as_str());
            push_text(&mut actions, source.as_str());
        },
        None => {},
    }
    assert(actions.deep_view() =~= basic_actions(project_path@, window@));
    actions
}

/// What a window's first pane runs once it is set up.
fn get_main_command(window: &Window) -> (command: String)
    ensures
        command@ == main_command(window@),
{
    match &window.command {
        Some(declared) => declared.clone(),
        None => {
            let mut echo = String::from_str("echo \"");
            echo.append(get_display_name(window).as_str());
            echo.append("\"");
            echo
        },
    }
}

/// The steps that split the window at `identity` and set both of its panes up.
pub fn split_window(identity: &String, window: &Window, project: &Project) -> (steps: Vec<Step>)
    ensures
        steps.deep_view() == split_steps(identity@, window@, project@.path),
{
    let mut split: Vec<String> = Vec::new();
    push_text(&mut split, "split-window");
    push_text(&mut split, "-h");
    push_text(&mut split, "-t");
    push_text(&mut split, identity.as_str());
    assert(split.deep_view() =~= split_window_arguments(identity@));

    let basic = get_basic_actions(window, project.path.as_str());
    let mut with_command = text::copy_all(&basic);
    push_text(&mut with_command, get_main_command(window).as_str());

    let mut first_pane = identity.clone();
    first_pane.append(".0");
    let mut second_pane = identity.clone();
    second_pane.append(".1");

    let mut steps: Vec<Step> = Vec::new();
    push_step(&mut steps, Step::Run(split));
    push_step(&mut steps, run_command_in(first_pane, with_command));
    push_step(&mut steps, run_command_in(second_pane, basic));
    assert(steps.deep_view() =~= split_steps(identity@, window@, project@.path));
    steps
}

/// Everything that starting a project takes, for a project that has no session
/// yet: create the session, then open, split and set up each window in turn.
pub fn start(project: &Project) -> (steps: Vec<Step>)
    ensures
        steps.deep_view() == start_steps(project@),
{
    let mut create: Vec<String> = Vec::new();
    push_text(&mut create, "new-session");
    push_text(&mut create, "-d");
    push_text(&mut create, "-s");
    push_text(&mut create, project.name.as_str());
    push_text(&mut create, "-t");
    push_text(&mut create, project.name.as_str());
    assert(create.deep_view() =~= new_session_arguments(project@.name));

    let mut steps: Vec<Step> = Vec::new();
    push_step(&mut steps, Step::Run(create));
    let mut i: usize = 0;
    assert(steps.deep_view() =~= seq![StepModel::Run(new_session_arguments(project@.name))]
        + windows_steps(project@, 0));
    while i < project.windows.len()
        invariant
            i <= project.windows.len(),
            steps.deep_view() == seq![StepModel::Run(new_session_arguments(project@.name))]
                + windows_steps(project@, i as nat),
        decreases project.windows.len() - i,
    {
        let window = &project.windows[i];
        let window_identity = get_window_identity(project.name.as_str(), i);
        let ghost before = steps.deep_view();
        if i == 0 {
            push_step(&mut steps, rename_window(window_identity.as_str(), window));
        } else {
            push_step(&mut steps, start_window(window_identity.as_str(), window));
        }
        push_steps(&mut steps, split_window(&window_identity, window, project));
        proof {
            assert(project@.windows[i as int] == window@);
            assert(steps.deep_view() =~= before + window_steps(project@, i as nat));
        }
        i += 1;
    }
    steps
}

/// The call that hands the terminal over to the project's session.
pub fn attach(project: &Project) -> (step: Step)
    ensures
        step@ == StepModel::Attach(attach_arguments(project@.name)),
{
    let mut arguments: Vec<String> = Vec::new();
    push_text(&mut arguments, "-2");
    push_text(&mut arguments, "attach-session");
    push_text(&mut arguments, "-t");
    push_text(&mut arguments, project.name.as_str());
    assert(arguments.deep_view() =~= attach_arguments(project@.name));
    Step::Attach(arguments)
}

/// The arguments that list the sessions that are up.
pub fn list_sessions() -> (arguments: Vec<String>)
    ensures
        arguments.deep_view() == list_sessions_arguments(),
{
    let mut arguments: Vec<String> = Vec::new();
    push_text(&mut arguments, "ls");
    assert(arguments.deep_view() =~= list_sessions_arguments());
    arguments
}

/// The arguments that list every pane of every session.
pub fn list_panes() -> (arguments: Vec<String>)
    ensures
        arguments.deep_view() == list_panes_arguments(),
{
    let mut arguments: Vec<String> = Vec::new();
    push_text(&mut arguments, "list-panes");
    push_text(&mut arguments, "-a");
    push_text(&mut arguments, "-F");
    push_text(&mut arguments, "#{pane_id},#{session_name}");
    assert(arguments.deep_view() =~= list_panes_arguments());
    arguments
}

/// The failure that a call with these arguments and this answer amounts to.
fn get_unavailable(arguments: Vec<String>, output: &TmuxResult) -> (error: Error)
    ensures
        error@ == unavailable(arguments.deep_view(), output@),
{
    Error::MultiplexerUnavailable { arguments, code: output.code, stderr: output.stderr.clone() }
}

/// Holds a call that has to succeed to how it ended: a failure status is a failure
/// of the multiplexer, whatever it printed.
pub fn run_tmux(arguments: Vec<String>, output: &TmuxResult) -> (checked: Result<(), Error>)
    ensures
        match checked {
            Ok(_) => output.success,
            Err(e) => !output.success && e@ == unavailable(arguments.deep_view(), output@),
        },
{
    if output.success {
        Ok(())
    } else {
        Err(get_unavailable(arguments, output))
    }
}

/// Whether the project `name` has a session, going by `output`, the answer to
/// the call of [`list_sessions`].
pub fn is_project_running(name: &String, output: &TmuxResult) -> (answer: Result<bool, Error>)
    ensures
        match running(name@, output@) {
            Ok(up) => answer == Ok::<bool, Error>(up),
            Err(failure) => answer matches Err(e) && e@ == failure,
        },
{
    if output.success {
        let mut expected_string = name.clone();
        expected_string.append(": ");
        return Ok(text::contains(output.stdout.as_str(), expected_string.as_str()));
    }
    if text::starts_with(output.stderr.as_str(), "no server running") {
        return Ok(false);
    }
    if text::starts_with(output.stderr.as_str(), "error connecting to ") {
        return Ok(false);
    }
    Err(get_unavailable(list_sessions(), output))
}

/// The panes of the project `name`, going by `output`, the answer to the call of
/// [`list_panes`], in the order listed.
pub fn list_panes_for_project(name: &str, output: &TmuxResult) -> (answer: Result<
    Vec<RunningPane>,
    Error,
>)
    ensures
        match project_panes(name@, output@) {
            Ok(panes) => answer matches Ok(found) && found.deep_view() == panes,
            Err(failure) => answer matches Err(e) && e@ == failure,
        },
{
    if !output.success {
        return Err(get_unavailable(list_panes(), output));
    }
    let lines = text::split(output.stdout.as_str(), '\n');
    let ghost all = lines.deep_view();
    let ghost wanted = in_session(name@);
    let mut found: Vec<RunningPane> = Vec::new();
    let mut i: usize = 0;
    proof {
        reveal(Seq::filter);
        assert(all.take(0).filter(is_filled()) =~= Seq::<Seq<char>>::empty());
        assert(Seq::<Seq<char>>::empty().map_values(to_pane()) =~= Seq::<PaneModel>::empty());
    }
    while i < lines.len()
        invariant
            output.success,
            all == lines.deep_view(),
            all == pieces(output@.stdout, '\n'),
            wanted == in_session(name@),
            i <= lines.len(),
            forall|k: int|
                0 <= k < all.take(i as int).filter(is_filled()).len() ==> is_pane_line(
                    #[trigger] all.take(i as int).filter(is_filled())[k],
                ),
            found.deep_view() == all.take(i as int).filter(is_filled()).map_values(
                to_pane(),
            ).filter(wanted),
        decreases lines.len() - i,
    {
        let line = &lines[i];
        let ghost seen = all.take(i as int).filter(is_filled());
        let ghost so_far = found.deep_view();
        proof {
            assert(all.take(i + 1) =~= all.take(i as int).push(line@));
            all.take(i as int).lemma_filter_push(line@, is_filled());
        }
        if line.as_str().unicode_len() > 0 {
            let fields = text::split(line.as_str(), ',');
            if fields.len() < 2 {
                proof {
                    all.lemma_filter_contains(is_filled(), i as int);
                    let at = choose|at: int|
                        0 <= at < listed_lines(output@.stdout).len() && listed_lines(
                            output@.stdout,
                        )[at] == line@;
                    assert(!is_pane_line(listed_lines(output@.stdout)[at]));
                }
                return Err(get_unavailable(list_panes(), output));
            }
            let pane = RunningPane { project: fields[1].clone(), pane_id: fields[0].clone() };
            proof {
                assert(pane@ == pane_of(line@));
                seen.lemma_push_map_commute(to_pane(), line@);
                seen.map_values(to_pane()).lemma_filter_push(pane@, wanted);
                assert(seen.push(line@).map_values(to_pane()) =~= seen.map_values(to_pane()).push(
                    pane@,
                ));
            }
            if text::equal(pane.project.as_str(), name) {
                found.push(pane);
                assert(found.deep_view() =~= so_far.push(pane_of(line@)));
            }
        }
        i += 1;
    }
    proof {
        assert(all.take(i as int) =~= all);
    }
    Ok(found)
}

/// The steps that interrupt the project's panes, going by `output`, the answer to
/// the call of [`list_panes`].
pub fn kill_running_panes_for_project(project: &Project, output: &TmuxResult) -> (answer: Result<
    Vec<Step>,
    Error,
>)
    ensures
        match project_panes(project@.name, output@) {
            Ok(panes) => answer matches Ok(steps) && steps.deep_view() == interrupt_steps(panes),
            Err(failure) => answer matches Err(e) && e@ == failure,
        },
{
    let panes = match list_panes_for_project(project.name.as_str(), output) {
        Ok(panes) => panes,
        Err(e) => {
            return Err(e);
        },
    };
    let mut steps: Vec<Step> = Vec::new();
    let mut i: usize = 0;
    proof {
        assert(panes.deep_view().take(0) =~= Seq::<PaneModel>::empty());
    }
    while i < panes.len()
        invariant
            i <= panes.len(),
            steps.deep_view() == interrupt_steps(panes.deep_view().take(i as int)),
        decreases panes.len() - i,
    {
        let pane = &panes[i];
        let mut arguments: Vec<String> = Vec::new();
        push_text(&mut arguments, "send-keys");
        push_text(&mut arguments, "-t");
        push_text(&mut arguments, pane.pane_id.as_str());
        push_text(&mut arguments, "C-c");
        assert(arguments.deep_view() =~= interrupt_arguments(pane@.pane_id));
        push_step(&mut steps, Step::Run(arguments));
        push_step(&mut steps, Step::Wait(INTERRUPT_GRACE_MILLIS));
        proof {
            assert(panes.deep_view().take(i + 1).drop_last() =~= panes.deep_view().take(i as int));
        }
        i += 1;
    }
    proof {
        assert(panes.deep_view().take(i as int) =~= panes.deep_view());
    }
    Ok(steps)
}

/// Everything that ending the project's session takes, going by `output`, the
/// answer to the call of [`list_panes`]: interrupt its panes in the order listed,
/// then destroy the session.
pub fn kill(project: &Project, output: &TmuxResult) -> (answer: Result<Vec<Step>, Error>)
    ensures
        match project_panes(project@.name, output@) {
            Ok(panes) => answer matches Ok(steps) && steps.deep_view() == kill_steps(
                project@.name,
                panes,
            ),
            Err(failure) => answer matches Err(e) && e@ == failure,
        },
{
    let mut steps = match kill_running_panes_for_project(project, output) {
        Ok(steps) => steps,
        Err(e) => {
            return Err(e);
        },
    };
    let mut arguments: Vec<String> = Vec::new();
    push_text(&mut arguments, "kill-session");
    push_text(&mut arguments, "-t");
    push_text(&mut arguments, project.name.as_str());
    assert(arguments.deep_view() =~= kill_session_arguments(project@.name));
    push_step(&mut steps, Step::Run(arguments));
    Ok(steps)
}

} // verus!
