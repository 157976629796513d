//! The three commands, as a conversation with the multiplexer.
//!
//! A command cannot be planned in one go: whether a session is up, and which panes
//! it has, is only known once the multiplexer has been asked, and a step is only
//! taken once the one before it has succeeded. So a command is a [`Progress`]: a
//! question for the multiplexer, or a step to carry out, each with what is
//! [`Pending`] on how it ends. The caller does what the progress says, hands the
//! outcome to [`resume`], and goes on until the command is done or has failed.
//! A command that has failed cannot be gone on with: what it was waiting on went
//! into the call that returned the failure.

use vstd::prelude::*;
use crate::config::{DefinitionModel, Project, ProjectDefinition, ProjectModel};
use crate::error::{Error, ErrorModel};
use crate::text;
use crate::tmux;
use crate::tmux::{
    attach_arguments,
    kill_steps,
    list_panes_arguments,
    list_sessions_arguments,
    project_panes,
    running,
    start_steps,
    unavailable,
    Step,
    StepModel,
    TmuxResult,
    TmuxResultModel,
};

verus! {

/// What a command goes on with once the caller has done its part.
#[derive(Clone, Debug, PartialEq, Eq)]
pub enum Pending {
    /// `start` waits to learn whether the project's session is up.
    Start(Project),
    /// `end` waits to learn whether the project's session is up.
    End(Project),
    /// `end` found the session up and waits for the list of its panes.
    Kill(Project),
    /// `list` waits to learn whether the project at `position` is up; `running`
    /// holds the names of those before it that are.
    List { projects: Vec<ProjectDefinition>, position: usize, running: Vec<String> },
    /// A step is being carried out. `arguments` are those of the call it makes,
    /// if it makes one, and `rest` holds the steps that follow it.
    Steps { arguments: Vec<String>, rest: Vec<Step> },
}

/// What a [`Pending`] holds, as plain text.
pub enum PendingModel {
    Start(ProjectModel),
    End(ProjectModel),
    Kill(ProjectModel),
    List { projects: Seq<DefinitionModel>, position: nat, running: Seq<Seq<char>> },
    Steps { arguments: Seq<Seq<char>>, rest: Seq<StepModel> },
}

impl View for Pending {
    type V = PendingModel;

    open spec fn view(&self) -> PendingModel {
        match *self {
            Pending::Start(project) => PendingModel::Start(project@),
            Pending::End(project) => PendingModel::End(project@),
            Pending::Kill(project) => PendingModel::Kill(project@),
            Pending::List { projects, position, running } => PendingModel::List {
                projects: projects.deep_view(),
                position: position as nat,
                running: running.deep_view(),
            },
            Pending::Steps { arguments, rest } => PendingModel::Steps {
                arguments: arguments.deep_view(),
                rest: rest.deep_view(),
            },
        }
    }
}

/// Where a command stands: what the caller is to do next.
#[derive(Clone, Debug, PartialEq, Eq)]
pub enum Progress {
    /// Call the multiplexer with the arguments `query`, keep what it prints, and
    /// hand the answer to [`resume`] together with `pending`.
    Ask { query: Vec<String>, pending: Pending },
    /// Carry out `step` and hand how it ended to [`resume`] together with
    /// `pending`. A step that calls nothing ends in success.
    Act { step: Step, pending: Pending },
    /// Nothing is left to do.
    Done,
}

/// What a [`Progress`] holds, as plain text.
pub enum ProgressModel {
    Ask { query: Seq<Seq<char>>, pending: PendingModel },
    Act { step: StepModel, pending: PendingModel },
    Done,
}

impl View for Progress {
    type V = ProgressModel;

    open spec fn view(&self) -> ProgressModel {
        match *self {
            Progress::Ask { query, pending } => ProgressModel::Ask {
                query: query.deep_view(),
                pending: pending@,
            },
            Progress::Act { step, pending } => ProgressModel::Act { step: step@, pending: pending@ },
            Progress::Done => ProgressModel::Done,
        }
    }
}

/// The line that `end` prints after it has ended a session.
pub open spec fn killed_report(name: Seq<char>) -> Seq<char> {
    "Successfully killed: "@ + name
}

/// The line that `end` prints where there is no session to end.
pub open spec fn idle_report(name: Seq<char>) -> Seq<char> {
    name + " is not running"@
}

/// The line that `list` prints where no project is up.
pub open spec fn none_running_report() -> Seq<char> {
    "No projects are running"@
}

/// What `list` prints for these names: one line each, or a line that says that
/// there are none.
pub open spec fn list_report(names: Seq<Seq<char>>) -> Seq<StepModel> {
    if names.len() == 0 {
        seq![StepModel::Report(none_running_report())]
    } else {
        Seq::new(names.len(), |i: int| StepModel::Report(names[i]))
    }
}

/// The arguments of the call that a step makes; none for a step that calls
/// nothing.
pub open spec fn arguments_of(step: StepModel) -> Seq<Seq<char>> {
    match step {
        StepModel::Run(arguments) => arguments,
        StepModel::Attach(arguments) => arguments,
        _ => Seq::<Seq<char>>::empty(),
    }
}

/// Where a command stands that has these steps left: at the first of them, or at
/// its end where there is none.
pub open spec fn performing(steps: Seq<StepModel>) -> ProgressModel {
    if steps.len() == 0 {
        ProgressModel::Done
    } else {
        ProgressModel::Act {
            step: steps[0],
            pending: PendingModel::Steps {
                arguments: arguments_of(steps[0]),
                rest: steps.drop_first(),
            },
        }
    }
}

/// How `start` begins: by asking which sessions are up.
pub open spec fn started(project: ProjectModel) -> ProgressModel {
    ProgressModel::Ask { query: list_sessions_arguments(), pending: PendingModel::Start(project) }
}

/// How `end` begins: by asking which sessions are up.
pub open spec fn ended(project: ProjectModel) -> ProgressModel {
    ProgressModel::Ask { query: list_sessions_arguments(), pending: PendingModel::End(project) }
}

/// Where `list` stands when the projects before `position` have been asked about
/// and those in `running` were found up: it asks about the next one, or reports
/// once none is left.
pub open spec fn listing(
    projects: Seq<DefinitionModel>,
    position: nat,
    running: Seq<Seq<char>>,
) -> ProgressModel {
    if position < projects.len() {
        ProgressModel::Ask {
            query: list_sessions_arguments(),
            pending: PendingModel::List { projects, position, running },
        }
    } else {
        performing(list_report(running))
    }
}

/// How `list` begins.
pub open spec fn listed(projects: Seq<DefinitionModel>) -> ProgressModel {
    listing(projects, 0, Seq::<Seq<char>>::empty())
}

/// What `start` does once it knows whether the session is up: attach to it, after
/// bringing it up where it was not.
pub open spec fn start_plan(project: ProjectModel, up: bool) -> Seq<StepModel> {
    let attach = StepModel::Attach(attach_arguments(project.name));
    if up {
        seq![attach]
    } else {
        start_steps(project).push(attach)
    }
}

/// How a command goes on after the caller has done its part and the multiplexer
/// answered `output`.
///
/// - `start` attaches to the session, after bringing it up where it was not.
/// - `end` asks for the panes of a session that is up, and only reports where
///   none is.
/// - `end`, holding the panes, interrupts them, destroys the session and reports.
/// - `list` notes whether the project is up and turns to the next one.
/// - After a step that succeeded comes the next step.
///
/// A failure of the multiplexer ends the command with it: the failure of a
/// question by whatever makes its answer one, that of a step by its status alone.
pub open spec fn resumed(pending: PendingModel, output: TmuxResultModel) -> Result<
    ProgressModel,
    ErrorModel,
> {
    match pending {
        PendingModel::Start(project) => match running(project.name, output) {
            Err(failure) => Err(failure),
            Ok(up) => Ok(performing(start_plan(project, up))),
        },
        PendingModel::End(project) => match running(project.name, output) {
            Err(failure) => Err(failure),
            Ok(up) => if up {
                Ok(
                    ProgressModel::Ask {
                        query: list_panes_arguments(),
                        pending: PendingModel::Kill(project),
                    },
                )
            } else {
                Ok(performing(seq![StepModel::Report(idle_report(project.name))]))
            },
        },
        PendingModel::Kill(project) => match project_panes(project.name, output) {
            Err(failure) => Err(failure),
            Ok(panes) => Ok(
                performing(
                    kill_steps(project.name, panes).push(
                        StepModel::Report(killed_report(project.name)),
                    ),
                ),
            ),
        },
        PendingModel::List { projects, position, running: names } => {
            if position < projects.len() {
                match running(projects[position as int].name, output) {
                    Err(failure) => Err(failure),
                    Ok(up) => {
                        let names = if up {
                            names.push(projects[position as int].name)
                        } else {
                            names
                        };
                        Ok(listing(projects, position + 1, names))
                    },
                }
            } else {
                Ok(performing(list_report(names)))
            }
        },
        PendingModel::Steps { arguments, rest } => {
            if output.success {
                Ok(performing(rest))
            } else {
                Err(unavailable(arguments, output))
            }
        },
    }
}

/// Where a command stands after the caller has done its part that many times and
/// the multiplexer answered with `outputs`, one after another, or the failure
/// that ended it on the way. Outputs beyond the end of the command count for
/// nothing.
pub open spec fn after(progress: ProgressModel, outputs: Seq<TmuxResultModel>) -> Result<
    ProgressModel,
    ErrorModel,
>
    decreases outputs.len(),
{
    if outputs.len() == 0 {
        Ok(progress)
    } else {
        match progress {
            ProgressModel::Done => Ok(progress),
            ProgressModel::Ask { query, pending } => match resumed(pending, outputs[0]) {
                Err(failure) => Err(failure),
                Ok(next) => after(next, outputs.drop_first()),
            },
            ProgressModel::Act { step, pending } => match resumed(pending, outputs[0]) {
                Err(failure) => Err(failure),
                Ok(next) => after(next, outputs.drop_first()),
            },
        }
    }
}

/// The names of those among the first `count` projects whose answer shows them
/// up, in the order of the registry.
pub open spec fn running_names(
    projects: Seq<DefinitionModel>,
    answers: Seq<TmuxResultModel>,
    count: nat,
) -> Seq<Seq<char>>
    decreases count,
{
    if count == 0 {
        Seq::<Seq<char>>::empty()
    } else {
        let before = running_names(projects, answers, (count - 1) as nat);
        if running(projects[count - 1].name, answers[count - 1]) == Ok::<bool, ErrorModel>(true) {
            before.push(projects[count - 1].name)
        } else {
            before
        }
    }
}

/// Steps are carried out in their order for as long as they succeed: after the
/// first `count` of them have succeeded, the command stands at the step that
/// comes next, or at its end.
pub proof fn lemma_steps_in_order(
    steps: Seq<StepModel>,
    outputs: Seq<TmuxResultModel>,
    count: nat,
)
    requires
        count <= steps.len(),
        count <= outputs.len(),
        forall|i: int| 0 <= i < count ==> (#[trigger] outputs[i]).success,
    ensures
        after(performing(steps), outputs.take(count as int)) == Ok::<ProgressModel, ErrorModel>(
            performing(steps.skip(count as int)),
        ),
    decreases count,
{
    let taken = outputs.take(count as int);
    if count == 0 {
        assert(steps.skip(0) =~= steps);
    } else {
        assert(taken[0] == outputs[0]);
        assert(taken.drop_first() =~= outputs.drop_first().take(count - 1));
        assert(steps.drop_first().skip(count - 1) =~= steps.skip(count as int));
        assert forall|i: int| 0 <= i < count - 1 implies (
        #[trigger] outputs.drop_first()[i]).success by {
            assert(outputs[i + 1].success);
        }
        lemma_steps_in_order(steps.drop_first(), outputs.drop_first(), (count - 1) as nat);
    }
}

/// The first step that fails ends the command with the failure of its call, and
/// no step after it is taken.
pub proof fn lemma_steps_stop_at_failure(
    steps: Seq<StepModel>,
    outputs: Seq<TmuxResultModel>,
    failing: nat,
)
    requires
        failing < steps.len(),
        failing < outputs.len(),
        forall|i: int| 0 <= i < failing ==> (#[trigger] outputs[i]).success,
        !outputs[failing as int].success,
    ensures
        after(performing(steps), outputs) == Err::<ProgressModel, ErrorModel>(
            unavailable(arguments_of(steps[failing as int]), outputs[failing as int]),
        ),
    decreases failing,
{
    if failing > 0 {
        assert(outputs[0].success);
        assert forall|i: int| 0 <= i < failing - 1 implies (
        #[trigger] outputs.drop_first()[i]).success by {
            assert(outputs[i + 1].success);
        }
        lemma_steps_stop_at_failure(steps.drop_first(), outputs.drop_first(), (failing - 1) as nat);
    }
}

/// `start` asks once. It then attaches to the session, after taking every step
/// that brings the session up exactly where the answer shows none.
pub proof fn lemma_start(project: ProjectModel, answer: TmuxResultModel)
    ensures
        after(started(project), seq![answer]) == match running(project.name, answer) {
            Err(failure) => Err::<ProgressModel, ErrorModel>(failure),
            Ok(up) => Ok(performing(start_plan(project, up))),
        },
        start_plan(project, true) == seq![StepModel::Attach(attach_arguments(project.name))],
        start_plan(project, false) == start_steps(project) + seq![
            StepModel::Attach(attach_arguments(project.name)),
        ],
{
    let nothing = Seq::<TmuxResultModel>::empty();
    assert(seq![answer].drop_first() =~= nothing);
    match resumed(PendingModel::Start(project), answer) {
        Ok(next) => {
            assert(after(next, nothing) == Ok::<ProgressModel, ErrorModel>(next));
        },
        Err(_) => {},
    }
}

/// `end` asks once where no session is up, and then only reports. Where one is
/// up it asks a second time, for the panes, and then interrupts them, destroys
/// the session and reports.
pub proof fn lemma_end(project: ProjectModel, sessions: TmuxResultModel, panes: TmuxResultModel)
    ensures
        running(project.name, sessions) == Ok::<bool, ErrorModel>(false) ==> after(
            ended(project),
            seq![sessions],
        ) == Ok::<ProgressModel, ErrorModel>(
            performing(seq![StepModel::Report(idle_report(project.name))]),
        ),
        running(project.name, sessions) == Ok::<bool, ErrorModel>(true) ==> after(
            ended(project),
            seq![sessions, panes],
        ) == match project_panes(project.name, panes) {
            Err(failure) => Err::<ProgressModel, ErrorModel>(failure),
            Ok(found) => Ok(
                performing(
                    kill_steps(project.name, found).push(
                        StepModel::Report(killed_report(project.name)),
                    ),
                ),
            ),
        },
        running(project.name, sessions) is Err ==> after(ended(project), seq![sessions]) == Err::<
            ProgressModel,
            ErrorModel,
        >(running(project.name, sessions)->Err_0),
{
    let nothing = Seq::<TmuxResultModel>::empty();
    assert(seq![sessions].drop_first() =~= nothing);
    assert(seq![sessions, panes].drop_first() =~= seq![panes]);
    assert(seq![panes].drop_first() =~= nothing);
    match resumed(PendingModel::End(project), sessions) {
        Ok(ProgressModel::Ask { query, pending }) => {
            let asking = ProgressModel::Ask { query, pending };
            assert(after(ended(project), seq![sessions, panes]) == after(asking, seq![panes]));
            match resumed(pending, panes) {
                Ok(next) => {
                    assert(after(next, nothing) == Ok::<ProgressModel, ErrorModel>(next));
                    assert(after(asking, seq![panes]) == after(next, nothing));
                },
                Err(_) => {},
            }
        },
        Ok(next) => {
            assert(after(next, nothing) == Ok::<ProgressModel, ErrorModel>(next));
        },
        Err(_) => {},
    }
}

/// A command can be gone on with from wherever it stands: answering it with two
/// runs of outputs, one after the other, comes to the same as answering it with
/// the first run and then going on with the second.
pub proof fn lemma_after_add(
    progress: ProgressModel,
    first: Seq<TmuxResultModel>,
    second: Seq<TmuxResultModel>,
)
    ensures
        after(progress, first + second) == match after(progress, first) {
            Err(failure) => Err::<ProgressModel, ErrorModel>(failure),
            Ok(reached) => after(reached, second),
        },
    decreases first.len(),
{
    if first.len() == 0 {
        assert(first + second =~= second);
    } else {
        let all = first + second;
        assert(all[0] == first[0]);
        assert(all.drop_first() =~= first.drop_first() + second);
        match progress {
            ProgressModel::Done => {
                lemma_after_done(second);
            },
            ProgressModel::Ask { query, pending } => {
                match resumed(pending, first[0]) {
                    Ok(next) => {
                        lemma_after_add(next, first.drop_first(), second);
                    },
                    Err(_) => {},
                }
            },
            ProgressModel::Act { step, pending } => {
                match resumed(pending, first[0]) {
                    Ok(next) => {
                        lemma_after_add(next, first.drop_first(), second);
                    },
                    Err(_) => {},
                }
            },
        }
    }
}

/// A command that is done stays done.
proof fn lemma_after_done(outputs: Seq<TmuxResultModel>)
    ensures
        after(ProgressModel::Done, outputs) == Ok::<ProgressModel, ErrorModel>(ProgressModel::Done),
{
}

/// `list` asks about the projects one after another, in the order of the
/// registry. For as long as no answer is a failure of the multiplexer, it stands
/// after `count` answers at the next project, holding the names of those before it
/// whose answer shows them up; after the last answer it reports these names.
pub proof fn lemma_list(
    projects: Seq<DefinitionModel>,
    answers: Seq<TmuxResultModel>,
    count: nat,
)
    requires
        count <= projects.len(),
        count <= answers.len(),
        forall|i: int| 0 <= i < count ==> (#[trigger] running(projects[i].name, answers[i])) is Ok,
    ensures
        after(listed(projects), answers.take(count as int)) == Ok::<ProgressModel, ErrorModel>(
            listing(projects, count, running_names(projects, answers, count)),
        ),
        count == projects.len() ==> listing(
            projects,
            count,
            running_names(projects, answers, count),
        ) == performing(list_report(running_names(projects, answers, projects.len()))),
    decreases count,
{
    if count > 0 {
        let before = (count - 1) as nat;
        let answer = answers[before as int];
        lemma_list(projects, answers, before);
        assert(answers.take(count as int) =~= answers.take(before as int) + seq![answer]);
        lemma_after_add(listed(projects), answers.take(before as int), seq![answer]);
        let standing = listing(projects, before, running_names(projects, answers, before));
        assert(running(projects[before as int].name, answer) is Ok);
        assert(seq![answer].drop_first() =~= Seq::<TmuxResultModel>::empty());
        let pending = PendingModel::List {
            projects,
            position: before,
            running: running_names(projects, answers, before),
        };
        assert(standing == ProgressModel::Ask { query: list_sessions_arguments(), pending });
        match resumed(pending, answer) {
            Ok(next) => {
                assert(after(next, Seq::<TmuxResultModel>::empty()) == Ok::<
                    ProgressModel,
                    ErrorModel,
                >(next));
            },
            Err(_) => {},
        }
    }
}

/// The arguments of the call that a step makes.
fn get_arguments(step: &Step) -> (arguments: Vec<String>)
    ensures
        arguments.deep_view() == arguments_of(step@),
{
    match step {
        Step::Run(arguments) => text::copy_all(arguments),
        Step::Attach(arguments) => text::copy_all(arguments),
        _ => {
            let none: Vec<String> = Vec::new();
            assert(none.deep_view() =~= Seq::<Seq<char>>::empty());
            none
        },
    }
}

/// Goes on with the steps of a command: hands out the first of them, or ends the
/// command where none is left.
pub fn perform(steps: Vec<Step>) -> (progress: Progress)
    ensures
        progress@ == performing(steps.deep_view()),
{
    let mut rest = steps;
    if rest.len() == 0 {
        return Progress::Done;
    }
    let ghost all = rest.deep_view();
    let step = rest.remove(0);
    assert(rest.deep_view() =~= all.drop_first());
    let arguments = get_arguments(&step);
    Progress::Act { step, pending: Pending::Steps { arguments, rest } }
}

/// A step that prints `prefix` followed by `suffix`.
fn report(prefix: &str, suffix: &str) -> (step: Step)
    ensures
        step@ == StepModel::Report(prefix@ + suffix@),
{
    let mut line = String::from_str(prefix);
    line.append(suffix);
    Step::Report(line)
}

/// The steps that print the names of the running projects.
fn get_list_report(names: Vec<String>) -> (steps: Vec<Step>)
    ensures
        steps.deep_view() == list_report(names.deep_view()),
{
    let mut steps: Vec<Step> = Vec::new();
    if names.len() == 0 {
        steps.push(Step::Report(String::from_str("No projects are running")));
        assert(steps.deep_view() =~= list_report(names.deep_view()));
        return steps;
    }
    let ghost wanted = names.deep_view();
    for name in it: names
        invariant
            it.seq().len() == wanted.len(),
            forall|k: int| 0 <= k < wanted.len() ==> (#[trigger] it.seq()[k])@ == wanted[k],
            steps.deep_view() == Seq::new(it.index() as nat, |i: int| StepModel::Report(wanted[i])),
    {
        let ghost before = steps.deep_view();
        assert(name@ == wanted[it.index() as int]);
        steps.push(Step::Report(name));
        assert(steps.deep_view() =~= before.push(StepModel::Report(wanted[it.index() as int])));
        assert(steps.deep_view() =~= Seq::new(
            (it.index() + 1) as nat,
            |i: int| StepModel::Report(wanted[i]),
        ));
    }
    assert(steps.deep_view() =~= list_report(wanted));
    steps
}

/// Where `list` stands at `position`, having found `running` up.
fn get_listing(projects: Vec<ProjectDefinition>, position: usize, running: Vec<String>) -> (progress:
    Progress)
    ensures
        progress@ == listing(projects.deep_view(), position as nat, running.deep_view()),
{
    if position < projects.len() {
        Progress::Ask {
            query: tmux::list_sessions(),
            pending: Pending::List { projects, position, running },
        }
    } else {
        perform(get_list_report(running))
    }
}

/// Begins `start`: join the project's session, bringing it up first where it is
/// not up yet.
pub fn start(project: Project) -> (progress: Progress)
    ensures
        progress@ == started(project@),
{
    Progress::Ask { query: tmux::list_sessions(), pending: Pending::Start(project) }
}

/// Begins `end`: end the project's session where it has one.
pub fn end(project: Project) -> (progress: Progress)
    ensures
        progress@ == ended(project@),
{
    Progress::Ask { query: tmux::list_sessions(), pending: Pending::End(project) }
}

/// Begins `list`: print the names of the registered projects that are up.
pub fn list(projects: Vec<ProjectDefinition>) -> (progress: Progress)
    ensures
        progress@ == listed(projects.deep_view()),
{
    let running: Vec<String> = Vec::new();
    assert(running.deep_view() =~= Seq::<Seq<char>>::empty());
    get_listing(projects, 0, running)
}

/// Goes on with a command after the caller has done its part and the multiplexer
/// answered `output`: to the question, or to the call of the step, that `pending`
/// came with.
pub fn resume(pending: Pending, output: &TmuxResult) -> (next: Result<Progress, Error>)
    ensures
        match resumed(pending@, output@) {
            Ok(progress) => next matches Ok(p) && p@ == progress,
            Err(failure) => next matches Err(e) && e@ == failure,
        },
{
    match pending {
        Pending::Start(project) => {
            let up = match tmux::is_project_running(&project.name, output) {
                Ok(up) => up,
                Err(e) => {
                    return Err(e);
                },
            };
            let mut steps: Vec<Step> = Vec::new();
            assert(steps.deep_view() =~= Seq::<StepModel>::empty());
            if !up {
                steps = tmux::start(&project);
            }
            let ghost before = steps.deep_view();
            steps.push(tmux::attach(&project));
            assert(steps.deep_view() =~= before.push(
                StepModel::Attach(attach_arguments(project@.name)),
            ));
            assert(steps.deep_view() =~= start_plan(project@, up));
            Ok(perform(steps))
        },
        Pending::End(project) => {
            let up = match tmux::is_project_running(&project.name, output) {
                Ok(up) => up,
                Err(e) => {
                    return Err(e);
                },
            };
            if up {
                Ok(Progress::Ask { query: tmux::list_panes(), pending: Pending::Kill(project) })
            } else {
                let mut steps: Vec<Step> = Vec::new();
                steps.push(report(project.name.as_str(), " is not running"));
                assert(steps.deep_view() =~= seq![StepModel::Report(idle_report(project@.name))]);
                Ok(perform(steps))
            }
        },
        Pending::Kill(project) => {
            let mut steps = match tmux::kill(&project, output) {
                Ok(steps) => steps,
                Err(e) => {
                    return Err(e);
                },
            };
            let ghost before = steps.deep_view();
            steps.push(report("Successfully killed: ", project.name.as_str()));
            assert(steps.deep_view() =~= before.push(
                StepModel::Report(killed_report(project@.name)),
            ));
            Ok(perform(steps))
        },
        Pending::List { projects, position, running } => {
            if position < projects.len() {
                let up = match tmux::is_project_running(&projects[position].name, output) {
                    Ok(up) => up,
                    Err(e) => {
                        return Err(e);
                    },
                };
                let mut running = running;
                if up {
                    let ghost before = running.deep_view();
                    running.push(projects[position].name.clone());
                    assert(running.deep_view() =~= before.push(
                        projects.deep_view()[position as int].name,
                    ));
                }
                Ok(get_listing(projects, position + 1, running))
            } else {
                Ok(perform(get_list_report(running)))
            }
        },
        Pending::Steps { arguments, rest } => {
            match tmux::run_tmux(arguments, output) {
                Ok(()) => Ok(perform(rest)),
                Err(e) => Err(e),
            }
        },
    }
}

} // verus!
