use pj::config::{
    get_config_path, get_project, load_project, Project, ProjectConfig, ProjectDefinition, Window,
};
use pj::error::Error;
use pj::launcher::{end, list, perform, resume, start, Pending, Progress};
use pj::tmux::{Step, TmuxResult};

fn strings(parts: &[&str]) -> Vec<String> {
    parts.iter().map(|part| part.to_string()).collect()
}

fn run(parts: &[&str]) -> Step {
    Step::Run(strings(parts))
}

fn report(line: &str) -> Step {
    Step::Report(line.to_string())
}

fn definition(name: &str, path: &str) -> ProjectDefinition {
    ProjectDefinition { name: name.to_string(), path: path.to_string() }
}

fn web() -> Project {
    Project {
        windows: vec![Window {
            name: None,
            folder: Some("src".to_string()),
            command: Some("npm run dev".to_string()),
            start: None,
        }],
        path: "/repo/web".to_string(),
        name: "web".to_string(),
    }
}

fn succeeded(stdout: &str) -> TmuxResult {
    TmuxResult { success: true, code: Some(0), stderr: String::new(), stdout: stdout.to_string() }
}

fn failed(code: i32, stderr: &str) -> TmuxResult {
    TmuxResult { success: false, code: Some(code), stderr: stderr.to_string(), stdout: String::new() }
}

fn no_server() -> TmuxResult {
    failed(1, "no server running on /tmp/tmux-1000/default")
}

/// What a command asked and did, and how it ended.
struct Run {
    asked: Vec<Vec<String>>,
    acted: Vec<Step>,
    ended: Result<(), Error>,
}

/// Plays the caller's part: answers the questions with `answers` in turn, and lets
/// every step succeed but the one at place `failing`, which ends as `failure` says.
fn converse(
    mut progress: Progress,
    answers: &[TmuxResult],
    failing: Option<(usize, TmuxResult)>,
) -> Run {
    let mut asked = Vec::new();
    let mut acted = Vec::new();
    let mut answers = answers.iter();
    loop {
        let (pending, output) = match progress {
            Progress::Done => return Run { asked, acted, ended: Ok(()) },
            Progress::Ask { query, pending } => {
                asked.push(query);
                let answer = answers.next().expect("the command asked more than was answered");
                (pending, answer.clone())
            }
            Progress::Act { step, pending } => {
                acted.push(step);
                match &failing {
                    Some((place, failure)) if *place + 1 == acted.len() => {
                        (pending, failure.clone())
                    }
                    _ => (pending, succeeded("")),
                }
            }
        };
        match resume(pending, &output) {
            Ok(next) => progress = next,
            Err(error) => return Run { asked, acted, ended: Err(error) },
        }
    }
}

fn start_of_web() -> Vec<Step> {
    vec![
        run(&["new-session", "-d", "-s", "web", "-t", "web"]),
        run(&["rename-window", "-t", "web:0", "src"]),
        run(&["split-window", "-h", "-t", "web:0"]),
        run(&["send-keys", "-t", "web:0.0", "cd /repo/web/src && clear && npm run dev", "Enter"]),
        run(&["send-keys", "-t", "web:0.1", "cd /repo/web/src && clear", "Enter"]),
        Step::Attach(strings(&["-2", "attach-session", "-t", "web"])),
    ]
}

#[test]
fn perform_of_no_steps_is_done() {
    assert_eq!(perform(Vec::new()), Progress::Done);
}

#[test]
fn perform_hands_out_the_first_step_and_keeps_the_rest() {
    let steps = vec![run(&["kill-session", "-t", "web"]), Step::Wait(500), report("bye")];
    assert_eq!(
        perform(steps),
        Progress::Act {
            step: run(&["kill-session", "-t", "web"]),
            pending: Pending::Steps {
                arguments: strings(&["kill-session", "-t", "web"]),
                rest: vec![Step::Wait(500), report("bye")],
            },
        }
    );
    assert_eq!(
        perform(vec![Step::Wait(500)]),
        Progress::Act {
            step: Step::Wait(500),
            pending: Pending::Steps { arguments: Vec::new(), rest: Vec::new() },
        }
    );
}

#[test]
fn steps_are_taken_in_order_while_they_succeed() {
    let steps = vec![run(&["a"]), Step::Wait(1), report("b"), Step::Attach(strings(&["c"]))];
    let run = converse(perform(steps.clone()), &[], None);
    assert_eq!(run.acted, steps);
    assert_eq!(run.ended, Ok(()));
    assert!(run.asked.is_empty());
}

#[test]
fn a_failed_step_ends_the_command_and_nothing_after_it_is_taken() {
    let steps = vec![run(&["a"]), run(&["b", "x"]), run(&["c"])];
    let run = converse(perform(steps), &[], Some((1, failed(3, "boom"))));
    assert_eq!(run.acted, vec![run_step(&["a"]), run_step(&["b", "x"])]);
    assert_eq!(
        run.ended,
        Err(Error::MultiplexerUnavailable {
            arguments: strings(&["b", "x"]),
            code: Some(3),
            stderr: "boom".to_string(),
        })
    );
}

fn run_step(parts: &[&str]) -> Step {
    run(parts)
}

#[test]
fn start_begins_by_asking_for_the_sessions() {
    assert_eq!(
        start(web()),
        Progress::Ask { query: strings(&["ls"]), pending: Pending::Start(web()) }
    );
}

#[test]
fn start_brings_the_session_up_and_attaches_when_nothing_runs() {
    let run = converse(start(web()), &[no_server()], None);
    assert_eq!(run.asked, vec![strings(&["ls"])]);
    assert_eq!(run.acted, start_of_web());
    assert_eq!(run.ended, Ok(()));
}

#[test]
fn start_only_attaches_when_the_session_is_up() {
    let run = converse(start(web()), &[succeeded("web: 1 windows\n")], None);
    assert_eq!(run.asked, vec![strings(&["ls"])]);
    assert_eq!(run.acted, vec![Step::Attach(strings(&["-2", "attach-session", "-t", "web"]))]);
    assert_eq!(run.ended, Ok(()));
}

#[test]
fn start_brings_the_session_up_when_only_others_run() {
    let run = converse(start(web()), &[succeeded("api: 1 windows\n")], None);
    assert_eq!(run.acted, start_of_web());
}

#[test]
fn start_fails_when_the_multiplexer_fails() {
    let run = converse(start(web()), &[failed(127, "tmux: not found")], None);
    assert!(run.acted.is_empty());
    assert_eq!(
        run.ended,
        Err(Error::MultiplexerUnavailable {
            arguments: strings(&["ls"]),
            code: Some(127),
            stderr: "tmux: not found".to_string(),
        })
    );
}

#[test]
fn start_stops_at_the_first_call_that_fails_and_undoes_nothing() {
    let run = converse(start(web()), &[no_server()], Some((2, failed(1, ""))));
    assert_eq!(run.acted, start_of_web()[..3].to_vec());
    assert_eq!(
        run.ended,
        Err(Error::MultiplexerUnavailable {
            arguments: strings(&["split-window", "-h", "-t", "web:0"]),
            code: Some(1),
            stderr: String::new(),
        })
    );
}

#[test]
fn start_fails_when_attaching_fails() {
    let run = converse(start(web()), &[succeeded("web: 1 windows\n")], Some((0, failed(1, ""))));
    assert_eq!(
        run.ended,
        Err(Error::MultiplexerUnavailable {
            arguments: strings(&["-2", "attach-session", "-t", "web"]),
            code: Some(1),
            stderr: String::new(),
        })
    );
}

#[test]
fn end_only_reports_when_nothing_runs() {
    let run = converse(end(web()), &[no_server()], None);
    assert_eq!(run.asked, vec![strings(&["ls"])]);
    assert_eq!(run.acted, vec![report("web is not running")]);
    assert_eq!(run.ended, Ok(()));
}

#[test]
fn end_asks_for_the_panes_of_a_session_that_is_up() {
    let next = resume(Pending::End(web()), &succeeded("web: 1 windows\n"));
    assert_eq!(
        next,
        Ok(Progress::Ask {
            query: strings(&["list-panes", "-a", "-F", "#{pane_id},#{session_name}"]),
            pending: Pending::Kill(web()),
        })
    );
}

#[test]
fn end_interrupts_destroys_and_reports() {
    let answers = [succeeded("web: 1 windows\n"), succeeded("%1,web\n%2,web\n%7,api\n")];
    let run = converse(end(web()), &answers, None);
    assert_eq!(
        run.asked,
        vec![
            strings(&["ls"]),
            strings(&["list-panes", "-a", "-F", "#{pane_id},#{session_name}"])
        ]
    );
    assert_eq!(
        run.acted,
        vec![
            run_step(&["send-keys", "-t", "%1", "C-c"]),
            Step::Wait(500),
            run_step(&["send-keys", "-t", "%2", "C-c"]),
            Step::Wait(500),
            run_step(&["kill-session", "-t", "web"]),
            report("Successfully killed: web"),
        ]
    );
    assert_eq!(run.ended, Ok(()));
}

#[test]
fn end_without_panes_still_destroys_the_session() {
    let answers = [succeeded("web: 1 windows\n"), succeeded("%7,api\n")];
    let run = converse(end(web()), &answers, None);
    assert_eq!(
        run.acted,
        vec![run_step(&["kill-session", "-t", "web"]), report("Successfully killed: web")]
    );
}

#[test]
fn end_fails_when_the_panes_cannot_be_listed() {
    let answers = [succeeded("web: 1 windows\n"), failed(1, "lost server")];
    let run = converse(end(web()), &answers, None);
    assert!(run.acted.is_empty());
    assert_eq!(
        run.ended,
        Err(Error::MultiplexerUnavailable {
            arguments: strings(&["list-panes", "-a", "-F", "#{pane_id},#{session_name}"]),
            code: Some(1),
            stderr: "lost server".to_string(),
        })
    );
}

#[test]
fn end_fails_when_the_session_cannot_be_destroyed_and_does_not_report() {
    let answers = [succeeded("web: 1 windows\n"), succeeded("%1,web\n")];
    let run = converse(end(web()), &answers, Some((2, failed(1, "gone"))));
    assert_eq!(
        run.acted,
        vec![
            run_step(&["send-keys", "-t", "%1", "C-c"]),
            Step::Wait(500),
            run_step(&["kill-session", "-t", "web"]),
        ]
    );
    assert_eq!(
        run.ended,
        Err(Error::MultiplexerUnavailable {
            arguments: strings(&["kill-session", "-t", "web"]),
            code: Some(1),
            stderr: "gone".to_string(),
        })
    );
}

#[test]
fn list_of_an_empty_registry_asks_nothing() {
    let run = converse(list(Vec::new()), &[], None);
    assert!(run.asked.is_empty());
    assert_eq!(run.acted, vec![report("No projects are running")]);
    assert_eq!(run.ended, Ok(()));
}

#[test]
fn list_asks_once_for_each_project_and_reports_those_that_run() {
    let projects =
        vec![definition("api", "/a"), definition("web", "/w"), definition("docs", "/d")];
    let answers = [
        succeeded("docs: 1 windows\napi: 2 windows\n"),
        succeeded("docs: 1 windows\napi: 2 windows\n"),
        succeeded("docs: 1 windows\napi: 2 windows\n"),
    ];
    let run = converse(list(projects), &answers, None);
    assert_eq!(run.asked, vec![strings(&["ls"]), strings(&["ls"]), strings(&["ls"])]);
    assert_eq!(run.acted, vec![report("api"), report("docs")]);
    assert_eq!(run.ended, Ok(()));
}

#[test]
fn list_goes_by_each_answer_in_turn() {
    let projects = vec![definition("api", "/a"), definition("web", "/w")];
    let answers = [succeeded("web: 1 windows\n"), succeeded("web: 1 windows\n")];
    assert_eq!(converse(list(projects.clone()), &answers, None).acted, vec![report("web")]);
    let answers = [succeeded("api: 1 windows\n"), no_server()];
    assert_eq!(converse(list(projects), &answers, None).acted, vec![report("api")]);
}

#[test]
fn list_says_so_when_nothing_runs() {
    let projects = vec![definition("api", "/a"), definition("web", "/w")];
    let run = converse(list(projects), &[no_server(), no_server()], None);
    assert_eq!(run.asked.len(), 2);
    assert_eq!(run.acted, vec![report("No projects are running")]);
}

#[test]
fn list_fails_at_the_first_failure_of_the_multiplexer() {
    let projects = vec![definition("api", "/a"), definition("web", "/w")];
    let run = converse(list(projects), &[failed(2, "broken"), no_server()], None);
    assert_eq!(run.asked.len(), 1);
    assert!(run.acted.is_empty());
    assert_eq!(
        run.ended,
        Err(Error::MultiplexerUnavailable {
            arguments: strings(&["ls"]),
            code: Some(2),
            stderr: "broken".to_string(),
        })
    );
}

#[test]
fn resume_of_a_list_that_is_through_reports() {
    let pending = Pending::List {
        projects: vec![definition("api", "/a")],
        position: 1,
        running: strings(&["api"]),
    };
    assert_eq!(
        resume(pending, &no_server()),
        Ok(Progress::Act {
            step: report("api"),
            pending: Pending::Steps { arguments: Vec::new(), rest: Vec::new() },
        })
    );
}

#[test]
fn resume_after_the_last_step_is_done() {
    let pending = Pending::Steps { arguments: strings(&["kill-session"]), rest: Vec::new() };
    assert_eq!(resume(pending, &succeeded("")), Ok(Progress::Done));
}

#[test]
fn starting_a_registered_project_from_its_files() {
    let registry = vec![definition("web", "/repo/web")];
    let found = get_project(&registry, "web").unwrap();
    assert_eq!(get_config_path(&found.path), "/repo/web/.pjconfig");
    let layout = ProjectConfig {
        windows: vec![Window {
            name: None,
            folder: Some("src".to_string()),
            command: Some("npm run dev".to_string()),
            start: None,
        }],
        default: None,
    };
    let project = load_project(&found, "/home/u", layout);
    let run = converse(start(project), &[no_server()], None);
    assert_eq!(
        run.acted,
        vec![
            run_step(&["new-session", "-d", "-s", "web", "-t", "web"]),
            run_step(&["rename-window", "-t", "web:0", "src"]),
            run_step(&["split-window", "-h", "-t", "web:0"]),
            run_step(&[
                "send-keys",
                "-t",
                "web:0.0",
                "cd /repo/web/src && clear && npm run dev",
                "Enter"
            ]),
            run_step(&["send-keys", "-t", "web:0.1", "cd /repo/web/src && clear", "Enter"]),
            Step::Attach(strings(&["-2", "attach-session", "-t", "web"])),
        ]
    );
    assert_eq!(run.ended, Ok(()));
}
