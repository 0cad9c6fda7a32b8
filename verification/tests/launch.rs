use lunch::application::{ActionPart, ApplicationPart};
use lunch::env::Lunchable;
use lunch::errors::Error;
use lunch::exec::{CmdLine, Exec, FieldCode};
use lunch::launch::{Io, LaunchAction, LaunchEvent, LaunchState, Options};

fn texts(items: &[&str]) -> Vec<String> {
    items.iter().map(|s| s.to_string()).collect()
}

fn application(command: &str, try_exec: Option<&str>) -> Lunchable {
    Lunchable::Application(ApplicationPart {
        name: "App".to_owned(),
        icon: None,
        comment: None,
        keywords: vec![],
        template: Exec::parse(command).unwrap(),
        field_code: FieldCode::extract_field_code(command),
        try_exec: try_exec.map(|t| t.to_owned()),
        path: Some("/work".to_owned()),
    })
}

fn action(command: &str) -> Lunchable {
    Lunchable::Action(ActionPart {
        name: "Act".to_owned(),
        icon: None,
        template: Exec::parse(command).unwrap(),
        application_name: "App".to_owned(),
        try_exec: Some("/bin/app".to_owned()),
    })
}

fn line(cmd: &str, args: &[&str]) -> CmdLine {
    CmdLine { cmd: cmd.to_owned(), args: texts(args) }
}

fn validated(can_exec: bool, exists: bool) -> LaunchEvent {
    LaunchEvent::Validated { can_exec, exists }
}

const SUPPRESS: Options = Options { io: Io::Suppress };
const INHERIT: Options = Options { io: Io::Inherit };

#[test]
fn launch_begins_with_validation() {
    let app = application("app %f", Some("/bin/app"));
    let (state, doing) = app.step(LaunchState::Idle, LaunchEvent::Start { args: texts(&["a"]) });
    assert_eq!(state, LaunchState::Validating { args: texts(&["a"]) });
    assert_eq!(doing, LaunchAction::Validate { try_exec: Some("/bin/app".to_owned()) });
    let app = application("app", None);
    let (_, doing) = app.step(LaunchState::Idle, LaunchEvent::Start { args: vec![] });
    assert_eq!(doing, LaunchAction::Validate { try_exec: None });
}

#[test]
fn launch_fails_when_the_program_cannot_run() {
    let app = application("app %f", Some("/bin/app"));
    let state = LaunchState::Validating { args: texts(&["a"]) };
    for exists in [false, true] {
        assert_eq!(
            app.step(state.clone(), validated(false, exists)),
            (LaunchState::Terminal, LaunchAction::Fail(Error::ApplicationNotFound))
        );
    }
}

#[test]
fn launch_of_an_application_looks_for_the_program_again() {
    let app = application("app", Some("/bin/app"));
    let state = LaunchState::Validating { args: vec![] };
    assert_eq!(
        app.step(state.clone(), validated(true, false)),
        (LaunchState::Terminal, LaunchAction::Fail(Error::ApplicationNotFound))
    );
    // without a program there is nothing to look for
    let app = application("app", None);
    let (next, _) = app.step(state.clone(), validated(true, false));
    assert_eq!(next, LaunchState::Replacing);
    // an action does not look again
    let (next, _) = action("app --act").step(state, validated(true, false));
    assert_eq!(next, LaunchState::Replacing);
}

#[test]
fn launch_without_field_code_replaces_the_launcher() {
    let app = application("app -x", Some("/bin/app"));
    let state = LaunchState::Validating { args: texts(&["ignored"]) };
    assert_eq!(
        app.step(state, validated(true, true)),
        (
            LaunchState::Replacing,
            LaunchAction::Replace {
                cmd_line: line("app", &["-x"]),
                work_dir: Some("/work".to_owned()),
                options: INHERIT,
            }
        )
    );
}

#[test]
fn launch_of_an_action_replaces_the_launcher_where_it_runs() {
    let state = LaunchState::Validating { args: texts(&["ignored"]) };
    assert_eq!(
        action("app --act %f").step(state, validated(true, true)),
        (
            LaunchState::Replacing,
            LaunchAction::Replace {
                cmd_line: line("app", &["--act"]),
                work_dir: None,
                options: INHERIT,
            }
        )
    );
}

#[test]
fn launch_with_single_field_code_spawns_one_by_one() {
    let app = application("app %u", None);
    let state = LaunchState::Validating { args: texts(&["a", "b", "c"]) };
    let (state, doing) = app.step(state, validated(true, true));
    assert_eq!(state, LaunchState::Spawning { pending: vec![line("app", &["b"]), line("app", &["c"])] });
    assert_eq!(
        doing,
        LaunchAction::Spawn {
            cmd_line: line("app", &["a"]),
            work_dir: Some("/work".to_owned()),
            options: SUPPRESS,
        }
    );
    let (state, doing) = app.step(state, LaunchEvent::Spawned);
    assert_eq!(state, LaunchState::Spawning { pending: vec![line("app", &["c"])] });
    assert_eq!(
        doing,
        LaunchAction::Spawn {
            cmd_line: line("app", &["b"]),
            work_dir: Some("/work".to_owned()),
            options: SUPPRESS,
        }
    );
    let (state, _) = app.step(state, LaunchEvent::Spawned);
    assert_eq!(state, LaunchState::Spawning { pending: vec![] });
    assert_eq!(app.step(state, LaunchEvent::Spawned), (LaunchState::Terminal, LaunchAction::Exit));
}

#[test]
fn launch_with_multiple_field_code_spawns_once() {
    let app = application("app -o %F", None);
    let state = LaunchState::Validating { args: texts(&["a", "b"]) };
    let (state, doing) = app.step(state, validated(true, true));
    assert_eq!(state, LaunchState::Spawning { pending: vec![] });
    assert_eq!(
        doing,
        LaunchAction::Spawn {
            cmd_line: line("app", &["-o", "a", "b"]),
            work_dir: Some("/work".to_owned()),
            options: SUPPRESS,
        }
    );
    assert_eq!(app.step(state, LaunchEvent::Spawned), (LaunchState::Terminal, LaunchAction::Exit));
}

#[test]
fn launch_with_field_code_and_no_arguments_spawns_once() {
    let app = application("app %f", None);
    let state = LaunchState::Validating { args: vec![] };
    let (state, doing) = app.step(state, validated(true, true));
    assert_eq!(state, LaunchState::Spawning { pending: vec![] });
    assert_eq!(
        doing,
        LaunchAction::Spawn {
            cmd_line: line("app", &[]),
            work_dir: Some("/work".to_owned()),
            options: SUPPRESS,
        }
    );
}

#[test]
fn launch_failures_end_the_launch() {
    let app = application("app %f", None);
    assert_eq!(
        app.step(LaunchState::Spawning { pending: vec![line("app", &["b"])] }, LaunchEvent::SpawnFailed),
        (LaunchState::Terminal, LaunchAction::Fail(Error::UnknownError))
    );
    assert_eq!(
        app.step(LaunchState::Replacing, LaunchEvent::ReplaceFailed { not_found: true }),
        (LaunchState::Terminal, LaunchAction::Fail(Error::ApplicationNotFound))
    );
    assert_eq!(
        app.step(LaunchState::Replacing, LaunchEvent::ReplaceFailed { not_found: false }),
        (LaunchState::Terminal, LaunchAction::Fail(Error::UnknownError))
    );
}

#[test]
fn launch_events_out_of_turn_end_the_launch() {
    let app = application("app %f", None);
    let failed = (LaunchState::Terminal, LaunchAction::Fail(Error::UnknownError));
    assert_eq!(app.step(LaunchState::Idle, LaunchEvent::Spawned), failed);
    assert_eq!(app.step(LaunchState::Idle, validated(true, true)), failed);
    assert_eq!(app.step(LaunchState::Terminal, LaunchEvent::Start { args: vec![] }), failed);
    assert_eq!(app.step(LaunchState::Replacing, LaunchEvent::Spawned), failed);
    assert_eq!(
        app.step(LaunchState::Validating { args: vec![] }, LaunchEvent::Start { args: vec![] }),
        failed
    );
    assert_eq!(
        app.step(LaunchState::Spawning { pending: vec![] }, validated(true, true)),
        failed
    );
}

#[test]
fn launch_of_a_malformed_template_is_refused() {
    let app = application("app %f %f", None);
    assert!(!app.can_launch());
    assert_eq!(app.checked_step(LaunchState::Idle, LaunchEvent::Start { args: vec![] }), None);
    let app = application("app %f", None);
    assert!(app.can_launch());
    assert!(app.checked_step(LaunchState::Idle, LaunchEvent::Start { args: vec![] }).is_some());
}

#[test]
fn lunchable_parts() {
    let app = application("app %f", Some("/bin/app"));
    assert_eq!(app.try_exec(), Some("/bin/app".to_owned()));
    assert_eq!(app.field_code(), Some(FieldCode::SingleFile));
    assert_eq!(app.work_dir(), Some("/work".to_owned()));
    assert_eq!(app.template().program, "app");
    let act = action("app --act %f");
    assert_eq!(act.try_exec(), Some("/bin/app".to_owned()));
    assert_eq!(act.field_code(), None);
    assert_eq!(act.work_dir(), None);
    assert_eq!(act.label(), "Act - App");
    assert_eq!(app.label(), "App");
}
