//! The steps of a launch.
//!
//! Looking for a program, starting a process and replacing the launcher by
//! another program are done by the caller. This module decides what is to be
//! done next: the caller hands in what happened, and is told what to do.

use crate::env::{Lunchable, LunchableView};
use crate::errors::{Error, ErrorView};
use crate::exec::{
    field_codes, lemma_expand_count, spec_command_line, spec_expand_exec, CmdLine, CmdLineView,
    Exec, FieldCode,
};
use crate::text::copy_of;
use vstd::prelude::*;

verus! {

/// What becomes of the standard streams of a process that is started.
#[derive(Debug, Clone, Copy, PartialEq, Eq)]
pub enum Io {
    /// The process gets none of the launcher's streams.
    Suppress,
    /// The process takes the launcher's streams over.
    Inherit,
}

/// How a process is started.
#[derive(Debug, Clone, Copy, PartialEq, Eq)]
pub struct Options {
    pub io: Io,
}

/// Where a launch stands.
#[derive(Debug, Clone, PartialEq, Eq)]
pub enum LaunchState {
    /// Nothing was done yet.
    Idle,
    /// The program is being looked for; these are the files or URLs to launch
    /// with.
    Validating { args: Vec<String> },
    /// A process is being started; these commands are to follow.
    Spawning { pending: Vec<CmdLine> },
    /// The launcher is being replaced by the program.
    Replacing,
    /// The launch is over.
    Terminal,
}

/// What happened.
#[derive(Debug, Clone, PartialEq, Eq)]
pub enum LaunchEvent {
    /// A launch with these files or URLs is asked for.
    Start { args: Vec<String> },
    /// The program was looked for: whether it can be run, and whether there
    /// is a file at the path that the application names.
    Validated { can_exec: bool, exists: bool },
    /// The process was started.
    Spawned,
    /// The process could not be started.
    SpawnFailed,
    /// The launcher could not be replaced: because the program was not found,
    /// or for another reason.
    ReplaceFailed { not_found: bool },
}

/// What is to be done.
#[derive(Debug, Clone, PartialEq, Eq)]
pub enum LaunchAction {
    /// Find out whether this program can be run, and whether there is a file
    /// at this path; without a program, both count as true.
    Validate { try_exec: Option<String> },
    /// Start this command as a process of its own, in this directory if it
    /// exists, and do not wait for it.
    Spawn { cmd_line: CmdLine, work_dir: Option<String>, options: Options },
    /// Replace the launcher by this command, in this directory if it exists.
    Replace { cmd_line: CmdLine, work_dir: Option<String>, options: Options },
    /// End the launcher with success.
    Exit,
    /// Report this error and end the launcher without success.
    Fail(Error),
}

/// The mathematical value of a `LaunchState`.
pub ghost enum LaunchStateView {
    Idle,
    Validating { args: Seq<Seq<char>> },
    Spawning { pending: Seq<CmdLineView> },
    Replacing,
    Terminal,
}

/// The mathematical value of a `LaunchEvent`.
pub ghost enum LaunchEventView {
    Start { args: Seq<Seq<char>> },
    Validated { can_exec: bool, exists: bool },
    Spawned,
    SpawnFailed,
    ReplaceFailed { not_found: bool },
}

/// The mathematical value of a `LaunchAction`.
pub ghost enum LaunchActionView {
    Validate { try_exec: Option<Seq<char>> },
    Spawn { cmd_line: CmdLineView, work_dir: Option<Seq<char>>, options: Options },
    Replace { cmd_line: CmdLineView, work_dir: Option<Seq<char>>, options: Options },
    Exit,
    Fail(ErrorView),
}

impl View for LaunchState {
    type V = LaunchStateView;

    open spec fn view(&self) -> LaunchStateView {
        match self {
            LaunchState::Idle => LaunchStateView::Idle,
            LaunchState::Validating { args } => LaunchStateView::Validating {
                args: args.deep_view(),
            },
            LaunchState::Spawning { pending } => LaunchStateView::Spawning {
                pending: pending.deep_view(),
            },
            LaunchState::Replacing => LaunchStateView::Replacing,
            LaunchState::Terminal => LaunchStateView::Terminal,
        }
    }
}

impl View for LaunchEvent {
    type V = LaunchEventView;

    open spec fn view(&self) -> LaunchEventView {
        match self {
            LaunchEvent::Start { args } => LaunchEventView::Start { args: args.deep_view() },
            LaunchEvent::Validated { can_exec, exists } => LaunchEventView::Validated {
                can_exec: *can_exec,
                exists: *exists,
            },
            LaunchEvent::Spawned => LaunchEventView::Spawned,
            LaunchEvent::SpawnFailed => LaunchEventView::SpawnFailed,
            LaunchEvent::ReplaceFailed { not_found } => LaunchEventView::ReplaceFailed {
                not_found: *not_found,
            },
        }
    }
}

impl View for LaunchAction {
    type V = LaunchActionView;

    open spec fn view(&self) -> LaunchActionView {
        match self {
            LaunchAction::Validate { try_exec } => LaunchActionView::Validate {
                try_exec: try_exec.deep_view(),
            },
            LaunchAction::Spawn { cmd_line, work_dir, options } => LaunchActionView::Spawn {
                cmd_line: cmd_line@,
                work_dir: work_dir.deep_view(),
                options: *options,
            },
            LaunchAction::Replace { cmd_line, work_dir, options } => LaunchActionView::Replace {
                cmd_line: cmd_line@,
                work_dir: work_dir.deep_view(),
                options: *options,
            },
            LaunchAction::Exit => LaunchActionView::Exit,
            LaunchAction::Fail(e) => LaunchActionView::Fail(e@),
        }
    }
}

/// The end of a launch in failure.
pub open spec fn failed(e: ErrorView) -> (LaunchStateView, LaunchActionView) {
    (LaunchStateView::Terminal, LaunchActionView::Fail(e))
}

/// What follows once the program was found: a lunchable whose template takes
/// files or URLs has its commands started one after the other, without the
/// launcher's streams; any other replaces the launcher, and takes its streams
/// over.
pub open spec fn spec_begin(target: LunchableView, args: Seq<Seq<char>>) -> (
    LaunchStateView,
    LaunchActionView,
) {
    match target.field_code() {
        Some(code) => {
            let lines = spec_expand_exec(code, target.template(), args);
            (
                LaunchStateView::Spawning { pending: lines.skip(1) },
                LaunchActionView::Spawn {
                    cmd_line: lines[0],
                    work_dir: target.work_dir(),
                    options: Options { io: Io::Suppress },
                },
            )
        },
        None => (
            LaunchStateView::Replacing,
            LaunchActionView::Replace {
                cmd_line: spec_command_line(target.template(), Seq::empty()),
                work_dir: target.work_dir(),
                options: Options { io: Io::Inherit },
            },
        ),
    }
}

/// The next state of a launch of `target`, and what is to be done, after
/// `event` in `state`.
///
/// A launch begins by looking for the program. If that cannot be run, or is
/// not there when an application looks for it again, the application is not
/// found. Else the commands are started or the launcher is replaced, as
/// `spec_begin` says. When the last command was started the launcher ends
/// with success; a command that cannot be started, and a replacement that
/// fails, end the launch with an error. An event that the state does not
/// wait for ends it with `UnknownError`.
pub open spec fn spec_step(
    target: LunchableView,
    state: LaunchStateView,
    event: LaunchEventView,
) -> (LaunchStateView, LaunchActionView) {
    match (state, event) {
        (LaunchStateView::Idle, LaunchEventView::Start { args }) => (
            LaunchStateView::Validating { args },
            LaunchActionView::Validate { try_exec: target.try_exec() },
        ),
        (
            LaunchStateView::Validating { args },
            LaunchEventView::Validated { can_exec, exists },
        ) => if !can_exec || (target.rechecks() && target.try_exec() is Some && !exists) {
            failed(ErrorView::ApplicationNotFound)
        } else {
            spec_begin(target, args)
        },
        (LaunchStateView::Spawning { pending }, LaunchEventView::Spawned) => if pending.len()
            == 0 {
            (LaunchStateView::Terminal, LaunchActionView::Exit)
        } else {
            (
                LaunchStateView::Spawning { pending: pending.skip(1) },
                LaunchActionView::Spawn {
                    cmd_line: pending[0],
                    work_dir: target.work_dir(),
                    options: Options { io: Io::Suppress },
                },
            )
        },
        (LaunchStateView::Spawning { pending }, LaunchEventView::SpawnFailed) => failed(
            ErrorView::UnknownError,
        ),
        (LaunchStateView::Replacing, LaunchEventView::ReplaceFailed { not_found }) => failed(
            if not_found {
                ErrorView::ApplicationNotFound
            } else {
                ErrorView::UnknownError
            },
        ),
        _ => failed(ErrorView::UnknownError),
    }
}

/// A program that cannot be run is never started: whatever else holds, the
/// launch ends with `ApplicationNotFound`.
pub proof fn lemma_not_found_ends_the_launch(
    target: LunchableView,
    args: Seq<Seq<char>>,
    exists: bool,
)
    ensures
        spec_step(
            target,
            LaunchStateView::Validating { args },
            LaunchEventView::Validated { can_exec: false, exists },
        ) == failed(ErrorView::ApplicationNotFound),
{
}

/// Nothing follows the end of a launch: every event after it is an error.
pub proof fn lemma_terminal_is_final(target: LunchableView, event: LaunchEventView)
    ensures
        spec_step(target, LaunchStateView::Terminal, event) == failed(ErrorView::UnknownError),
{
}

/// The number of commands that are still to be started goes down with every
/// command that was started.
pub proof fn lemma_spawning_goes_down(target: LunchableView, pending: Seq<CmdLineView>)
    requires
        pending.len() > 0,
    ensures
        spec_step(target, LaunchStateView::Spawning { pending }, LaunchEventView::Spawned).0
            == (LaunchStateView::Spawning { pending: pending.skip(1) }),
{
}

impl Lunchable {
    /// The program whose presence shows that the application is installed.
    pub fn try_exec(&self) -> (r: Option<String>)
        ensures
            r.deep_view() == self@.try_exec(),
    {
        match self {
            Lunchable::Application(app) => copy_of(&app.try_exec),
            Lunchable::Action(action) => copy_of(&action.try_exec),
        }
    }

    /// The command template.
    pub fn template(&self) -> (r: &Exec)
        ensures
            r@ == self@.template(),
    {
        match self {
            Lunchable::Application(app) => &app.template,
            Lunchable::Action(action) => &action.template,
        }
    }

    /// What the template's variable argument stands for.
    pub fn field_code(&self) -> (r: Option<FieldCode>)
        ensures
            r == self@.field_code(),
    {
        match self {
            Lunchable::Application(app) => app.field_code,
            Lunchable::Action(_) => None,
        }
    }

    /// The directory to run the command in.
    pub fn work_dir(&self) -> (r: Option<String>)
        ensures
            r.deep_view() == self@.work_dir(),
    {
        match self {
            Lunchable::Application(app) => copy_of(&app.path),
            Lunchable::Action(_) => None,
        }
    }

    /// Whether the template is well formed: it has at most one variable
    /// argument. Only such a lunchable can be launched.
    pub fn can_launch(&self) -> (r: bool)
        ensures
            r == (field_codes(self@.template().args) <= 1),
    {
        self.template().field_code_count() <= 1
    }

    /// The next state of a launch, and what is to be done, after `event` in
    /// `state`.
    ///
    /// A template with more than one variable argument is malformed, and
    /// nothing is launched from it.
    pub fn step(&self, state: LaunchState, event: LaunchEvent) -> (r: (LaunchState, LaunchAction))
        requires
            field_codes(self@.template().args) <= 1,
        ensures
            (r.0@, r.1@) == spec_step(self@, state@, event@),
    {
        match (state, event) {
            (LaunchState::Idle, LaunchEvent::Start { args }) => (
                LaunchState::Validating { args },
                LaunchAction::Validate { try_exec: self.try_exec() },
            ),
            (LaunchState::Validating { args }, LaunchEvent::Validated { can_exec, exists }) => {
                let named = self.try_exec().is_some();
                let rechecks = match self {
                    Lunchable::Application(_) => true,
                    Lunchable::Action(_) => false,
                };
                if !can_exec || (rechecks && named && !exists) {
                    (LaunchState::Terminal, LaunchAction::Fail(Error::ApplicationNotFound))
                } else {
                    match self.field_code() {
                        Some(code) => {
                            let mut lines = code.expand_exec(self.template(), args);
                            let ghost all = lines.deep_view();
                            proof {
                                lemma_expand_count(code, self@.template(), args.deep_view());
                            }
                            let first = lines.remove(0);
                            assert(lines.deep_view() =~= all.skip(1));
                            assert(first@ == all[0]);
                            (
                                LaunchState::Spawning { pending: lines },
                                LaunchAction::Spawn {
                                    cmd_line: first,
                                    work_dir: self.work_dir(),
                                    options: Options { io: Io::Suppress },
                                },
                            )
                        },
                        None => {
                            let none: Vec<String> = Vec::new();
                            assert(none.deep_view() =~= Seq::<Seq<char>>::empty());
                            (
                                LaunchState::Replacing,
                                LaunchAction::Replace {
                                    cmd_line: self.template().get_command_line(none),
                                    work_dir: self.work_dir(),
                                    options: Options { io: Io::Inherit },
                                },
                            )
                        },
                    }
                }
            },
            (LaunchState::Spawning { pending }, LaunchEvent::Spawned) => {
                let mut lines = pending;
                if lines.len() == 0 {
                    (LaunchState::Terminal, LaunchAction::Exit)
                } else {
                    let ghost all = lines.deep_view();
                    let first = lines.remove(0);
                    assert(lines.deep_view() =~= all.skip(1));
                    assert(first@ == all[0]);
                    (
                        LaunchState::Spawning { pending: lines },
                        LaunchAction::Spawn {
                            cmd_line: first,
                            work_dir: self.work_dir(),
                            options: Options { io: Io::Suppress },
                        },
                    )
                }
            },
            (LaunchState::Spawning { pending }, LaunchEvent::SpawnFailed) => (
                LaunchState::Terminal,
                LaunchAction::Fail(Error::UnknownError),
            ),
            (LaunchState::Replacing, LaunchEvent::ReplaceFailed { not_found }) => (
                LaunchState::Terminal,
                LaunchAction::Fail(
                    if not_found {
                        Error::ApplicationNotFound
                    } else {
                        Error::UnknownError
                    },
                ),
            ),
            _ => (LaunchState::Terminal, LaunchAction::Fail(Error::UnknownError)),
        }
    }

    /// The next state of a launch, and what is to be done, after `event` in
    /// `state`; or nothing where the template is malformed and nothing can be
    /// launched from it.
    pub fn checked_step(&self, state: LaunchState, event: LaunchEvent) -> (r: Option<
        (LaunchState, LaunchAction),
    >)
        ensures
            match r {
                Some((next, action)) => field_codes(self@.template().args) <= 1 && (next@, action@)
                    == spec_step(self@, state@, event@),
                None => field_codes(self@.template().args) > 1,
            },
    {
        if self.can_launch() {
            Some(self.step(state, event))
        } else {
            None
        }
    }
}

} // verus!
