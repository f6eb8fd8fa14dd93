//! The executor: walks a `Command` tree and decides, one step at a
//! time, which process-level action comes next — fork, exec, wait,
//! pipe creation, descriptor rewiring, built-in dispatch — against the
//! execution context.
//!
//! The operating-system calls themselves cannot be verified, so they
//! live outside the library: an unverified front end performs each
//! emitted [`Action`] and feeds the outcome back as an [`Event`]. Every
//! decision — what to run, in which order, which descriptors to close,
//! how errors propagate — is made here, and the whole transition
//! relation is the spec function [`spec_step`], which `step` is proved
//! to implement exactly.
//!
//! A forked child receives a [`ChildTask`]: after its fixed descriptor
//! setup the front end drives a fresh machine over the task's subtree
//! in the child process and exits with the resulting status.

use vstd::prelude::*;

use crate::utils::{Builtin, CdTarget, CdTargetV, Command, CommandV, ConditionalType,
    ExecutionContext, ExecutionError, RedirectionType, SimpleCommand};
use crate::utils::{builtin_of, cd_plan, cd_request, contains_nul, jobs_listing, jobs_report,
    launch_announcement, launch_line, lookup_builtin};

verus! {

/// Which standard descriptor a redirection touches.
#[derive(Clone, Copy, Debug, PartialEq, Eq, Structural)]
pub enum StdFd {
    In,
    Out,
}

/// The standard descriptor a redirection kind rewires: input
/// redirections touch standard input, output and append redirections
/// touch standard output.
pub open spec fn which_std(kind: RedirectionType) -> StdFd {
    match kind {
        RedirectionType::In => StdFd::In,
        _ => StdFd::Out,
    }
}

/// What a forked child process is to do. The descriptor setup is fixed
/// per variant; for the subtree-running variants the front end drives a
/// fresh machine over the subtree in the child and exits with its
/// status.
#[derive(Debug, PartialEq)]
pub enum ChildTask {
    /// Reset the five ignored signal dispositions to default, then
    /// replace the image via a PATH-searching exec; exit 1 if the exec
    /// returns.
    Exec { argv: Vec<String> },
    /// Close the read end, duplicate the write end over standard
    /// output, close the write end, run the command, exit with its
    /// status.
    PipeLeft { read_fd: i32, write_fd: i32, command: Command },
    /// Close the write end, duplicate the read end over standard
    /// input, close the read end, run the command, exit with its
    /// status.
    PipeRight { read_fd: i32, write_fd: i32, command: Command },
    /// Redirect standard input to the null device, run the command,
    /// exit with its status.
    Background { command: Command },
}

/// Mathematical model of a `ChildTask`.
pub enum ChildTaskV {
    Exec { argv: Seq<Seq<char>> },
    PipeLeft { read_fd: i32, write_fd: i32, command: CommandV },
    PipeRight { read_fd: i32, write_fd: i32, command: CommandV },
    Background { command: CommandV },
}

impl View for ChildTask {
    type V = ChildTaskV;

    open spec fn view(&self) -> ChildTaskV {
        match self {
            ChildTask::Exec { argv } => ChildTaskV::Exec {
                argv: argv@.map_values(|s: String| s@),
            },
            ChildTask::PipeLeft { read_fd, write_fd, command } => ChildTaskV::PipeLeft {
                read_fd: *read_fd,
                write_fd: *write_fd,
                command: command@,
            },
            ChildTask::PipeRight { read_fd, write_fd, command } => ChildTaskV::PipeRight {
                read_fd: *read_fd,
                write_fd: *write_fd,
                command: command@,
            },
            ChildTask::Background { command } => ChildTaskV::Background { command: command@ },
        }
    }
}

/// One process-level action the front end is asked to perform.
#[derive(Debug, PartialEq)]
pub enum Action {
    /// `fork`; the reply is `ForkReply` in the parent, or `ForkFailed`.
    Fork(ChildTask),
    /// Blocking `waitpid`; the reply is `WaitReply`.
    Wait { pid: i32 },
    /// `pipe`; the reply is `PipeReply`.
    CreatePipe,
    /// `close`; the reply is `Ack`.
    CloseFd { fd: i32 },
    /// `dup` of the named standard descriptor; the reply is `SavedFd`.
    SaveStdFd { which: StdFd },
    /// Open the file per the redirection kind: `In` read-only (must
    /// exist), `Out` create-or-truncate write-only, `Append`
    /// create-or-open append-only. The reply is `Opened` or
    /// `OpenFailed`.
    OpenFile { path: String, kind: RedirectionType },
    /// `dup2(fd, std)`, then close `fd`; the reply is `Ack`.
    DupOntoStd { fd: i32, which: StdFd },
    /// `dup2(saved_fd, std)`, then close `saved_fd`; the reply is `Ack`.
    RestoreStdFd { saved_fd: i32, which: StdFd },
    /// Write one line to standard output; the reply is `Ack`.
    Print { line: String },
    /// Write the lines to standard output; the reply is `Ack`.
    PrintLines { lines: Vec<String> },
    /// Terminate the shell process with status 0; no reply comes.
    ExitShell,
    /// `chdir`; the reply is `ChdirReply`.
    Chdir { path: String },
    /// Look the user's home directory up; the reply is `HomeReply`.
    GetHome,
}

/// Mathematical model of an `Action`.
pub enum ActionV {
    Fork(ChildTaskV),
    Wait { pid: i32 },
    CreatePipe,
    CloseFd { fd: i32 },
    SaveStdFd { which: StdFd },
    OpenFile { path: Seq<char>, kind: RedirectionType },
    DupOntoStd { fd: i32, which: StdFd },
    RestoreStdFd { saved_fd: i32, which: StdFd },
    Print { line: Seq<char> },
    PrintLines { lines: Seq<Seq<char>> },
    ExitShell,
    Chdir { path: Seq<char> },
    GetHome,
}

impl View for Action {
    type V = ActionV;

    open spec fn view(&self) -> ActionV {
        match self {
            Action::Fork(task) => ActionV::Fork(task@),
            Action::Wait { pid } => ActionV::Wait { pid: *pid },
            Action::CreatePipe => ActionV::CreatePipe,
            Action::CloseFd { fd } => ActionV::CloseFd { fd: *fd },
            Action::SaveStdFd { which } => ActionV::SaveStdFd { which: *which },
            Action::OpenFile { path, kind } => ActionV::OpenFile { path: path@, kind: *kind },
            Action::DupOntoStd { fd, which } => ActionV::DupOntoStd { fd: *fd, which: *which },
            Action::RestoreStdFd { saved_fd, which } => ActionV::RestoreStdFd {
                saved_fd: *saved_fd,
                which: *which,
            },
            Action::Print { line } => ActionV::Print { line: line@ },
            Action::PrintLines { lines } => ActionV::PrintLines {
                lines: lines@.map_values(|s: String| s@),
            },
            Action::ExitShell => ActionV::ExitShell,
            Action::Chdir { path } => ActionV::Chdir { path: path@ },
            Action::GetHome => ActionV::GetHome,
        }
    }
}

/// What the front end reports back after performing an action. `Tick`
/// drives the machine when no action is outstanding.
pub enum Event {
    Tick,
    ForkReply { pid: i32 },
    ForkFailed,
    WaitReply { status: i32 },
    PipeReply { read_fd: i32, write_fd: i32 },
    SavedFd { fd: i32 },
    Opened { fd: i32 },
    OpenFailed { code: i32 },
    ChdirReply { ok: bool },
    HomeReply { home: Option<String> },
    Ack,
}

/// Mathematical model of an `Event`.
pub enum EventV {
    Tick,
    ForkReply { pid: i32 },
    ForkFailed,
    WaitReply { status: i32 },
    PipeReply { read_fd: i32, write_fd: i32 },
    SavedFd { fd: i32 },
    Opened { fd: i32 },
    OpenFailed { code: i32 },
    ChdirReply { ok: bool },
    HomeReply { home: Option<Seq<char>> },
    Ack,
}

impl View for Event {
    type V = EventV;

    open spec fn view(&self) -> EventV {
        match self {
            Event::Tick => EventV::Tick,
            Event::ForkReply { pid } => EventV::ForkReply { pid: *pid },
            Event::ForkFailed => EventV::ForkFailed,
            Event::WaitReply { status } => EventV::WaitReply { status: *status },
            Event::PipeReply { read_fd, write_fd } => EventV::PipeReply {
                read_fd: *read_fd,
                write_fd: *write_fd,
            },
            Event::SavedFd { fd } => EventV::SavedFd { fd: *fd },
            Event::Opened { fd } => EventV::Opened { fd: *fd },
            Event::OpenFailed { code } => EventV::OpenFailed { code: *code },
            Event::ChdirReply { ok } => EventV::ChdirReply { ok: *ok },
            Event::HomeReply { home } => EventV::HomeReply {
                home: match home {
                    Some(h) => Some(h@),
                    None => None,
                },
            },
            Event::Ack => EventV::Ack,
        }
    }
}

/// What one step of the machine asks of its driver.
#[derive(Debug, PartialEq)]
pub enum Step {
    /// Nothing to perform; step again with `Tick`.
    Continue,
    /// Perform this action and step again with its reply.
    Act(Action),
    /// The tree is fully executed: its exit status, or the error.
    Done(Result<i32, ExecutionError>),
}

/// Mathematical model of a `Step`.
pub enum StepV {
    Continue,
    Act(ActionV),
    Done(Result<i32, ExecutionError>),
}

impl View for Step {
    type V = StepV;

    open spec fn view(&self) -> StepV {
        match self {
            Step::Continue => StepV::Continue,
            Step::Act(a) => StepV::Act(a@),
            Step::Done(r) => StepV::Done(*r),
        }
    }
}

/// What remains to do once the subtree under evaluation has finished.
pub enum Frame {
    /// The first half of a `Sequence` is running; run `second` next.
    SeqSecond { second: Command },
    /// The left side of a `Conditional` is running; decide on its status.
    CondRight { right: Command, operator: ConditionalType },
    /// A redirection is in force; restore the saved descriptor on every
    /// exit path, success or error.
    Restore { saved_fd: i32, which: StdFd },
}

/// Mathematical model of a `Frame`.
pub enum FrameV {
    SeqSecond { second: CommandV },
    CondRight { right: CommandV, operator: ConditionalType },
    Restore { saved_fd: i32, which: StdFd },
}

impl View for Frame {
    type V = FrameV;

    open spec fn view(&self) -> FrameV {
        match self {
            Frame::SeqSecond { second } => FrameV::SeqSecond { second: second@ },
            Frame::CondRight { right, operator } => FrameV::CondRight {
                right: right@,
                operator: *operator,
            },
            Frame::Restore { saved_fd, which } => FrameV::Restore {
                saved_fd: *saved_fd,
                which: *which,
            },
        }
    }
}

/// Where the machine stands: evaluating a subtree, propagating a
/// status or an error, or awaiting the reply to an emitted action.
pub enum Phase {
    Run { command: Command },
    Ret { status: i32 },
    Fail { error: ExecutionError },
    AwaitForkExec,
    AwaitWaitExec,
    AwaitPipeFds { left: Command, right: Command },
    AwaitForkLeft { read_fd: i32, write_fd: i32, right: Command },
    AwaitForkRight { read_fd: i32, write_fd: i32, pid_left: i32 },
    AwaitCloseRead { write_fd: i32, pid_left: i32, pid_right: i32 },
    AwaitCloseWrite { pid_left: i32, pid_right: i32 },
    AwaitWaitLeft { pid_right: i32 },
    AwaitWaitRight,
    CleanupCloseRead { write_fd: i32 },
    CleanupCloseWrite,
    AwaitSave { kind: RedirectionType, target: String, child: Command },
    AwaitOpen { kind: RedirectionType, saved_fd: i32, child: Command },
    AwaitDup { saved_fd: i32, which: StdFd, child: Command },
    CleanupCloseSaved { code: i32 },
    AwaitRestore { pending: Result<i32, ExecutionError> },
    AwaitForkBg,
    AwaitPrintBg,
    AwaitPrintJobs,
    AwaitHome,
    AwaitChdir,
}

/// Mathematical model of a `Phase`.
pub enum PhaseV {
    Run { command: CommandV },
    Ret { status: i32 },
    Fail { error: ExecutionError },
    AwaitForkExec,
    AwaitWaitExec,
    AwaitPipeFds { left: CommandV, right: CommandV },
    AwaitForkLeft { read_fd: i32, write_fd: i32, right: CommandV },
    AwaitForkRight { read_fd: i32, write_fd: i32, pid_left: i32 },
    AwaitCloseRead { write_fd: i32, pid_left: i32, pid_right: i32 },
    AwaitCloseWrite { pid_left: i32, pid_right: i32 },
    AwaitWaitLeft { pid_right: i32 },
    AwaitWaitRight,
    CleanupCloseRead { write_fd: i32 },
    CleanupCloseWrite,
    AwaitSave { kind: RedirectionType, target: Seq<char>, child: CommandV },
    AwaitOpen { kind: RedirectionType, saved_fd: i32, child: CommandV },
    AwaitDup { saved_fd: i32, which: StdFd, child: CommandV },
    CleanupCloseSaved { code: i32 },
    AwaitRestore { pending: Result<i32, ExecutionError> },
    AwaitForkBg,
    AwaitPrintBg,
    AwaitPrintJobs,
    AwaitHome,
    AwaitChdir,
}

impl View for Phase {
    type V = PhaseV;

    open spec fn view(&self) -> PhaseV {
        match self {
            Phase::Run { command } => PhaseV::Run { command: command@ },
            Phase::Ret { status } => PhaseV::Ret { status: *status },
            Phase::Fail { error } => PhaseV::Fail { error: *error },
            Phase::AwaitForkExec => PhaseV::AwaitForkExec,
            Phase::AwaitWaitExec => PhaseV::AwaitWaitExec,
            Phase::AwaitPipeFds { left, right } => PhaseV::AwaitPipeFds {
                left: left@,
                right: right@,
            },
            Phase::AwaitForkLeft { read_fd, write_fd, right } => PhaseV::AwaitForkLeft {
                read_fd: *read_fd,
                write_fd: *write_fd,
                right: right@,
            },
            Phase::AwaitForkRight { read_fd, write_fd, pid_left } => PhaseV::AwaitForkRight {
                read_fd: *read_fd,
                write_fd: *write_fd,
                pid_left: *pid_left,
            },
            Phase::AwaitCloseRead { write_fd, pid_left, pid_right } => PhaseV::AwaitCloseRead {
                write_fd: *write_fd,
                pid_left: *pid_left,
                pid_right: *pid_right,
            },
            Phase::AwaitCloseWrite { pid_left, pid_right } => PhaseV::AwaitCloseWrite {
                pid_left: *pid_left,
                pid_right: *pid_right,
            },
            Phase::AwaitWaitLeft { pid_right } => PhaseV::AwaitWaitLeft { pid_right: *pid_right },
            Phase::AwaitWaitRight => PhaseV::AwaitWaitRight,
            Phase::CleanupCloseRead { write_fd } => PhaseV::CleanupCloseRead {
                write_fd: *write_fd,
            },
            Phase::CleanupCloseWrite => PhaseV::CleanupCloseWrite,
            Phase::AwaitSave { kind, target, child } => PhaseV::AwaitSave {
                kind: *kind,
                target: target@,
                child: child@,
            },
            Phase::AwaitOpen { kind, saved_fd, child } => PhaseV::AwaitOpen {
                kind: *kind,
                saved_fd: *saved_fd,
                child: child@,
            },
            Phase::AwaitDup { saved_fd, which, child } => PhaseV::AwaitDup {
                saved_fd: *saved_fd,
                which: *which,
                child: child@,
            },
            Phase::CleanupCloseSaved { code } => PhaseV::CleanupCloseSaved { code: *code },
            Phase::AwaitRestore { pending } => PhaseV::AwaitRestore { pending: *pending },
            Phase::AwaitForkBg => PhaseV::AwaitForkBg,
            Phase::AwaitPrintBg => PhaseV::AwaitPrintBg,
            Phase::AwaitPrintJobs => PhaseV::AwaitPrintJobs,
            Phase::AwaitHome => PhaseV::AwaitHome,
            Phase::AwaitChdir => PhaseV::AwaitChdir,
        }
    }
}

/// The executor machine for one command tree in one process.
pub struct Execution {
    pub frames: Vec<Frame>,
    pub phase: Phase,
}

/// Mathematical model of an `Execution`.
pub struct MachineV {
    pub frames: Seq<FrameV>,
    pub phase: PhaseV,
}

impl View for Execution {
    type V = MachineV;

    open spec fn view(&self) -> MachineV {
        MachineV { frames: self.frames@.map_values(|f: Frame| f@), phase: self.phase@ }
    }
}

/// Whether a conditional runs its right side, given the operator and
/// the left side's exit status: `&&` runs it exactly on status 0,
/// `||` exactly on nonzero status.
pub open spec fn takes_right(operator: ConditionalType, status: i32) -> bool {
    match operator {
        ConditionalType::And => status == 0,
        ConditionalType::Or => status != 0,
    }
}

/// One transition of the machine on a command node: built-ins are
/// decided in place, simple commands fork and wait, pipes open their
/// channel, redirections save the standard descriptor, sequences and
/// conditionals push a frame and descend, background nodes fork
/// without waiting.
pub open spec fn spec_step_run(frames: Seq<FrameV>, c: CommandV, jobs: Seq<i32>) -> (
    MachineV,
    Seq<i32>,
    StepV,
) {
    match c {
        CommandV::Simple(sc) => {
            if sc.arguments.len() == 0 {
                (
                    MachineV {
                        frames,
                        phase: PhaseV::Fail { error: ExecutionError::Panic },
                    },
                    jobs,
                    StepV::Continue,
                )
            } else {
                match builtin_of(sc.command) {
                    Some(Builtin::Exit) => (
                        MachineV { frames, phase: PhaseV::Ret { status: 0 } },
                        jobs,
                        StepV::Act(ActionV::ExitShell),
                    ),
                    Some(Builtin::Cd) => {
                        match cd_plan(sc.arguments) {
                            Err(e) => (
                                MachineV { frames, phase: PhaseV::Fail { error: e } },
                                jobs,
                                StepV::Continue,
                            ),
                            Ok(CdTargetV::Home) => (
                                MachineV { frames, phase: PhaseV::AwaitHome },
                                jobs,
                                StepV::Act(ActionV::GetHome),
                            ),
                            Ok(CdTargetV::Path(p)) => {
                                if p.contains('\0') {
                                    (
                                        MachineV {
                                            frames,
                                            phase: PhaseV::Fail {
                                                error: ExecutionError::InvalidPath,
                                            },
                                        },
                                        jobs,
                                        StepV::Continue,
                                    )
                                } else {
                                    (
                                        MachineV { frames, phase: PhaseV::AwaitChdir },
                                        jobs,
                                        StepV::Act(ActionV::Chdir { path: p }),
                                    )
                                }
                            },
                        }
                    },
                    Some(Builtin::Jobs) => (
                        MachineV { frames, phase: PhaseV::AwaitPrintJobs },
                        jobs,
                        StepV::Act(ActionV::PrintLines { lines: jobs_report(jobs) }),
                    ),
                    None => (
                        MachineV { frames, phase: PhaseV::AwaitForkExec },
                        jobs,
                        StepV::Act(ActionV::Fork(ChildTaskV::Exec { argv: sc.arguments })),
                    ),
                }
            }
        },
        CommandV::Pipe { left, right } => (
            MachineV { frames, phase: PhaseV::AwaitPipeFds { left: *left, right: *right } },
            jobs,
            StepV::Act(ActionV::CreatePipe),
        ),
        CommandV::Redirect { child_command, redirect_type, target_file } => (
            MachineV {
                frames,
                phase: PhaseV::AwaitSave {
                    kind: redirect_type,
                    target: target_file,
                    child: *child_command,
                },
            },
            jobs,
            StepV::Act(ActionV::SaveStdFd { which: which_std(redirect_type) }),
        ),
        CommandV::Sequence { first, second } => (
            MachineV {
                frames: frames.push(FrameV::SeqSecond { second: *second }),
                phase: PhaseV::Run { command: *first },
            },
            jobs,
            StepV::Continue,
        ),
        CommandV::Conditional { left, right, operator } => (
            MachineV {
                frames: frames.push(FrameV::CondRight { right: *right, operator }),
                phase: PhaseV::Run { command: *left },
            },
            jobs,
            StepV::Continue,
        ),
        CommandV::Background { child_command } => (
            MachineV { frames, phase: PhaseV::AwaitForkBg },
            jobs,
            StepV::Act(ActionV::Fork(ChildTaskV::Background { command: *child_command })),
        ),
    }
}

/// One transition on a completed subtree's status: with no frames left
/// the tree is done; a sequence frame runs its second half; a
/// conditional frame decides by the short-circuit law; a redirection
/// frame restores the saved descriptor before the status moves on.
pub open spec fn spec_step_ret(frames: Seq<FrameV>, status: i32, jobs: Seq<i32>) -> (
    MachineV,
    Seq<i32>,
    StepV,
) {
    if frames.len() == 0 {
        (
            MachineV { frames, phase: PhaseV::Ret { status } },
            jobs,
            StepV::Done(Ok(status)),
        )
    } else {
        match frames.last() {
            FrameV::SeqSecond { second } => (
                MachineV { frames: frames.drop_last(), phase: PhaseV::Run { command: second } },
                jobs,
                StepV::Continue,
            ),
            FrameV::CondRight { right, operator } => {
                if takes_right(operator, status) {
                    (
                        MachineV {
                            frames: frames.drop_last(),
                            phase: PhaseV::Run { command: right },
                        },
                        jobs,
                        StepV::Continue,
                    )
                } else {
                    (
                        MachineV { frames: frames.drop_last(), phase: PhaseV::Ret { status } },
                        jobs,
                        StepV::Continue,
                    )
                }
            },
            FrameV::Restore { saved_fd, which } => (
                MachineV {
                    frames: frames.drop_last(),
                    phase: PhaseV::AwaitRestore { pending: Ok(status) },
                },
                jobs,
                StepV::Act(ActionV::RestoreStdFd { saved_fd, which }),
            ),
        }
    }
}

/// One transition on a propagating executor error: a sequence frame
/// passes it on, a conditional frame coerces it to exit status 1 for
/// the branch decision, a redirection frame still restores the saved
/// descriptor first.
pub open spec fn spec_step_fail(frames: Seq<FrameV>, error: ExecutionError, jobs: Seq<i32>) -> (
    MachineV,
    Seq<i32>,
    StepV,
) {
    if frames.len() == 0 {
        (
            MachineV { frames, phase: PhaseV::Fail { error } },
            jobs,
            StepV::Done(Err(error)),
        )
    } else {
        match frames.last() {
            FrameV::SeqSecond { second } => (
                MachineV { frames: frames.drop_last(), phase: PhaseV::Fail { error } },
                jobs,
                StepV::Continue,
            ),
            FrameV::CondRight { right, operator } => {
                if takes_right(operator, 1) {
                    (
                        MachineV {
                            frames: frames.drop_last(),
                            phase: PhaseV::Run { command: right },
                        },
                        jobs,
                        StepV::Continue,
                    )
                } else {
                    (
                        MachineV {
                            frames: frames.drop_last(),
                            phase: PhaseV::Ret { status: 1 },
                        },
                        jobs,
                        StepV::Continue,
                    )
                }
            },
            FrameV::Restore { saved_fd, which } => (
                MachineV {
                    frames: frames.drop_last(),
                    phase: PhaseV::AwaitRestore { pending: Err(error) },
                },
                jobs,
                StepV::Act(ActionV::RestoreStdFd { saved_fd, which }),
            ),
        }
    }
}

/// The machine's whole transition relation: what the next state, the
/// next job table and the next request are, for every machine state
/// and every event. An event that is not the awaited reply is an
/// impossible state and fails with `Panic`; the error then unwinds
/// through the frames like any other, restoring saved descriptors.
pub open spec fn spec_step(m: MachineV, jobs: Seq<i32>, ev: EventV) -> (MachineV, Seq<i32>, StepV) {
    match m.phase {
        PhaseV::Run { command } => spec_step_run(m.frames, command, jobs),
        PhaseV::Ret { status } => spec_step_ret(m.frames, status, jobs),
        PhaseV::Fail { error } => spec_step_fail(m.frames, error, jobs),
        PhaseV::AwaitForkExec => match ev {
            EventV::ForkReply { pid } => (
                MachineV { frames: m.frames, phase: PhaseV::AwaitWaitExec },
                jobs,
                StepV::Act(ActionV::Wait { pid }),
            ),
            EventV::ForkFailed => (
                MachineV {
                    frames: m.frames,
                    phase: PhaseV::Fail { error: ExecutionError::ForkFailed },
                },
                jobs,
                StepV::Continue,
            ),
            _ => (
                MachineV { frames: m.frames, phase: PhaseV::Fail { error: ExecutionError::Panic } },
                jobs,
                StepV::Continue,
            ),
        },
        PhaseV::AwaitWaitExec => match ev {
            EventV::WaitReply { status } => (
                MachineV { frames: m.frames, phase: PhaseV::Ret { status } },
                jobs,
                StepV::Continue,
            ),
            _ => (
                MachineV { frames: m.frames, phase: PhaseV::Fail { error: ExecutionError::Panic } },
                jobs,
                StepV::Continue,
            ),
        },
        PhaseV::AwaitPipeFds { left, right } => match ev {
            EventV::PipeReply { read_fd, write_fd } => (
                MachineV {
                    frames: m.frames,
                    phase: PhaseV::AwaitForkLeft { read_fd, write_fd, right },
                },
                jobs,
                StepV::Act(
                    ActionV::Fork(ChildTaskV::PipeLeft { read_fd, write_fd, command: left }),
                ),
            ),
            _ => (
                MachineV { frames: m.frames, phase: PhaseV::Fail { error: ExecutionError::Panic } },
                jobs,
                StepV::Continue,
            ),
        },
        PhaseV::AwaitForkLeft { read_fd, write_fd, right } => match ev {
            EventV::ForkReply { pid } => (
                MachineV {
                    frames: m.frames,
                    phase: PhaseV::AwaitForkRight { read_fd, write_fd, pid_left: pid },
                },
                jobs,
                StepV::Act(
                    ActionV::Fork(ChildTaskV::PipeRight { read_fd, write_fd, command: right }),
                ),
            ),
            EventV::ForkFailed => (
                MachineV { frames: m.frames, phase: PhaseV::CleanupCloseRead { write_fd } },
                jobs,
                StepV::Act(ActionV::CloseFd { fd: read_fd }),
            ),
            _ => (
                MachineV { frames: m.frames, phase: PhaseV::Fail { error: ExecutionError::Panic } },
                jobs,
                StepV::Continue,
            ),
        },
        PhaseV::AwaitForkRight { read_fd, write_fd, pid_left } => match ev {
            EventV::ForkReply { pid } => (
                MachineV {
                    frames: m.frames,
                    phase: PhaseV::AwaitCloseRead { write_fd, pid_left, pid_right: pid },
                },
                jobs,
                StepV::Act(ActionV::CloseFd { fd: read_fd }),
            ),
            EventV::ForkFailed => (
                MachineV { frames: m.frames, phase: PhaseV::CleanupCloseRead { write_fd } },
                jobs,
                StepV::Act(ActionV::CloseFd { fd: read_fd }),
            ),
            _ => (
                MachineV { frames: m.frames, phase: PhaseV::Fail { error: ExecutionError::Panic } },
                jobs,
                StepV::Continue,
            ),
        },
        PhaseV::AwaitCloseRead { write_fd, pid_left, pid_right } => match ev {
            EventV::Ack => (
                MachineV { frames: m.frames, phase: PhaseV::AwaitCloseWrite { pid_left, pid_right } },
                jobs,
                StepV::Act(ActionV::CloseFd { fd: write_fd }),
            ),
            _ => (
                MachineV { frames: m.frames, phase: PhaseV::Fail { error: ExecutionError::Panic } },
                jobs,
                StepV::Continue,
            ),
        },
        PhaseV::AwaitCloseWrite { pid_left, pid_right } => match ev {
            EventV::Ack => (
                MachineV { frames: m.frames, phase: PhaseV::AwaitWaitLeft { pid_right } },
                jobs,
                StepV::Act(ActionV::Wait { pid: pid_left }),
            ),
            _ => (
                MachineV { frames: m.frames, phase: PhaseV::Fail { error: ExecutionError::Panic } },
                jobs,
                StepV::Continue,
            ),
        },
        PhaseV::AwaitWaitLeft { pid_right } => match ev {
            EventV::WaitReply { status } => (
                MachineV { frames: m.frames, phase: PhaseV::AwaitWaitRight },
                jobs,
                StepV::Act(ActionV::Wait { pid: pid_right }),
            ),
            _ => (
                MachineV { frames: m.frames, phase: PhaseV::Fail { error: ExecutionError::Panic } },
                jobs,
                StepV::Continue,
            ),
        },
        PhaseV::AwaitWaitRight => match ev {
            EventV::WaitReply { status } => (
                MachineV { frames: m.frames, phase: PhaseV::Ret { status } },
                jobs,
                StepV::Continue,
            ),
            _ => (
                MachineV { frames: m.frames, phase: PhaseV::Fail { error: ExecutionError::Panic } },
                jobs,
                StepV::Continue,
            ),
        },
        PhaseV::CleanupCloseRead { write_fd } => match ev {
            EventV::Ack => (
                MachineV { frames: m.frames, phase: PhaseV::CleanupCloseWrite },
                jobs,
                StepV::Act(ActionV::CloseFd { fd: write_fd }),
            ),
            _ => (
                MachineV { frames: m.frames, phase: PhaseV::Fail { error: ExecutionError::Panic } },
                jobs,
                StepV::Continue,
            ),
        },
        PhaseV::CleanupCloseWrite => match ev {
            EventV::Ack => (
                MachineV {
                    frames: m.frames,
                    phase: PhaseV::Fail { error: ExecutionError::ForkFailed },
                },
                jobs,
                StepV::Continue,
            ),
            _ => (
                MachineV { frames: m.frames, phase: PhaseV::Fail { error: ExecutionError::Panic } },
                jobs,
                StepV::Continue,
            ),
        },
        PhaseV::AwaitSave { kind, target, child } => match ev {
            EventV::SavedFd { fd } => (
                MachineV { frames: m.frames, phase: PhaseV::AwaitOpen { kind, saved_fd: fd, child } },
                jobs,
                StepV::Act(ActionV::OpenFile { path: target, kind }),
            ),
            _ => (
                MachineV { frames: m.frames, phase: PhaseV::Fail { error: ExecutionError::Panic } },
                jobs,
                StepV::Continue,
            ),
        },
        PhaseV::AwaitOpen { kind, saved_fd, child } => match ev {
            EventV::Opened { fd } => (
                MachineV {
                    frames: m.frames,
                    phase: PhaseV::AwaitDup { saved_fd, which: which_std(kind), child },
                },
                jobs,
                StepV::Act(ActionV::DupOntoStd { fd, which: which_std(kind) }),
            ),
            EventV::OpenFailed { code } => (
                MachineV { frames: m.frames, phase: PhaseV::CleanupCloseSaved { code } },
                jobs,
                StepV::Act(ActionV::CloseFd { fd: saved_fd }),
            ),
            _ => (
                MachineV { frames: m.frames, phase: PhaseV::Fail { error: ExecutionError::Panic } },
                jobs,
                StepV::Continue,
            ),
        },
        PhaseV::AwaitDup { saved_fd, which, child } => match ev {
            EventV::Ack => (
                MachineV {
                    frames: m.frames.push(FrameV::Restore { saved_fd, which }),
                    phase: PhaseV::Run { command: child },
                },
                jobs,
                StepV::Continue,
            ),
            _ => (
                MachineV { frames: m.frames, phase: PhaseV::Fail { error: ExecutionError::Panic } },
                jobs,
                StepV::Continue,
            ),
        },
        PhaseV::CleanupCloseSaved { code } => match ev {
            EventV::Ack => (
                MachineV {
                    frames: m.frames,
                    phase: PhaseV::Fail { error: ExecutionError::FileError(code) },
                },
                jobs,
                StepV::Continue,
            ),
            _ => (
                MachineV { frames: m.frames, phase: PhaseV::Fail { error: ExecutionError::Panic } },
                jobs,
                StepV::Continue,
            ),
        },
        PhaseV::AwaitRestore { pending } => match ev {
            EventV::Ack => (
                MachineV {
                    frames: m.frames,
                    phase: match pending {
                        Ok(status) => PhaseV::Ret { status },
                        Err(error) => PhaseV::Fail { error },
                    },
                },
                jobs,
                StepV::Continue,
            ),
            _ => (
                MachineV { frames: m.frames, phase: PhaseV::Fail { error: ExecutionError::Panic } },
                jobs,
                StepV::Continue,
            ),
        },
        PhaseV::AwaitForkBg => match ev {
            EventV::ForkReply { pid } => (
                MachineV { frames: m.frames, phase: PhaseV::AwaitPrintBg },
                jobs.push(pid),
                StepV::Act(
                    ActionV::Print { line: launch_line(jobs.len() + 1, pid as int) },
                ),
            ),
            EventV::ForkFailed => (
                MachineV {
                    frames: m.frames,
                    phase: PhaseV::Fail { error: ExecutionError::ForkFailed },
                },
                jobs,
                StepV::Continue,
            ),
            _ => (
                MachineV { frames: m.frames, phase: PhaseV::Fail { error: ExecutionError::Panic } },
                jobs,
                StepV::Continue,
            ),
        },
        PhaseV::AwaitPrintBg => match ev {
            EventV::Ack => (
                MachineV { frames: m.frames, phase: PhaseV::Ret { status: 0 } },
                jobs,
                StepV::Continue,
            ),
            _ => (
                MachineV { frames: m.frames, phase: PhaseV::Fail { error: ExecutionError::Panic } },
                jobs,
                StepV::Continue,
            ),
        },
        PhaseV::AwaitPrintJobs => match ev {
            EventV::Ack => (
                MachineV { frames: m.frames, phase: PhaseV::Ret { status: 0 } },
                jobs,
                StepV::Continue,
            ),
            _ => (
                MachineV { frames: m.frames, phase: PhaseV::Fail { error: ExecutionError::Panic } },
                jobs,
                StepV::Continue,
            ),
        },
        PhaseV::AwaitHome => match ev {
            EventV::HomeReply { home } => match home {
                None => (
                    MachineV {
                        frames: m.frames,
                        phase: PhaseV::Fail { error: ExecutionError::NoHomeDirectory },
                    },
                    jobs,
                    StepV::Continue,
                ),
                Some(h) => {
                    if h.contains('\0') {
                        (
                            MachineV {
                                frames: m.frames,
                                phase: PhaseV::Fail { error: ExecutionError::InvalidPath },
                            },
                            jobs,
                            StepV::Continue,
                        )
                    } else {
                        (
                            MachineV { frames: m.frames, phase: PhaseV::AwaitChdir },
                            jobs,
                            StepV::Act(ActionV::Chdir { path: h }),
                        )
                    }
                },
            },
            _ => (
                MachineV { frames: m.frames, phase: PhaseV::Fail { error: ExecutionError::Panic } },
                jobs,
                StepV::Continue,
            ),
        },
        PhaseV::AwaitChdir => match ev {
            EventV::ChdirReply { ok } => {
                if ok {
                    (
                        MachineV { frames: m.frames, phase: PhaseV::Ret { status: 0 } },
                        jobs,
                        StepV::Continue,
                    )
                } else {
                    (
                        MachineV {
                            frames: m.frames,
                            phase: PhaseV::Fail { error: ExecutionError::DirectoryNotFound },
                        },
                        jobs,
                        StepV::Continue,
                    )
                }
            },
            _ => (
                MachineV { frames: m.frames, phase: PhaseV::Fail { error: ExecutionError::Panic } },
                jobs,
                StepV::Continue,
            ),
        },
    }
}

proof fn lemma_fviews_push(fs: Seq<Frame>, f: Frame)
    ensures
        fs.push(f).map_values(|fr: Frame| fr@) == fs.map_values(|fr: Frame| fr@).push(f@),
{
    assert(fs.push(f).map_values(|fr: Frame| fr@) =~= fs.map_values(|fr: Frame| fr@).push(f@));
}

proof fn lemma_fviews_drop(fs: Seq<Frame>)
    requires
        fs.len() > 0,
    ensures
        fs.drop_last().map_values(|fr: Frame| fr@) == fs.map_values(|fr: Frame| fr@).drop_last(),
        fs.map_values(|fr: Frame| fr@).last() == fs.last()@,
{
    assert(fs.drop_last().map_values(|fr: Frame| fr@) =~= fs.map_values(
        |fr: Frame| fr@,
    ).drop_last());
}

/// Starts the execution of one command tree: the machine that decides,
/// step by step, every fork, wait, redirection and built-in dispatch
/// the tree calls for.
pub fn execute(node: Command) -> (m: Execution)
    ensures
        m@ == (MachineV { frames: Seq::<FrameV>::empty(), phase: PhaseV::Run { command: node@ } }),
{
    let m = Execution { frames: Vec::new(), phase: Phase::Run { command: node } };
    proof {
        assert(m.frames@.map_values(|fr: Frame| fr@) =~= Seq::<FrameV>::empty());
    }
    m
}

impl Execution {
    /// Mirrors `spec_step_run` on a command node.
    fn step_run(frames: Vec<Frame>, command: Command, ctx: &ExecutionContext) -> (r: (
        Execution,
        Step,
    ))
        ensures
            ({
                let (mv, jv, sv) = spec_step_run(
                    frames@.map_values(|fr: Frame| fr@),
                    command@,
                    ctx.jobs@,
                );
                r.0@ == mv && jv == ctx.jobs@ && r.1@ == sv
            }),
    {
        let ghost fv = frames@.map_values(|fr: Frame| fr@);
        match command {
            Command::Simple(sc) => {
                if sc.arguments.is_empty() {
                    (
                        Execution { frames, phase: Phase::Fail { error: ExecutionError::Panic } },
                        Step::Continue,
                    )
                } else {
                    match lookup_builtin(&sc.command) {
                        Some(Builtin::Exit) => (
                            Execution { frames, phase: Phase::Ret { status: 0 } },
                            Step::Act(Action::ExitShell),
                        ),
                        Some(Builtin::Cd) => match cd_request(&sc) {
                            Err(e) => (
                                Execution { frames, phase: Phase::Fail { error: e } },
                                Step::Continue,
                            ),
                            Ok(CdTarget::Home) => (
                                Execution { frames, phase: Phase::AwaitHome },
                                Step::Act(Action::GetHome),
                            ),
                            Ok(CdTarget::Path(p)) => {
                                if contains_nul(&p) {
                                    (
                                        Execution {
                                            frames,
                                            phase: Phase::Fail {
                                                error: ExecutionError::InvalidPath,
                                            },
                                        },
                                        Step::Continue,
                                    )
                                } else {
                                    (
                                        Execution { frames, phase: Phase::AwaitChdir },
                                        Step::Act(Action::Chdir { path: p }),
                                    )
                                }
                            },
                        },
                        Some(Builtin::Jobs) => {
                            let lines = jobs_listing(&ctx.jobs);
                            (
                                Execution { frames, phase: Phase::AwaitPrintJobs },
                                Step::Act(Action::PrintLines { lines }),
                            )
                        },
                        None => (
                            Execution { frames, phase: Phase::AwaitForkExec },
                            Step::Act(Action::Fork(ChildTask::Exec { argv: sc.arguments })),
                        ),
                    }
                }
            },
            Command::Pipe { left, right } => (
                Execution { frames, phase: Phase::AwaitPipeFds { left: *left, right: *right } },
                Step::Act(Action::CreatePipe),
            ),
            Command::Redirect { child_command, redirect_type, target_file } => {
                let which = match redirect_type {
                    RedirectionType::In => StdFd::In,
                    _ => StdFd::Out,
                };
                (
                    Execution {
                        frames,
                        phase: Phase::AwaitSave {
                            kind: redirect_type,
                            target: target_file,
                            child: *child_command,
                        },
                    },
                    Step::Act(Action::SaveStdFd { which }),
                )
            },
            Command::Sequence { first, second } => {
                let mut frames = frames;
                let fr = Frame::SeqSecond { second: *second };
                proof {
                    lemma_fviews_push(frames@, fr);
                }
                frames.push(fr);
                (
                    Execution { frames, phase: Phase::Run { command: *first } },
                    Step::Continue,
                )
            },
            Command::Conditional { left, right, operator } => {
                let mut frames = frames;
                let fr = Frame::CondRight { right: *right, operator };
                proof {
                    lemma_fviews_push(frames@, fr);
                }
                frames.push(fr);
                (
                    Execution { frames, phase: Phase::Run { command: *left } },
                    Step::Continue,
                )
            },
            Command::Background { child_command } => (
                Execution { frames, phase: Phase::AwaitForkBg },
                Step::Act(Action::Fork(ChildTask::Background { command: *child_command })),
            ),
        }
    }

    /// Mirrors `spec_step_ret` on a completed subtree's status.
    fn step_ret(frames: Vec<Frame>, status: i32) -> (r: (Execution, Step))
        ensures
            ({
                let (mv, jv, sv) = spec_step_ret(
                    frames@.map_values(|fr: Frame| fr@),
                    status,
                    Seq::<i32>::empty(),
                );
                r.0@ == mv && r.1@ == sv
            }),
    {
        let mut frames = frames;
        if frames.len() == 0 {
            (
                Execution { frames, phase: Phase::Ret { status } },
                Step::Done(Ok(status)),
            )
        } else {
            proof {
                lemma_fviews_drop(frames@);
            }
            let fr = frames.pop().unwrap();
            match fr {
                Frame::SeqSecond { second } => (
                    Execution { frames, phase: Phase::Run { command: second } },
                    Step::Continue,
                ),
                Frame::CondRight { right, operator } => {
                    let goes_right = match operator {
                        ConditionalType::And => status == 0,
                        ConditionalType::Or => status != 0,
                    };
                    if goes_right {
                        (
                            Execution { frames, phase: Phase::Run { command: right } },
                            Step::Continue,
                        )
                    } else {
                        (
                            Execution { frames, phase: Phase::Ret { status } },
                            Step::Continue,
                        )
                    }
                },
                Frame::Restore { saved_fd, which } => (
                    Execution { frames, phase: Phase::AwaitRestore { pending: Ok(status) } },
                    Step::Act(Action::RestoreStdFd { saved_fd, which }),
                ),
            }
        }
    }

    /// Mirrors `spec_step_fail` on a propagating executor error.
    fn step_fail(frames: Vec<Frame>, error: ExecutionError) -> (r: (Execution, Step))
        ensures
            ({
                let (mv, jv, sv) = spec_step_fail(
                    frames@.map_values(|fr: Frame| fr@),
                    error,
                    Seq::<i32>::empty(),
                );
                r.0@ == mv && r.1@ == sv
            }),
    {
        let mut frames = frames;
        if frames.len() == 0 {
            (
                Execution { frames, phase: Phase::Fail { error } },
                Step::Done(Err(error)),
            )
        } else {
            proof {
                lemma_fviews_drop(frames@);
            }
            let fr = frames.pop().unwrap();
            match fr {
                Frame::SeqSecond { second: _ } => (
                    Execution { frames, phase: Phase::Fail { error } },
                    Step::Continue,
                ),
                Frame::CondRight { right, operator } => {
                    let goes_right = match operator {
                        ConditionalType::And => false,
                        ConditionalType::Or => true,
                    };
                    if goes_right {
                        (
                            Execution { frames, phase: Phase::Run { command: right } },
                            Step::Continue,
                        )
                    } else {
                        (
                            Execution { frames, phase: Phase::Ret { status: 1 } },
                            Step::Continue,
                        )
                    }
                },
                Frame::Restore { saved_fd, which } => (
                    Execution { frames, phase: Phase::AwaitRestore { pending: Err(error) } },
                    Step::Act(Action::RestoreStdFd { saved_fd, which }),
                ),
            }
        }
    }

    /// One transition of the machine: applies the event to the current
    /// phase and returns the next machine together with what the
    /// driver is to do — exactly what [`spec_step`] prescribes. Of the
    /// execution context only the job table changes, and only when a
    /// background fork is recorded.
    pub fn step(self, ctx: &mut ExecutionContext, ev: Event) -> (r: (Execution, Step))
        ensures
            ({
                let (mv, jv, sv) = spec_step(self@, old(ctx).jobs@, ev@);
                r.0@ == mv && final(ctx).jobs@ == jv && r.1@ == sv
            }),
            final(ctx).variables == old(ctx).variables,
            final(ctx).shell_pgid == old(ctx).shell_pgid,
            final(ctx).last_exit_status == old(ctx).last_exit_status,
    {
        let Execution { frames, phase } = self;
        match phase {
            Phase::Run { command } => Self::step_run(frames, command, ctx),
            Phase::Ret { status } => Self::step_ret(frames, status),
            Phase::Fail { error } => Self::step_fail(frames, error),
            Phase::AwaitForkExec => match ev {
                Event::ForkReply { pid } => (
                    Execution { frames, phase: Phase::AwaitWaitExec },
                    Step::Act(Action::Wait { pid }),
                ),
                Event::ForkFailed => (
                    Execution { frames, phase: Phase::Fail { error: ExecutionError::ForkFailed } },
                    Step::Continue,
                ),
                _ => (
                    Execution { frames, phase: Phase::Fail { error: ExecutionError::Panic } },
                    Step::Continue,
                ),
            },
            Phase::AwaitWaitExec => match ev {
                Event::WaitReply { status } => (
                    Execution { frames, phase: Phase::Ret { status } },
                    Step::Continue,
                ),
                _ => (
                    Execution { frames, phase: Phase::Fail { error: ExecutionError::Panic } },
                    Step::Continue,
                ),
            },
            Phase::AwaitPipeFds { left, right } => match ev {
                Event::PipeReply { read_fd, write_fd } => (
                    Execution { frames, phase: Phase::AwaitForkLeft { read_fd, write_fd, right } },
                    Step::Act(
                        Action::Fork(ChildTask::PipeLeft { read_fd, write_fd, command: left }),
                    ),
                ),
                _ => (
                    Execution { frames, phase: Phase::Fail { error: ExecutionError::Panic } },
                    Step::Continue,
                ),
            },
            Phase::AwaitForkLeft { read_fd, write_fd, right } => match ev {
                Event::ForkReply { pid } => (
                    Execution {
                        frames,
                        phase: Phase::AwaitForkRight { read_fd, write_fd, pid_left: pid },
                    },
                    Step::Act(
                        Action::Fork(ChildTask::PipeRight { read_fd, write_fd, command: right }),
                    ),
                ),
                Event::ForkFailed => (
                    Execution { frames, phase: Phase::CleanupCloseRead { write_fd } },
                    Step::Act(Action::CloseFd { fd: read_fd }),
                ),
                _ => (
                    Execution { frames, phase: Phase::Fail { error: ExecutionError::Panic } },
                    Step::Continue,
                ),
            },
            Phase::AwaitForkRight { read_fd, write_fd, pid_left } => match ev {
                Event::ForkReply { pid } => (
                    Execution {
                        frames,
                        phase: Phase::AwaitCloseRead { write_fd, pid_left, pid_right: pid },
                    },
                    Step::Act(Action::CloseFd { fd: read_fd }),
                ),
                Event::ForkFailed => (
                    Execution { frames, phase: Phase::CleanupCloseRead { write_fd } },
                    Step::Act(Action::CloseFd { fd: read_fd }),
                ),
                _ => (
                    Execution { frames, phase: Phase::Fail { error: ExecutionError::Panic } },
                    Step::Continue,
                ),
            },
            Phase::AwaitCloseRead { write_fd, pid_left, pid_right } => match ev {
                Event::Ack => (
                    Execution { frames, phase: Phase::AwaitCloseWrite { pid_left, pid_right } },
                    Step::Act(Action::CloseFd { fd: write_fd }),
                ),
                _ => (
                    Execution { frames, phase: Phase::Fail { error: ExecutionError::Panic } },
                    Step::Continue,
                ),
            },
            Phase::AwaitCloseWrite { pid_left, pid_right } => match ev {
                Event::Ack => (
                    Execution { frames, phase: Phase::AwaitWaitLeft { pid_right } },
                    Step::Act(Action::Wait { pid: pid_left }),
                ),
                _ => (
                    Execution { frames, phase: Phase::Fail { error: ExecutionError::Panic } },
                    Step::Continue,
                ),
            },
            Phase::AwaitWaitLeft { pid_right } => match ev {
                Event::WaitReply { status: _ } => (
                    Execution { frames, phase: Phase::AwaitWaitRight },
                    Step::Act(Action::Wait { pid: pid_right }),
                ),
                _ => (
                    Execution { frames, phase: Phase::Fail { error: ExecutionError::Panic } },
                    Step::Continue,
                ),
            },
            Phase::AwaitWaitRight => match ev {
                Event::WaitReply { status } => (
                    Execution { frames, phase: Phase::Ret { status } },
                    Step::Continue,
                ),
                _ => (
                    Execution { frames, phase: Phase::Fail { error: ExecutionError::Panic } },
                    Step::Continue,
                ),
            },
            Phase::CleanupCloseRead { write_fd } => match ev {
                Event::Ack => (
                    Execution { frames, phase: Phase::CleanupCloseWrite },
                    Step::Act(Action::CloseFd { fd: write_fd }),
                ),
                _ => (
                    Execution { frames, phase: Phase::Fail { error: ExecutionError::Panic } },
                    Step::Continue,
                ),
            },
            Phase::CleanupCloseWrite => match ev {
                Event::Ack => (
                    Execution { frames, phase: Phase::Fail { error: ExecutionError::ForkFailed } },
                    Step::Continue,
                ),
                _ => (
                    Execution { frames, phase: Phase::Fail { error: ExecutionError::Panic } },
                    Step::Continue,
                ),
            },
            Phase::AwaitSave { kind, target, child } => match ev {
                Event::SavedFd { fd } => (
                    Execution { frames, phase: Phase::AwaitOpen { kind, saved_fd: fd, child } },
                    Step::Act(Action::OpenFile { path: target, kind }),
                ),
                _ => (
                    Execution { frames, phase: Phase::Fail { error: ExecutionError::Panic } },
                    Step::Continue,
                ),
            },
            Phase::AwaitOpen { kind, saved_fd, child } => match ev {
                Event::Opened { fd } => {
                    let which = match kind {
                        RedirectionType::In => StdFd::In,
                        _ => StdFd::Out,
                    };
                    (
                        Execution { frames, phase: Phase::AwaitDup { saved_fd, which, child } },
                        Step::Act(Action::DupOntoStd { fd, which }),
                    )
                },
                Event::OpenFailed { code } => (
                    Execution { frames, phase: Phase::CleanupCloseSaved { code } },
                    Step::Act(Action::CloseFd { fd: saved_fd }),
                ),
                _ => (
                    Execution { frames, phase: Phase::Fail { error: ExecutionError::Panic } },
                    Step::Continue,
                ),
            },
            Phase::AwaitDup { saved_fd, which, child } => match ev {
                Event::Ack => {
                    let mut frames = frames;
                    let fr = Frame::Restore { saved_fd, which };
                    proof {
                        lemma_fviews_push(frames@, fr);
                    }
                    frames.push(fr);
                    (
                        Execution { frames, phase: Phase::Run { command: child } },
                        Step::Continue,
                    )
                },
                _ => (
                    Execution { frames, phase: Phase::Fail { error: ExecutionError::Panic } },
                    Step::Continue,
                ),
            },
            Phase::CleanupCloseSaved { code } => match ev {
                Event::Ack => (
                    Execution {
                        frames,
                        phase: Phase::Fail { error: ExecutionError::FileError(code) },
                    },
                    Step::Continue,
                ),
                _ => (
                    Execution { frames, phase: Phase::Fail { error: ExecutionError::Panic } },
                    Step::Continue,
                ),
            },
            Phase::AwaitRestore { pending } => match ev {
                Event::Ack => (
                    Execution {
                        frames,
                        phase: match pending {
                            Ok(status) => Phase::Ret { status },
                            Err(error) => Phase::Fail { error },
                        },
                    },
                    Step::Continue,
                ),
                _ => (
                    Execution { frames, phase: Phase::Fail { error: ExecutionError::Panic } },
                    Step::Continue,
                ),
            },
            Phase::AwaitForkBg => match ev {
                Event::ForkReply { pid } => {
                    ctx.jobs.push(pid);
                    let line = launch_announcement(ctx.jobs.len(), pid);
                    (
                        Execution { frames, phase: Phase::AwaitPrintBg },
                        Step::Act(Action::Print { line }),
                    )
                },
                Event::ForkFailed => (
                    Execution { frames, phase: Phase::Fail { error: ExecutionError::ForkFailed } },
                    Step::Continue,
                ),
                _ => (
                    Execution { frames, phase: Phase::Fail { error: ExecutionError::Panic } },
                    Step::Continue,
                ),
            },
            Phase::AwaitPrintBg => match ev {
                Event::Ack => (
                    Execution { frames, phase: Phase::Ret { status: 0 } },
                    Step::Continue,
                ),
                _ => (
                    Execution { frames, phase: Phase::Fail { error: ExecutionError::Panic } },
                    Step::Continue,
                ),
            },
            Phase::AwaitPrintJobs => match ev {
                Event::Ack => (
                    Execution { frames, phase: Phase::Ret { status: 0 } },
                    Step::Continue,
                ),
                _ => (
                    Execution { frames, phase: Phase::Fail { error: ExecutionError::Panic } },
                    Step::Continue,
                ),
            },
            Phase::AwaitHome => match ev {
                Event::HomeReply { home } => match home {
                    None => (
                        Execution {
                            frames,
                            phase: Phase::Fail { error: ExecutionError::NoHomeDirectory },
                        },
                        Step::Continue,
                    ),
                    Some(h) => {
                        if contains_nul(&h) {
                            (
                                Execution {
                                    frames,
                                    phase: Phase::Fail { error: ExecutionError::InvalidPath },
                                },
                                Step::Continue,
                            )
                        } else {
                            (
                                Execution { frames, phase: Phase::AwaitChdir },
                                Step::Act(Action::Chdir { path: h }),
                            )
                        }
                    },
                },
                _ => (
                    Execution { frames, phase: Phase::Fail { error: ExecutionError::Panic } },
                    Step::Continue,
                ),
            },
            Phase::AwaitChdir => match ev {
                Event::ChdirReply { ok } => {
                    if ok {
                        (
                            Execution { frames, phase: Phase::Ret { status: 0 } },
                            Step::Continue,
                        )
                    } else {
                        (
                            Execution {
                                frames,
                                phase: Phase::Fail { error: ExecutionError::DirectoryNotFound },
                            },
                            Step::Continue,
                        )
                    }
                },
                _ => (
                    Execution { frames, phase: Phase::Fail { error: ExecutionError::Panic } },
                    Step::Continue,
                ),
            },
        }
    }
}

/// Law: a pipeline's status is the status of its rightmost stage.
/// From a `Pipe` node, against any replies, the machine emits exactly:
/// the pipe creation, the two forks, the closing of both ends — before
/// either wait — and the two waits in order; it then returns the
/// status the second wait reported, whatever the first reported.
pub proof fn lemma_pipe_status(
    frames: Seq<FrameV>,
    left: CommandV,
    right: CommandV,
    jobs: Seq<i32>,
    read_fd: i32,
    write_fd: i32,
    pid_left: i32,
    pid_right: i32,
    status_left: i32,
    status_right: i32,
)
    ensures
        ({
            let m0 = MachineV {
                frames,
                phase: PhaseV::Run {
                    command: CommandV::Pipe { left: Box::new(left), right: Box::new(right) },
                },
            };
            let (m1, j1, s1) = spec_step(m0, jobs, EventV::Tick);
            let (m2, j2, s2) = spec_step(m1, j1, EventV::PipeReply { read_fd, write_fd });
            let (m3, j3, s3) = spec_step(m2, j2, EventV::ForkReply { pid: pid_left });
            let (m4, j4, s4) = spec_step(m3, j3, EventV::ForkReply { pid: pid_right });
            let (m5, j5, s5) = spec_step(m4, j4, EventV::Ack);
            let (m6, j6, s6) = spec_step(m5, j5, EventV::Ack);
            let (m7, j7, s7) = spec_step(m6, j6, EventV::WaitReply { status: status_left });
            let (m8, j8, s8) = spec_step(m7, j7, EventV::WaitReply { status: status_right });
            &&& s1 == StepV::Act(ActionV::CreatePipe)
            &&& s2 == StepV::Act(
                ActionV::Fork(ChildTaskV::PipeLeft { read_fd, write_fd, command: left }),
            )
            &&& s3 == StepV::Act(
                ActionV::Fork(ChildTaskV::PipeRight { read_fd, write_fd, command: right }),
            )
            &&& s4 == StepV::Act(ActionV::CloseFd { fd: read_fd })
            &&& s5 == StepV::Act(ActionV::CloseFd { fd: write_fd })
            &&& s6 == StepV::Act(ActionV::Wait { pid: pid_left })
            &&& s7 == StepV::Act(ActionV::Wait { pid: pid_right })
            &&& m8 == (MachineV { frames, phase: PhaseV::Ret { status: status_right } })
            &&& j8 == jobs
        }),
{
}

/// Law: background launches do not block. From a `Background` node
/// with nothing pending, the machine's whole exchange is the fork and
/// the job announcement — no wait is ever requested — after which it
/// is done with status 0, and the child's pid has been appended to the
/// job table under the next 1-based job number.
pub proof fn lemma_background_non_blocking(child: CommandV, jobs: Seq<i32>, pid: i32)
    ensures
        ({
            let m0 = MachineV {
                frames: Seq::<FrameV>::empty(),
                phase: PhaseV::Run {
                    command: CommandV::Background { child_command: Box::new(child) },
                },
            };
            let (m1, j1, s1) = spec_step(m0, jobs, EventV::Tick);
            let (m2, j2, s2) = spec_step(m1, j1, EventV::ForkReply { pid });
            let (m3, j3, s3) = spec_step(m2, j2, EventV::Ack);
            let (m4, j4, s4) = spec_step(m3, j3, EventV::Tick);
            &&& s1 == StepV::Act(ActionV::Fork(ChildTaskV::Background { command: child }))
            &&& s2 == StepV::Act(ActionV::Print { line: launch_line(jobs.len() + 1, pid as int) })
            &&& j2 == jobs.push(pid)
            &&& s3 == StepV::Continue
            &&& s4 == StepV::Done(Ok(0))
            &&& j4 == jobs.push(pid)
        }),
{
}

/// Law: the job table does not grow on a failed fork.
pub proof fn lemma_failed_fork_keeps_jobs(frames: Seq<FrameV>, child: CommandV, jobs: Seq<i32>)
    ensures
        ({
            let m0 = MachineV {
                frames,
                phase: PhaseV::Run {
                    command: CommandV::Background { child_command: Box::new(child) },
                },
            };
            let (m1, j1, s1) = spec_step(m0, jobs, EventV::Tick);
            let (m2, j2, s2) = spec_step(m1, j1, EventV::ForkFailed);
            &&& j2 == jobs
            &&& m2 == (MachineV {
                frames,
                phase: PhaseV::Fail { error: ExecutionError::ForkFailed },
            })
        }),
{
}

/// Law: short-circuit. When the left side of a conditional finishes
/// with status `s`, the machine runs the right side exactly when `&&`
/// saw status 0 or `||` saw a nonzero status; otherwise the left
/// status is the conditional's status. An executor error on the left
/// decides the branch as status 1 would.
pub proof fn lemma_short_circuit(
    frames: Seq<FrameV>,
    left_status: i32,
    right: CommandV,
    operator: ConditionalType,
    jobs: Seq<i32>,
)
    ensures
        ({
            let m = MachineV {
                frames: frames.push(FrameV::CondRight { right, operator }),
                phase: PhaseV::Ret { status: left_status },
            };
            let (m2, j2, s2) = spec_step(m, jobs, EventV::Tick);
            &&& takes_right(operator, left_status) ==> m2 == (MachineV {
                frames,
                phase: PhaseV::Run { command: right },
            })
            &&& !takes_right(operator, left_status) ==> m2 == (MachineV {
                frames,
                phase: PhaseV::Ret { status: left_status },
            })
            &&& j2 == jobs
            &&& s2 == StepV::Continue
        }),
        ({
            let m = MachineV {
                frames: frames.push(FrameV::CondRight { right, operator }),
                phase: PhaseV::Fail { error: ExecutionError::ForkFailed },
            };
            let (m2, j2, s2) = spec_step(m, jobs, EventV::Tick);
            &&& takes_right(operator, 1) ==> m2 == (MachineV {
                frames,
                phase: PhaseV::Run { command: right },
            })
            &&& !takes_right(operator, 1) ==> m2 == (MachineV {
                frames,
                phase: PhaseV::Ret { status: 1 },
            })
        }),
{
    let fs = frames.push(FrameV::CondRight { right, operator });
    assert(fs.drop_last() =~= frames);
}

/// How many descriptors the machine holds inside the phase itself:
/// pipe ends between their creation and their close requests, and the
/// saved copy of a standard descriptor between its arrival and its
/// close or restore request.
pub open spec fn held_fds(p: PhaseV) -> int {
    match p {
        PhaseV::AwaitForkLeft { .. } => 2,
        PhaseV::AwaitForkRight { .. } => 2,
        PhaseV::AwaitCloseRead { .. } => 1,
        PhaseV::CleanupCloseRead { .. } => 1,
        PhaseV::AwaitOpen { .. } => 1,
        PhaseV::AwaitDup { .. } => 1,
        _ => 0,
    }
}

/// How many redirection frames hold a saved descriptor.
pub open spec fn restore_frames(fs: Seq<FrameV>) -> int
    decreases fs.len(),
{
    if fs.len() == 0 {
        0
    } else {
        restore_frames(fs.drop_last()) + match fs.last() {
            FrameV::Restore { .. } => 1int,
            _ => 0int,
        }
    }
}

/// All descriptors the machine is answerable for: those held in the
/// phase and those saved in redirection frames.
pub open spec fn outstanding_fds(m: MachineV) -> int {
    held_fds(m.phase) + restore_frames(m.frames)
}

/// How many descriptors an event hands to the machine: one per saved
/// or opened descriptor, two per created pipe.
pub open spec fn fds_opened_by(ev: EventV) -> int {
    match ev {
        EventV::SavedFd { .. } => 1,
        EventV::Opened { .. } => 1,
        EventV::PipeReply { .. } => 2,
        _ => 0,
    }
}

/// How many descriptors an action releases: `CloseFd` closes one, and
/// both `DupOntoStd` and `RestoreStdFd` close their argument after the
/// duplication.
pub open spec fn fds_closed_by(a: ActionV) -> int {
    match a {
        ActionV::CloseFd { .. } => 1,
        ActionV::DupOntoStd { .. } => 1,
        ActionV::RestoreStdFd { .. } => 1,
        _ => 0,
    }
}

/// Whether an event is a reply the phase can be waiting for: `Tick`
/// for the internal phases, the matching reply kind for each awaiting
/// phase. This is how a driver that performs each requested action
/// and reports its outcome behaves.
pub open spec fn awaited(p: PhaseV, ev: EventV) -> bool {
    match p {
        PhaseV::Run { .. } => ev == EventV::Tick,
        PhaseV::Ret { .. } => ev == EventV::Tick,
        PhaseV::Fail { .. } => ev == EventV::Tick,
        PhaseV::AwaitForkExec => ev matches EventV::ForkReply { .. } || ev == EventV::ForkFailed,
        PhaseV::AwaitForkLeft { .. } => ev matches EventV::ForkReply { .. } || ev
            == EventV::ForkFailed,
        PhaseV::AwaitForkRight { .. } => ev matches EventV::ForkReply { .. } || ev
            == EventV::ForkFailed,
        PhaseV::AwaitForkBg => ev matches EventV::ForkReply { .. } || ev == EventV::ForkFailed,
        PhaseV::AwaitWaitExec => ev matches EventV::WaitReply { .. },
        PhaseV::AwaitWaitLeft { .. } => ev matches EventV::WaitReply { .. },
        PhaseV::AwaitWaitRight => ev matches EventV::WaitReply { .. },
        PhaseV::AwaitPipeFds { .. } => ev matches EventV::PipeReply { .. },
        PhaseV::AwaitCloseRead { .. } => ev == EventV::Ack,
        PhaseV::AwaitCloseWrite { .. } => ev == EventV::Ack,
        PhaseV::CleanupCloseRead { .. } => ev == EventV::Ack,
        PhaseV::CleanupCloseWrite => ev == EventV::Ack,
        PhaseV::AwaitSave { .. } => ev matches EventV::SavedFd { .. },
        PhaseV::AwaitOpen { .. } => ev matches EventV::Opened { .. } || ev matches
            EventV::OpenFailed { .. },
        PhaseV::AwaitDup { .. } => ev == EventV::Ack,
        PhaseV::CleanupCloseSaved { .. } => ev == EventV::Ack,
        PhaseV::AwaitRestore { .. } => ev == EventV::Ack,
        PhaseV::AwaitPrintBg => ev == EventV::Ack,
        PhaseV::AwaitPrintJobs => ev == EventV::Ack,
        PhaseV::AwaitHome => ev matches EventV::HomeReply { .. },
        PhaseV::AwaitChdir => ev matches EventV::ChdirReply { .. },
    }
}

proof fn lemma_restore_frames_push(fs: Seq<FrameV>, f: FrameV)
    ensures
        restore_frames(fs.push(f)) == restore_frames(fs) + match f {
            FrameV::Restore { .. } => 1int,
            _ => 0int,
        },
{
    assert(fs.push(f).drop_last() =~= fs);
}

/// One step keeps the descriptor account: what the machine holds
/// afterwards is what it held before, plus what the event handed it,
/// minus what the requested action releases.
pub proof fn lemma_step_balance(m: MachineV, jobs: Seq<i32>, ev: EventV)
    requires
        awaited(m.phase, ev),
    ensures
        ({
            let (m2, j2, s) = spec_step(m, jobs, ev);
            outstanding_fds(m2) == outstanding_fds(m) + fds_opened_by(ev) - match s {
                StepV::Act(a) => fds_closed_by(a),
                _ => 0int,
            }
        }),
{
    match m.phase {
        PhaseV::Run { command } => match command {
            CommandV::Sequence { first, second } => {
                lemma_restore_frames_push(m.frames, FrameV::SeqSecond { second: *second });
            },
            CommandV::Conditional { left, right, operator } => {
                lemma_restore_frames_push(
                    m.frames,
                    FrameV::CondRight { right: *right, operator },
                );
            },
            _ => {},
        },
        PhaseV::AwaitDup { saved_fd, which, child } => {
            if ev == EventV::Ack {
                lemma_restore_frames_push(m.frames, FrameV::Restore { saved_fd, which });
            }
        },
        _ => {},
    }
}

/// What one run of the machine did: the actions it requested, the
/// events it consumed, the final job table, and the tree's result if
/// the run got that far.
pub struct RunV {
    pub actions: Seq<ActionV>,
    pub used: Seq<EventV>,
    pub jobs: Seq<i32>,
    pub result: Option<Result<i32, ExecutionError>>,
}

/// Runs the machine against a sequence of events, collecting the
/// requested actions, until the tree's result is reached or the
/// events run out.
pub open spec fn run_steps(m: MachineV, jobs: Seq<i32>, evs: Seq<EventV>) -> RunV
    decreases evs.len(),
{
    if evs.len() == 0 {
        RunV { actions: Seq::empty(), used: Seq::empty(), jobs, result: None }
    } else {
        let (m2, j2, s) = spec_step(m, jobs, evs[0]);
        match s {
            StepV::Done(res) => RunV {
                actions: Seq::empty(),
                used: seq![evs[0]],
                jobs: j2,
                result: Some(res),
            },
            StepV::Continue => {
                let r = run_steps(m2, j2, evs.drop_first());
                RunV {
                    actions: r.actions,
                    used: seq![evs[0]] + r.used,
                    jobs: r.jobs,
                    result: r.result,
                }
            },
            StepV::Act(a) => {
                let r = run_steps(m2, j2, evs.drop_first());
                RunV {
                    actions: seq![a] + r.actions,
                    used: seq![evs[0]] + r.used,
                    jobs: r.jobs,
                    result: r.result,
                }
            },
        }
    }
}

/// Whether every event in the sequence is a reply the machine can be
/// waiting for when it arrives.
pub open spec fn conformant(m: MachineV, jobs: Seq<i32>, evs: Seq<EventV>) -> bool
    decreases evs.len(),
{
    evs.len() == 0 || (awaited(m.phase, evs[0]) && {
        let (m2, j2, s) = spec_step(m, jobs, evs[0]);
        conformant(m2, j2, evs.drop_first())
    })
}

/// The descriptors handed to the machine across a run.
pub open spec fn count_opened(evs: Seq<EventV>) -> int
    decreases evs.len(),
{
    if evs.len() == 0 {
        0
    } else {
        fds_opened_by(evs[0]) + count_opened(evs.drop_first())
    }
}

/// The descriptors the machine asked to have released across a run.
pub open spec fn count_closed(actions: Seq<ActionV>) -> int
    decreases actions.len(),
{
    if actions.len() == 0 {
        0
    } else {
        fds_closed_by(actions[0]) + count_closed(actions.drop_first())
    }
}

proof fn lemma_count_opened_cons(e: EventV, rest: Seq<EventV>)
    ensures
        count_opened(seq![e] + rest) == fds_opened_by(e) + count_opened(rest),
{
    assert((seq![e] + rest).drop_first() =~= rest);
    assert((seq![e] + rest)[0] == e);
}

proof fn lemma_count_closed_cons(a: ActionV, rest: Seq<ActionV>)
    ensures
        count_closed(seq![a] + rest) == fds_closed_by(a) + count_closed(rest),
{
    assert((seq![a] + rest).drop_first() =~= rest);
    assert((seq![a] + rest)[0] == a);
}

proof fn lemma_run_balance(m: MachineV, jobs: Seq<i32>, evs: Seq<EventV>)
    requires
        conformant(m, jobs, evs),
        run_steps(m, jobs, evs).result is Some,
    ensures
        count_closed(run_steps(m, jobs, evs).actions) == count_opened(run_steps(m, jobs, evs).used)
            + outstanding_fds(m),
    decreases evs.len(),
{
    let r = run_steps(m, jobs, evs);
    let (m2, j2, s) = spec_step(m, jobs, evs[0]);
    lemma_step_balance(m, jobs, evs[0]);
    match s {
        StepV::Done(res) => {
            assert(r.used =~= seq![evs[0]]);
            lemma_count_opened_cons(evs[0], Seq::empty());
            assert(count_opened(Seq::<EventV>::empty()) == 0);
        },
        StepV::Continue => {
            lemma_run_balance(m2, j2, evs.drop_first());
            lemma_count_opened_cons(evs[0], run_steps(m2, j2, evs.drop_first()).used);
        },
        StepV::Act(a) => {
            lemma_run_balance(m2, j2, evs.drop_first());
            lemma_count_opened_cons(evs[0], run_steps(m2, j2, evs.drop_first()).used);
            lemma_count_closed_cons(a, run_steps(m2, j2, evs.drop_first()).actions);
        },
    }
}

/// Law: descriptor discipline. Across any complete foreground run of
/// any command tree — success or error — every descriptor the
/// operating system handed the shell (each saved standard descriptor,
/// each opened redirection target, both ends of each pipe) was matched
/// by exactly one release request (a close, a duplicate-then-close, or
/// a restore-then-close), so the shell ends the command with as many
/// open descriptors as it began with.
pub proof fn lemma_descriptor_discipline(node: CommandV, jobs: Seq<i32>, evs: Seq<EventV>)
    requires
        ({
            let m0 = MachineV { frames: Seq::<FrameV>::empty(), phase: PhaseV::Run {
                command: node,
            } };
            &&& conformant(m0, jobs, evs)
            &&& run_steps(m0, jobs, evs).result is Some
        }),
    ensures
        ({
            let m0 = MachineV { frames: Seq::<FrameV>::empty(), phase: PhaseV::Run {
                command: node,
            } };
            let r = run_steps(m0, jobs, evs);
            count_closed(r.actions) == count_opened(r.used)
        }),
{
    let m0 = MachineV { frames: Seq::<FrameV>::empty(), phase: PhaseV::Run { command: node } };
    lemma_run_balance(m0, jobs, evs);
}

} // verus!
