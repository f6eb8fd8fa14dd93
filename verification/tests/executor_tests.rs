use std::collections::HashMap;

use flash::executor::{execute, Action, ChildTask, Event, Execution, StdFd, Step};
use flash::lexer::lexer;
use flash::parser::parse;
use flash::utils::{
    built_ins, exit_code_of_status, jobs_listing, lookup_builtin, reap_slot, Builtin, Command,
    ExecutionContext, ExecutionError, RedirectionType, SimpleCommand, WaitPoll,
};

fn new_ctx() -> ExecutionContext {
    ExecutionContext {
        variables: HashMap::new(),
        jobs: vec![],
        shell_pgid: 0,
        last_exit_status: 0,
    }
}

fn command(line: &str) -> Command {
    parse(lexer(line.to_string()).unwrap()).unwrap()
}

fn strings(args: &[&str]) -> Vec<String> {
    args.iter().map(|a| a.to_string()).collect()
}

#[test]
fn echo_hello_forks_waits_and_returns_zero() {
    let mut ctx = new_ctx();
    let m = execute(command("echo hello\n"));
    let (m, s) = m.step(&mut ctx, Event::Tick);
    assert_eq!(
        s,
        Step::Act(Action::Fork(ChildTask::Exec { argv: strings(&["echo", "hello"]) }))
    );
    let (m, s) = m.step(&mut ctx, Event::ForkReply { pid: 42 });
    assert_eq!(s, Step::Act(Action::Wait { pid: 42 }));
    let (m, s) = m.step(&mut ctx, Event::WaitReply { status: 0 });
    assert_eq!(s, Step::Continue);
    let (_, s) = m.step(&mut ctx, Event::Tick);
    assert_eq!(s, Step::Done(Ok(0)));
    assert!(ctx.jobs.is_empty());
}

#[test]
fn pipeline_closes_both_ends_before_waiting_and_returns_right_status() {
    let mut ctx = new_ctx();
    let m = execute(command("echo a | tr a b\n"));
    let (m, s) = m.step(&mut ctx, Event::Tick);
    assert_eq!(s, Step::Act(Action::CreatePipe));
    let (m, s) = m.step(&mut ctx, Event::PipeReply { read_fd: 3, write_fd: 4 });
    assert_eq!(
        s,
        Step::Act(Action::Fork(ChildTask::PipeLeft {
            read_fd: 3,
            write_fd: 4,
            command: command("echo a\n"),
        }))
    );
    let (m, s) = m.step(&mut ctx, Event::ForkReply { pid: 10 });
    assert_eq!(
        s,
        Step::Act(Action::Fork(ChildTask::PipeRight {
            read_fd: 3,
            write_fd: 4,
            command: command("tr a b\n"),
        }))
    );
    let (m, s) = m.step(&mut ctx, Event::ForkReply { pid: 11 });
    assert_eq!(s, Step::Act(Action::CloseFd { fd: 3 }));
    let (m, s) = m.step(&mut ctx, Event::Ack);
    assert_eq!(s, Step::Act(Action::CloseFd { fd: 4 }));
    let (m, s) = m.step(&mut ctx, Event::Ack);
    assert_eq!(s, Step::Act(Action::Wait { pid: 10 }));
    let (m, s) = m.step(&mut ctx, Event::WaitReply { status: 7 });
    assert_eq!(s, Step::Act(Action::Wait { pid: 11 }));
    let (m, s) = m.step(&mut ctx, Event::WaitReply { status: 0 });
    assert_eq!(s, Step::Continue);
    let (_, s) = m.step(&mut ctx, Event::Tick);
    // The pipeline's status is the rightmost stage's, not the left's.
    assert_eq!(s, Step::Done(Ok(0)));
}

#[test]
fn failed_pipe_fork_closes_both_ends_and_reports() {
    let mut ctx = new_ctx();
    let m = execute(command("a | b\n"));
    let (m, _) = m.step(&mut ctx, Event::Tick);
    let (m, _) = m.step(&mut ctx, Event::PipeReply { read_fd: 5, write_fd: 6 });
    let (m, s) = m.step(&mut ctx, Event::ForkFailed);
    assert_eq!(s, Step::Act(Action::CloseFd { fd: 5 }));
    let (m, s) = m.step(&mut ctx, Event::Ack);
    assert_eq!(s, Step::Act(Action::CloseFd { fd: 6 }));
    let (m, s) = m.step(&mut ctx, Event::Ack);
    assert_eq!(s, Step::Continue);
    let (_, s) = m.step(&mut ctx, Event::Tick);
    assert_eq!(s, Step::Done(Err(ExecutionError::ForkFailed)));
}

#[test]
fn redirect_saves_opens_rewires_and_restores() {
    let mut ctx = new_ctx();
    let m = execute(command("echo hi > /tmp/x\n"));
    let (m, s) = m.step(&mut ctx, Event::Tick);
    assert_eq!(s, Step::Act(Action::SaveStdFd { which: StdFd::Out }));
    let (m, s) = m.step(&mut ctx, Event::SavedFd { fd: 9 });
    assert_eq!(
        s,
        Step::Act(Action::OpenFile { path: "/tmp/x".to_string(), kind: RedirectionType::Out })
    );
    let (m, s) = m.step(&mut ctx, Event::Opened { fd: 5 });
    assert_eq!(s, Step::Act(Action::DupOntoStd { fd: 5, which: StdFd::Out }));
    let (m, s) = m.step(&mut ctx, Event::Ack);
    assert_eq!(s, Step::Continue);
    // The child runs with standard output rewired.
    let (m, s) = m.step(&mut ctx, Event::Tick);
    assert_eq!(
        s,
        Step::Act(Action::Fork(ChildTask::Exec { argv: strings(&["echo", "hi"]) }))
    );
    let (m, _) = m.step(&mut ctx, Event::ForkReply { pid: 20 });
    let (m, s) = m.step(&mut ctx, Event::WaitReply { status: 0 });
    assert_eq!(s, Step::Continue);
    // On the way out the saved descriptor is restored.
    let (m, s) = m.step(&mut ctx, Event::Tick);
    assert_eq!(s, Step::Act(Action::RestoreStdFd { saved_fd: 9, which: StdFd::Out }));
    let (m, s) = m.step(&mut ctx, Event::Ack);
    assert_eq!(s, Step::Continue);
    let (_, s) = m.step(&mut ctx, Event::Tick);
    assert_eq!(s, Step::Done(Ok(0)));
}

#[test]
fn input_redirection_touches_standard_input() {
    let mut ctx = new_ctx();
    let m = execute(command("cat < /tmp/x\n"));
    let (m, s) = m.step(&mut ctx, Event::Tick);
    assert_eq!(s, Step::Act(Action::SaveStdFd { which: StdFd::In }));
    let (_, s) = m.step(&mut ctx, Event::SavedFd { fd: 9 });
    assert_eq!(
        s,
        Step::Act(Action::OpenFile { path: "/tmp/x".to_string(), kind: RedirectionType::In })
    );
}

#[test]
fn failed_open_closes_the_saved_descriptor_and_reports() {
    let mut ctx = new_ctx();
    let m = execute(command("cat < /nowhere\n"));
    let (m, _) = m.step(&mut ctx, Event::Tick);
    let (m, _) = m.step(&mut ctx, Event::SavedFd { fd: 9 });
    let (m, s) = m.step(&mut ctx, Event::OpenFailed { code: 2 });
    assert_eq!(s, Step::Act(Action::CloseFd { fd: 9 }));
    let (m, s) = m.step(&mut ctx, Event::Ack);
    assert_eq!(s, Step::Continue);
    let (_, s) = m.step(&mut ctx, Event::Tick);
    assert_eq!(s, Step::Done(Err(ExecutionError::FileError(2))));
}

#[test]
fn restore_runs_even_when_the_child_fails() {
    let mut ctx = new_ctx();
    let m = execute(command("a > /tmp/x\n"));
    let (m, _) = m.step(&mut ctx, Event::Tick);
    let (m, _) = m.step(&mut ctx, Event::SavedFd { fd: 9 });
    let (m, _) = m.step(&mut ctx, Event::Opened { fd: 5 });
    let (m, _) = m.step(&mut ctx, Event::Ack);
    let (m, _) = m.step(&mut ctx, Event::Tick);
    let (m, s) = m.step(&mut ctx, Event::ForkFailed);
    assert_eq!(s, Step::Continue);
    let (m, s) = m.step(&mut ctx, Event::Tick);
    assert_eq!(s, Step::Act(Action::RestoreStdFd { saved_fd: 9, which: StdFd::Out }));
    let (m, s) = m.step(&mut ctx, Event::Ack);
    assert_eq!(s, Step::Continue);
    let (_, s) = m.step(&mut ctx, Event::Tick);
    assert_eq!(s, Step::Done(Err(ExecutionError::ForkFailed)));
}

#[test]
fn sequence_runs_both_and_returns_the_second_status() {
    let mut ctx = new_ctx();
    let m = execute(command("a ; b\n"));
    let (m, s) = m.step(&mut ctx, Event::Tick);
    assert_eq!(s, Step::Continue);
    let (m, s) = m.step(&mut ctx, Event::Tick);
    assert_eq!(s, Step::Act(Action::Fork(ChildTask::Exec { argv: strings(&["a"]) })));
    let (m, _) = m.step(&mut ctx, Event::ForkReply { pid: 1 });
    let (m, s) = m.step(&mut ctx, Event::WaitReply { status: 768 });
    assert_eq!(s, Step::Continue);
    let (m, s) = m.step(&mut ctx, Event::Tick);
    assert_eq!(s, Step::Continue);
    let (m, s) = m.step(&mut ctx, Event::Tick);
    assert_eq!(s, Step::Act(Action::Fork(ChildTask::Exec { argv: strings(&["b"]) })));
    let (m, _) = m.step(&mut ctx, Event::ForkReply { pid: 2 });
    let (m, s) = m.step(&mut ctx, Event::WaitReply { status: 1280 });
    assert_eq!(s, Step::Continue);
    let (_, s) = m.step(&mut ctx, Event::Tick);
    assert_eq!(s, Step::Done(Ok(1280)));
}

#[test]
fn false_and_skips_then_or_runs() {
    // `false && echo skipped || echo ran`: only false and `echo ran` fork.
    let mut ctx = new_ctx();
    let m = execute(command("false && echo skipped || echo ran\n"));
    let (m, s) = m.step(&mut ctx, Event::Tick);
    assert_eq!(s, Step::Continue);
    let (m, s) = m.step(&mut ctx, Event::Tick);
    assert_eq!(s, Step::Continue);
    let (m, s) = m.step(&mut ctx, Event::Tick);
    assert_eq!(s, Step::Act(Action::Fork(ChildTask::Exec { argv: strings(&["false"]) })));
    let (m, _) = m.step(&mut ctx, Event::ForkReply { pid: 1 });
    let (m, s) = m.step(&mut ctx, Event::WaitReply { status: 256 });
    assert_eq!(s, Step::Continue);
    // false exited nonzero: && skips its right side.
    let (m, s) = m.step(&mut ctx, Event::Tick);
    assert_eq!(s, Step::Continue);
    // nonzero reaches ||: the right side runs.
    let (m, s) = m.step(&mut ctx, Event::Tick);
    assert_eq!(s, Step::Continue);
    let (m, s) = m.step(&mut ctx, Event::Tick);
    assert_eq!(
        s,
        Step::Act(Action::Fork(ChildTask::Exec { argv: strings(&["echo", "ran"]) }))
    );
    let (m, _) = m.step(&mut ctx, Event::ForkReply { pid: 2 });
    let (m, s) = m.step(&mut ctx, Event::WaitReply { status: 0 });
    assert_eq!(s, Step::Continue);
    let (_, s) = m.step(&mut ctx, Event::Tick);
    assert_eq!(s, Step::Done(Ok(0)));
}

#[test]
fn true_and_runs_the_right_side() {
    let mut ctx = new_ctx();
    let m = execute(command("true && echo yes\n"));
    let (m, _) = m.step(&mut ctx, Event::Tick);
    let (m, s) = m.step(&mut ctx, Event::Tick);
    assert_eq!(s, Step::Act(Action::Fork(ChildTask::Exec { argv: strings(&["true"]) })));
    let (m, _) = m.step(&mut ctx, Event::ForkReply { pid: 1 });
    let (m, _) = m.step(&mut ctx, Event::WaitReply { status: 0 });
    let (m, s) = m.step(&mut ctx, Event::Tick);
    assert_eq!(s, Step::Continue);
    let (m, s) = m.step(&mut ctx, Event::Tick);
    assert_eq!(
        s,
        Step::Act(Action::Fork(ChildTask::Exec { argv: strings(&["echo", "yes"]) }))
    );
    let (m, _) = m.step(&mut ctx, Event::ForkReply { pid: 2 });
    let (m, _) = m.step(&mut ctx, Event::WaitReply { status: 0 });
    let (_, s) = m.step(&mut ctx, Event::Tick);
    assert_eq!(s, Step::Done(Ok(0)));
}

#[test]
fn background_returns_at_once_and_records_the_job() {
    let mut ctx = new_ctx();
    let m = execute(command("sleep 1 &\n"));
    let (m, s) = m.step(&mut ctx, Event::Tick);
    assert_eq!(
        s,
        Step::Act(Action::Fork(ChildTask::Background { command: command("sleep 1\n") }))
    );
    let (m, s) = m.step(&mut ctx, Event::ForkReply { pid: 77 });
    assert_eq!(ctx.jobs, vec![77]);
    assert_eq!(s, Step::Act(Action::Print { line: "[1] 77".to_string() }));
    let (m, s) = m.step(&mut ctx, Event::Ack);
    assert_eq!(s, Step::Continue);
    let (_, s) = m.step(&mut ctx, Event::Tick);
    // Status 0, and no Wait was ever requested.
    assert_eq!(s, Step::Done(Ok(0)));
}

#[test]
fn failed_background_fork_leaves_the_job_table_alone() {
    let mut ctx = new_ctx();
    ctx.jobs = vec![33];
    let m = execute(command("sleep 1 &\n"));
    let (m, _) = m.step(&mut ctx, Event::Tick);
    let (m, s) = m.step(&mut ctx, Event::ForkFailed);
    assert_eq!(s, Step::Continue);
    assert_eq!(ctx.jobs, vec![33]);
    let (_, s) = m.step(&mut ctx, Event::Tick);
    assert_eq!(s, Step::Done(Err(ExecutionError::ForkFailed)));
}

#[test]
fn jobs_builtin_prints_live_slots_with_stable_numbers() {
    let mut ctx = new_ctx();
    ctx.jobs = vec![10, 0, -1, 20];
    let m = execute(command("jobs\n"));
    let (m, s) = m.step(&mut ctx, Event::Tick);
    assert_eq!(
        s,
        Step::Act(Action::PrintLines { lines: vec!["[1 10]".to_string(), "[4 20]".to_string()] })
    );
    let (m, s) = m.step(&mut ctx, Event::Ack);
    assert_eq!(s, Step::Continue);
    let (_, s) = m.step(&mut ctx, Event::Tick);
    assert_eq!(s, Step::Done(Ok(0)));
}

#[test]
fn exit_builtin_asks_the_shell_to_terminate() {
    let mut ctx = new_ctx();
    let m = execute(command("exit\n"));
    let (_, s) = m.step(&mut ctx, Event::Tick);
    assert_eq!(s, Step::Act(Action::ExitShell));
}

#[test]
fn cd_with_no_argument_goes_home() {
    let mut ctx = new_ctx();
    let m = execute(command("cd\n"));
    let (m, s) = m.step(&mut ctx, Event::Tick);
    assert_eq!(s, Step::Act(Action::GetHome));
    let (m, s) = m.step(&mut ctx, Event::HomeReply { home: Some("/home/me".to_string()) });
    assert_eq!(s, Step::Act(Action::Chdir { path: "/home/me".to_string() }));
    let (m, s) = m.step(&mut ctx, Event::ChdirReply { ok: true });
    assert_eq!(s, Step::Continue);
    let (_, s) = m.step(&mut ctx, Event::Tick);
    assert_eq!(s, Step::Done(Ok(0)));
}

#[test]
fn cd_tilde_goes_home_and_no_home_is_an_error() {
    let mut ctx = new_ctx();
    let m = execute(command("cd ~\n"));
    let (m, s) = m.step(&mut ctx, Event::Tick);
    assert_eq!(s, Step::Act(Action::GetHome));
    let (m, s) = m.step(&mut ctx, Event::HomeReply { home: None });
    assert_eq!(s, Step::Continue);
    let (_, s) = m.step(&mut ctx, Event::Tick);
    assert_eq!(s, Step::Done(Err(ExecutionError::NoHomeDirectory)));
}

#[test]
fn cd_to_a_path_that_fails_is_directory_not_found() {
    let mut ctx = new_ctx();
    let m = execute(command("cd /nowhere\n"));
    let (m, s) = m.step(&mut ctx, Event::Tick);
    assert_eq!(s, Step::Act(Action::Chdir { path: "/nowhere".to_string() }));
    let (m, s) = m.step(&mut ctx, Event::ChdirReply { ok: false });
    assert_eq!(s, Step::Continue);
    let (_, s) = m.step(&mut ctx, Event::Tick);
    assert_eq!(s, Step::Done(Err(ExecutionError::DirectoryNotFound)));
}

#[test]
fn cd_with_too_many_arguments_is_rejected() {
    let mut ctx = new_ctx();
    let m = execute(command("cd a b\n"));
    let (m, s) = m.step(&mut ctx, Event::Tick);
    assert_eq!(s, Step::Continue);
    let (_, s) = m.step(&mut ctx, Event::Tick);
    assert_eq!(s, Step::Done(Err(ExecutionError::InvalidNumberOfArgs)));
}

#[test]
fn cd_path_with_interior_nul_is_invalid() {
    let mut ctx = new_ctx();
    let sc = SimpleCommand {
        command: "cd".to_string(),
        arguments: vec!["cd".to_string(), "a\0b".to_string()],
    };
    let m = execute(Command::Simple(sc));
    let (m, s) = m.step(&mut ctx, Event::Tick);
    assert_eq!(s, Step::Continue);
    let (_, s) = m.step(&mut ctx, Event::Tick);
    assert_eq!(s, Step::Done(Err(ExecutionError::InvalidPath)));
}

#[test]
fn mismatched_reply_is_the_panic_catch_all() {
    let mut ctx = new_ctx();
    let m = execute(command("a\n"));
    let (m, _) = m.step(&mut ctx, Event::Tick);
    // The machine awaits a fork reply; an acknowledgement is nonsense.
    let (m, s) = m.step(&mut ctx, Event::Ack);
    assert_eq!(s, Step::Continue);
    let (_, s) = m.step(&mut ctx, Event::Tick);
    assert_eq!(s, Step::Done(Err(ExecutionError::Panic)));
}

#[test]
fn builtin_table_and_lookup_agree() {
    let table = built_ins();
    assert_eq!(table.len(), 3);
    assert_eq!(table[0], ("exit".to_string(), Builtin::Exit));
    assert_eq!(table[1], ("cd".to_string(), Builtin::Cd));
    assert_eq!(table[2], ("jobs".to_string(), Builtin::Jobs));
    assert_eq!(lookup_builtin(&"exit".to_string()), Some(Builtin::Exit));
    assert_eq!(lookup_builtin(&"cd".to_string()), Some(Builtin::Cd));
    assert_eq!(lookup_builtin(&"jobs".to_string()), Some(Builtin::Jobs));
    assert_eq!(lookup_builtin(&"ls".to_string()), None);
}

#[test]
fn jobs_listing_skips_tombstones_and_keeps_numbers() {
    assert_eq!(
        jobs_listing(&vec![10, 0, -1, 20]),
        vec!["[1 10]".to_string(), "[4 20]".to_string()]
    );
    assert_eq!(jobs_listing(&vec![]), Vec::<String>::new());
    assert_eq!(jobs_listing(&vec![0, -1]), Vec::<String>::new());
}

#[test]
fn reaping_tombstones_and_announces() {
    assert_eq!(reap_slot(0, 77, WaitPoll::StillRunning), (77, None));
    assert_eq!(reap_slot(0, 77, WaitPoll::Failed), (-1, None));
    assert_eq!(
        reap_slot(0, 77, WaitPoll::Exited(0)),
        (0, Some("[1] Done 0".to_string()))
    );
    assert_eq!(
        reap_slot(3, 9, WaitPoll::Exited(256)),
        (0, Some("[4] Done 256".to_string()))
    );
}

#[test]
fn wait_status_encodes_the_exit_code_in_its_second_byte() {
    assert_eq!(exit_code_of_status(0), 0);
    assert_eq!(exit_code_of_status(256), 1);
    assert_eq!(exit_code_of_status(768), 3);
    assert_eq!(exit_code_of_status(255), 0);
}

/// Drives a machine with canned replies: forks get ascending pids,
/// waits get statuses drawn in order from `statuses`, descriptors are
/// handed out ascending. Returns the forked argv lists in order, the
/// balance of descriptors handed out against close requests, and the
/// result.
fn drive(
    cmd: Command,
    ctx: &mut ExecutionContext,
    statuses: &[i32],
) -> (Vec<Vec<String>>, i32, Result<i32, ExecutionError>) {
    let mut m = execute(cmd);
    let mut ev = Event::Tick;
    let mut forks: Vec<Vec<String>> = vec![];
    let mut next_pid = 100;
    let mut next_fd = 50;
    let mut next_status = 0;
    let mut open_fds = 0;
    let mut budget = 1000;
    loop {
        assert!(budget > 0, "the machine did not finish");
        budget -= 1;
        let (m2, s) = m.step(ctx, ev);
        m = m2;
        ev = match s {
            Step::Continue => Event::Tick,
            Step::Done(r) => return (forks, open_fds, r),
            Step::Act(action) => match action {
                Action::Fork(task) => {
                    if let ChildTask::Exec { argv } = task {
                        forks.push(argv);
                    }
                    next_pid += 1;
                    Event::ForkReply { pid: next_pid }
                }
                Action::Wait { .. } => {
                    let status = statuses.get(next_status).copied().unwrap_or(0);
                    next_status += 1;
                    Event::WaitReply { status }
                }
                Action::CreatePipe => {
                    next_fd += 2;
                    open_fds += 2;
                    Event::PipeReply { read_fd: next_fd - 1, write_fd: next_fd }
                }
                Action::SaveStdFd { .. } => {
                    next_fd += 1;
                    open_fds += 1;
                    Event::SavedFd { fd: next_fd }
                }
                Action::OpenFile { .. } => {
                    next_fd += 1;
                    open_fds += 1;
                    Event::Opened { fd: next_fd }
                }
                Action::CloseFd { .. } => {
                    open_fds -= 1;
                    Event::Ack
                }
                Action::DupOntoStd { .. } => {
                    open_fds -= 1;
                    Event::Ack
                }
                Action::RestoreStdFd { .. } => {
                    open_fds -= 1;
                    Event::Ack
                }
                Action::Chdir { .. } => Event::ChdirReply { ok: true },
                Action::GetHome => Event::HomeReply { home: Some("/home/me".to_string()) },
                _ => Event::Ack,
            },
        };
    }
}

#[test]
fn sequence_bracketing_is_immaterial() {
    // A ; (B ; C) and (A ; B) ; C run the same commands in the same
    // order and return C's status.
    let a = || command("a\n");
    let b = || command("b\n");
    let c = || command("c\n");
    let left = Command::Sequence {
        first: Box::new(Command::Sequence { first: Box::new(a()), second: Box::new(b()) }),
        second: Box::new(c()),
    };
    let right = Command::Sequence {
        first: Box::new(a()),
        second: Box::new(Command::Sequence { first: Box::new(b()), second: Box::new(c()) }),
    };
    let statuses = [256, 512, 768];
    let mut ctx = new_ctx();
    let (forks_l, _, result_l) = drive(left, &mut ctx, &statuses);
    let (forks_r, _, result_r) = drive(right, &mut ctx, &statuses);
    assert_eq!(forks_l, forks_r);
    assert_eq!(result_l, result_r);
    assert_eq!(result_l, Ok(768));
    assert_eq!(
        forks_l,
        vec![strings(&["a"]), strings(&["b"]), strings(&["c"])]
    );
}

#[test]
fn descriptors_balance_across_a_whole_command() {
    // Every descriptor the machine was handed is released again by the
    // end of the command, on success and on error alike.
    let mut ctx = new_ctx();
    let (_, balance, result) =
        drive(command("echo hi > /tmp/x ; cat < /tmp/x | tr h H >> /tmp/y\n"), &mut ctx, &[0; 8]);
    assert_eq!(balance, 0);
    assert_eq!(result, Ok(0));

    // A failing fork inside a redirected pipeline still balances.
    let mut m = execute(command("a < /tmp/x | b\n"));
    let mut open_fds = 0;
    let mut ev = Event::Tick;
    let mut budget = 100;
    let result = loop {
        assert!(budget > 0);
        budget -= 1;
        let (m2, s) = m.step(&mut ctx, ev);
        m = m2;
        ev = match s {
            Step::Continue => Event::Tick,
            Step::Done(r) => break r,
            Step::Act(Action::CreatePipe) => {
                open_fds += 2;
                Event::PipeReply { read_fd: 3, write_fd: 4 }
            }
            Step::Act(Action::Fork(_)) => Event::ForkFailed,
            Step::Act(Action::SaveStdFd { .. }) => {
                open_fds += 1;
                Event::SavedFd { fd: 9 }
            }
            Step::Act(Action::OpenFile { .. }) => {
                open_fds += 1;
                Event::Opened { fd: 5 }
            }
            Step::Act(Action::CloseFd { .. })
            | Step::Act(Action::DupOntoStd { .. })
            | Step::Act(Action::RestoreStdFd { .. }) => {
                open_fds -= 1;
                Event::Ack
            }
            Step::Act(_) => Event::Ack,
        };
    };
    assert_eq!(open_fds, 0);
    assert_eq!(result, Err(ExecutionError::ForkFailed));
}

#[test]
fn append_redirection_opens_for_append() {
    let mut ctx = new_ctx();
    let m = execute(command("echo one >> /tmp/y\n"));
    let (m, _) = m.step(&mut ctx, Event::Tick);
    let (_, s) = m.step(&mut ctx, Event::SavedFd { fd: 9 });
    assert_eq!(
        s,
        Step::Act(Action::OpenFile { path: "/tmp/y".to_string(), kind: RedirectionType::Append })
    );
}

#[test]
fn machine_moves_through_a_whole_turn() {
    // One full driver turn at the model level: lex, parse, execute.
    let toks = lexer("echo one ; echo two\n".to_string()).unwrap();
    let cmd = parse(toks).unwrap();
    let mut ctx = new_ctx();
    let mut m: Execution = execute(cmd);
    let mut pending: Option<Event> = Some(Event::Tick);
    let mut forks = 0;
    let mut result = None;
    let mut budget = 100;
    while budget > 0 {
        budget -= 1;
        let ev = pending.take().unwrap_or(Event::Tick);
        let (m2, s) = m.step(&mut ctx, ev);
        m = m2;
        match s {
            Step::Continue => {}
            Step::Act(Action::Fork(ChildTask::Exec { .. })) => {
                forks += 1;
                pending = Some(Event::ForkReply { pid: forks });
            }
            Step::Act(Action::Wait { .. }) => {
                pending = Some(Event::WaitReply { status: 0 });
            }
            Step::Act(_) => {
                pending = Some(Event::Ack);
            }
            Step::Done(r) => {
                result = Some(r);
                break;
            }
        }
    }
    assert_eq!(forks, 2);
    assert_eq!(result, Some(Ok(0)));
}
