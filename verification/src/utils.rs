//! Shared data model: tokens, command trees, execution context and the
//! error taxonomies of the three pipeline stages.

use vstd::prelude::*;

verus! {

/// A lexical token. `Word` arises from unquoted input, `StringLiteral`
/// from double-quoted input; the rest are punctuation. `EOF` terminates
/// every token sequence the lexer emits.
#[derive(Debug, PartialEq)]
pub enum Token {
    Word(String),
    StringLiteral(String),
    PIPE,
    RedirectIn,
    RedirectOut,
    RedirectAppend,
    Semicolon,
    Background,
    AndIf,
    OrIf,
    EOF,
}

/// Mathematical model of a `Token`: the same tags over `Seq<char>`.
pub enum TokenV {
    Word(Seq<char>),
    StringLiteral(Seq<char>),
    PIPE,
    RedirectIn,
    RedirectOut,
    RedirectAppend,
    Semicolon,
    Background,
    AndIf,
    OrIf,
    EOF,
}

impl View for Token {
    type V = TokenV;

    open spec fn view(&self) -> TokenV {
        match self {
            Token::Word(s) => TokenV::Word(s@),
            Token::StringLiteral(s) => TokenV::StringLiteral(s@),
            Token::PIPE => TokenV::PIPE,
            Token::RedirectIn => TokenV::RedirectIn,
            Token::RedirectOut => TokenV::RedirectOut,
            Token::RedirectAppend => TokenV::RedirectAppend,
            Token::Semicolon => TokenV::Semicolon,
            Token::Background => TokenV::Background,
            Token::AndIf => TokenV::AndIf,
            Token::OrIf => TokenV::OrIf,
            Token::EOF => TokenV::EOF,
        }
    }
}

impl Clone for Token {
    /// Cloning keeps the token's model.
    fn clone(&self) -> (t: Token)
        ensures
            t@ == self@,
    {
        match self {
            Token::Word(s) => Token::Word(s.clone()),
            Token::StringLiteral(s) => Token::StringLiteral(s.clone()),
            Token::PIPE => Token::PIPE,
            Token::RedirectIn => Token::RedirectIn,
            Token::RedirectOut => Token::RedirectOut,
            Token::RedirectAppend => Token::RedirectAppend,
            Token::Semicolon => Token::Semicolon,
            Token::Background => Token::Background,
            Token::AndIf => Token::AndIf,
            Token::OrIf => Token::OrIf,
            Token::EOF => Token::EOF,
        }
    }
}

/// Where a redirection sends or takes the stream.
#[derive(Clone, Copy, Debug, PartialEq, Eq, Structural)]
pub enum RedirectionType {
    In,
    Out,
    Append,
}

/// Which short-circuit operator joins the two sides of a conditional.
#[derive(Clone, Copy, Debug, PartialEq, Eq, Structural)]
pub enum ConditionalType {
    And,
    Or,
}

/// Whether a word came from double-quoted or bare input.
#[derive(Clone, Copy, Debug, PartialEq, Eq, Structural)]
pub enum WordSource {
    Quoted,
    Unquoted,
}

/// The lexer's state between two input characters.
#[derive(Clone, Copy, Debug, PartialEq, Eq, Structural)]
pub enum LexerState {
    Idle,
    ReadingLiteral,
    ReadingWord,
    ReadingOtherTokens,
}

/// What can go wrong while turning a line into tokens.
#[derive(Clone, Copy, Debug, PartialEq, Eq, Structural)]
pub enum LexerError {
    UnexpectedCharacter(char),
    UnterminatedStringLiteral,
    IncompleteEscapeSequence,
    IncompleteSpecialToken,
}

/// One external program invocation: a name and its ordered arguments.
/// By convention `arguments[0]` equals `command`.
#[derive(Debug, PartialEq)]
pub struct SimpleCommand {
    pub command: String,
    pub arguments: Vec<String>,
}

/// Mathematical model of a `SimpleCommand`.
pub struct SimpleCommandV {
    pub command: Seq<char>,
    pub arguments: Seq<Seq<char>>,
}

impl View for SimpleCommand {
    type V = SimpleCommandV;

    open spec fn view(&self) -> SimpleCommandV {
        SimpleCommandV {
            command: self.command@,
            arguments: self.arguments@.map_values(|s: String| s@),
        }
    }
}

/// A command tree, the parser's output and the executor's input.
#[derive(Debug, PartialEq)]
pub enum Command {
    Simple(SimpleCommand),
    Pipe { left: Box<Command>, right: Box<Command> },
    Redirect { child_command: Box<Command>, redirect_type: RedirectionType, target_file: String },
    Sequence { first: Box<Command>, second: Box<Command> },
    Background { child_command: Box<Command> },
    Conditional { left: Box<Command>, right: Box<Command>, operator: ConditionalType },
}

/// Mathematical model of a `Command` tree.
pub enum CommandV {
    Simple(SimpleCommandV),
    Pipe { left: Box<CommandV>, right: Box<CommandV> },
    Redirect { child_command: Box<CommandV>, redirect_type: RedirectionType, target_file: Seq<char> },
    Sequence { first: Box<CommandV>, second: Box<CommandV> },
    Background { child_command: Box<CommandV> },
    Conditional { left: Box<CommandV>, right: Box<CommandV>, operator: ConditionalType },
}

impl View for Command {
    type V = CommandV;

    open spec fn view(&self) -> CommandV
        decreases self,
    {
        match self {
            Command::Simple(sc) => CommandV::Simple(sc@),
            Command::Pipe { left, right } => CommandV::Pipe {
                left: Box::new((**left)@),
                right: Box::new((**right)@),
            },
            Command::Redirect { child_command, redirect_type, target_file } => CommandV::Redirect {
                child_command: Box::new((**child_command)@),
                redirect_type: *redirect_type,
                target_file: target_file@,
            },
            Command::Sequence { first, second } => CommandV::Sequence {
                first: Box::new((**first)@),
                second: Box::new((**second)@),
            },
            Command::Background { child_command } => CommandV::Background {
                child_command: Box::new((**child_command)@),
            },
            Command::Conditional { left, right, operator } => CommandV::Conditional {
                left: Box::new((**left)@),
                right: Box::new((**right)@),
                operator: *operator,
            },
        }
    }
}

/// What can go wrong inside the executor.
#[derive(Clone, Copy, Debug, PartialEq, Eq, Structural)]
pub enum ExecutionError {
    ForkFailed,
    Panic,
    InvalidNumberOfArgs,
    NoHomeDirectory,
    InvalidPath,
    DirectoryNotFound,
    FileError(i32),
}

/// Parser errors carry no data: a parse either yields a tree or fails.
#[derive(Clone, Copy, Debug, PartialEq, Eq, Structural)]
pub enum ParserError {
    Unparsable,
}

/// Any error of the three pipeline stages, for the driver's diagnostics.
pub enum ShellError {
    Lexer(LexerError),
    Parser(ParserError),
    Executor(ExecutionError),
}

impl From<LexerError> for ShellError {
    fn from(error: LexerError) -> (r: ShellError) {
        ShellError::Lexer(error)
    }
}

impl vstd::std_specs::convert::FromSpecImpl<LexerError> for ShellError {
    open spec fn obeys_from_spec() -> bool {
        true
    }

    open spec fn from_spec(error: LexerError) -> ShellError {
        ShellError::Lexer(error)
    }
}

impl From<ParserError> for ShellError {
    fn from(error: ParserError) -> (r: ShellError) {
        ShellError::Parser(error)
    }
}

impl vstd::std_specs::convert::FromSpecImpl<ParserError> for ShellError {
    open spec fn obeys_from_spec() -> bool {
        true
    }

    open spec fn from_spec(error: ParserError) -> ShellError {
        ShellError::Parser(error)
    }
}

impl From<ExecutionError> for ShellError {
    fn from(error: ExecutionError) -> (r: ShellError) {
        ShellError::Executor(error)
    }
}

impl vstd::std_specs::convert::FromSpecImpl<ExecutionError> for ShellError {
    open spec fn obeys_from_spec() -> bool {
        true
    }

    open spec fn from_spec(error: ExecutionError) -> ShellError {
        ShellError::Executor(error)
    }
}

/// Relies on `String::push`: appends one character at the end.
#[verifier::external_body]
pub(crate) fn push_char(s: &mut String, c: char)
    ensures
        final(s)@ == old(s)@.push(c),
{
    s.push(c);
}

/// Collects the characters of a string slice into a vector.
pub fn chars_of(s: &str) -> (v: Vec<char>)
    ensures
        v@ == s@,
{
    let n: usize = s.unicode_len();
    let mut v: Vec<char> = Vec::new();
    let mut i: usize = 0;
    while i < n
        invariant
            n == s@.len(),
            i <= n,
            v@ == s@.subrange(0, i as int),
        decreases n - i,
    {
        v.push(s.get_char(i));
        i = i + 1;
        proof {
            assert(v@ =~= s@.subrange(0, i as int));
        }
    }
    proof {
        assert(v@ =~= s@);
    }
    v
}

/// Builds a string out of a vector of characters.
pub fn string_of_chars(v: &Vec<char>) -> (s: String)
    ensures
        s@ == v@,
{
    let mut s = String::new();
    let mut i: usize = 0;
    while i < v.len()
        invariant
            i <= v@.len(),
            s@ == v@.subrange(0, i as int),
        decreases v@.len() - i,
    {
        push_char(&mut s, v[i]);
        i = i + 1;
        proof {
            assert(s@ =~= v@.subrange(0, i as int));
        }
    }
    proof {
        assert(s@ =~= v@);
    }
    s
}

/// The decimal digit character for a value below ten.
pub open spec fn dec_digit(d: nat) -> char {
    if d == 0 { '0' }
    else if d == 1 { '1' }
    else if d == 2 { '2' }
    else if d == 3 { '3' }
    else if d == 4 { '4' }
    else if d == 5 { '5' }
    else if d == 6 { '6' }
    else if d == 7 { '7' }
    else if d == 8 { '8' }
    else { '9' }
}

/// The decimal digit characters of a natural number, most significant first.
pub open spec fn dec_chars(n: nat) -> Seq<char>
    decreases n,
{
    if n < 10 {
        seq![dec_digit(n)]
    } else {
        dec_chars(n / 10).push(dec_digit(n % 10))
    }
}

/// The decimal characters of an integer, with a leading minus sign when negative.
pub open spec fn int_chars(n: int) -> Seq<char> {
    if n < 0 {
        seq!['-'] + dec_chars((-n) as nat)
    } else {
        dec_chars(n as nat)
    }
}

fn digit_char(d: u64) -> (c: char)
    requires
        d < 10,
    ensures
        c == dec_digit(d as nat),
{
    match d {
        0 => '0',
        1 => '1',
        2 => '2',
        3 => '3',
        4 => '4',
        5 => '5',
        6 => '6',
        7 => '7',
        8 => '8',
        _ => '9',
    }
}

/// Appends the decimal rendering of `n` to `s`.
pub fn push_dec(s: &mut String, n: u64)
    ensures
        final(s)@ == old(s)@ + dec_chars(n as nat),
    decreases n,
{
    if n >= 10 {
        push_dec(s, n / 10);
    }
    let c = digit_char(n % 10);
    push_char(s, c);
    proof {
        if n < 10 {
            assert(final(s)@ =~= old(s)@ + dec_chars(n as nat));
        } else {
            assert(final(s)@ =~= old(s)@ + dec_chars(n as nat));
        }
    }
}

/// Appends the decimal rendering of a signed value to `s`.
pub fn push_int(s: &mut String, n: i32)
    ensures
        final(s)@ == old(s)@ + int_chars(n as int),
{
    if n < 0 {
        push_char(s, '-');
        let m: u64 = (-(n as i64)) as u64;
        push_dec(s, m);
        proof {
            assert(final(s)@ =~= old(s)@ + int_chars(n as int));
        }
    } else {
        push_dec(s, n as u64);
    }
}

/// Whether a string holds the same characters as a string slice.
pub fn string_eq_str(a: &String, b: &str) -> (r: bool)
    ensures
        r == (a@ == b@),
{
    let other: String = b.to_owned();
    *a == other
}

/// Whether the string holds an interior or terminal NUL character,
/// which no operating-system path may carry.
pub fn contains_nul(s: &String) -> (r: bool)
    ensures
        r == s@.contains('\0'),
{
    let v = chars_of(s.as_str());
    let mut i: usize = 0;
    while i < v.len()
        invariant
            v@ == s@,
            i <= v@.len(),
            forall|j: int| 0 <= j < i ==> v@[j] != '\0',
        decreases v@.len() - i,
    {
        if v[i] == '\0' {
            proof {
                assert(s@[i as int] == '\0');
            }
            return true;
        }
        i = i + 1;
    }
    false
}

/// A command implemented in-process without forking.
#[derive(Clone, Copy, Debug, PartialEq, Eq, Structural)]
pub enum Builtin {
    Exit,
    Cd,
    Jobs,
}

/// Which built-in, if any, a command name denotes.
pub open spec fn builtin_of(name: Seq<char>) -> Option<Builtin> {
    if name == "exit"@ {
        Some(Builtin::Exit)
    } else if name == "cd"@ {
        Some(Builtin::Cd)
    } else if name == "jobs"@ {
        Some(Builtin::Jobs)
    } else {
        None
    }
}

/// The built-in table, populated once at startup and immutable thereafter.
pub fn built_ins() -> (table: Vec<(String, Builtin)>)
    ensures
        table@.len() == 3,
        forall|i: int|
            0 <= i < 3 ==> builtin_of(#[trigger] table@[i].0@) == Some(table@[i].1),
        table@[0].0@ == "exit"@ && table@[0].1 == Builtin::Exit,
        table@[1].0@ == "cd"@ && table@[1].1 == Builtin::Cd,
        table@[2].0@ == "jobs"@ && table@[2].1 == Builtin::Jobs,
{
    let mut table: Vec<(String, Builtin)> = Vec::new();
    table.push(("exit".to_owned(), Builtin::Exit));
    table.push(("cd".to_owned(), Builtin::Cd));
    table.push(("jobs".to_owned(), Builtin::Jobs));
    proof {
        reveal_strlit("exit");
        reveal_strlit("cd");
        reveal_strlit("jobs");
        assert("exit"@.len() == 4 && "cd"@.len() == 2 && "jobs"@.len() == 4);
        assert("jobs"@[0] != "exit"@[0]);
        assert(builtin_of(table@[0].0@) == Some(Builtin::Exit));
        assert(builtin_of(table@[1].0@) == Some(Builtin::Cd));
        assert(builtin_of(table@[2].0@) == Some(Builtin::Jobs));
    }
    table
}

/// Looks a command name up among the built-ins.
pub fn lookup_builtin(name: &String) -> (r: Option<Builtin>)
    ensures
        r == builtin_of(name@),
{
    if string_eq_str(name, "exit") {
        Some(Builtin::Exit)
    } else if string_eq_str(name, "cd") {
        Some(Builtin::Cd)
    } else if string_eq_str(name, "jobs") {
        Some(Builtin::Jobs)
    } else {
        None
    }
}

/// Where `cd` should go: the user's home directory or an explicit path.
#[derive(Debug, PartialEq)]
pub enum CdTarget {
    Home,
    Path(String),
}

/// Mathematical model of a `CdTarget`.
pub enum CdTargetV {
    Home,
    Path(Seq<char>),
}

impl View for CdTarget {
    type V = CdTargetV;

    open spec fn view(&self) -> CdTargetV {
        match self {
            CdTarget::Home => CdTargetV::Home,
            CdTarget::Path(p) => CdTargetV::Path(p@),
        }
    }
}

/// What `cd` decides from its argument list: with more than one argument
/// it rejects the call; with none, or the literal `~`, it goes home;
/// otherwise it goes to the named path.
pub open spec fn cd_plan(args: Seq<Seq<char>>) -> Result<CdTargetV, ExecutionError> {
    if args.len() > 2 {
        Err(ExecutionError::InvalidNumberOfArgs)
    } else if args.len() == 1 || args[1] == "~"@ {
        Ok(CdTargetV::Home)
    } else {
        Ok(CdTargetV::Path(args[1]))
    }
}

/// The argument check of the `cd` built-in.
pub fn cd_request(cmd: &SimpleCommand) -> (r: Result<CdTarget, ExecutionError>)
    requires
        cmd.arguments@.len() >= 1,
    ensures
        match (r, cd_plan(cmd@.arguments)) {
            (Ok(t), Ok(p)) => t@ == p,
            (Err(e), Err(f)) => e == f,
            _ => false,
        },
{
    if cmd.arguments.len() > 2 {
        Err(ExecutionError::InvalidNumberOfArgs)
    } else if cmd.arguments.len() == 1 || string_eq_str(&cmd.arguments[1], "~") {
        Ok(CdTarget::Home)
    } else {
        Ok(CdTarget::Path(cmd.arguments[1].clone()))
    }
}

/// Whether a job-table slot still names a running background child.
/// Reaped slots hold 0; slots lost to a wait error hold -1.
pub open spec fn live_job(pid: i32) -> bool {
    pid != 0 && pid != -1
}

/// The line the `jobs` built-in prints for the slot at 0-based index
/// `idx`: `[<n> <pid>]` with the 1-based job number `n`.
pub open spec fn job_line(idx: nat, pid: int) -> Seq<char> {
    seq!['['] + dec_chars(idx + 1) + seq![' '] + int_chars(pid) + seq![']']
}

/// The lines the `jobs` built-in prints for the slots from `i` on.
pub open spec fn job_lines_from(jobs: Seq<i32>, i: nat) -> Seq<Seq<char>>
    decreases jobs.len() - i when i <= jobs.len()
{
    if i >= jobs.len() {
        Seq::empty()
    } else if live_job(jobs[i as int]) {
        seq![job_line(i, jobs[i as int] as int)] + job_lines_from(jobs, i + 1)
    } else {
        job_lines_from(jobs, i + 1)
    }
}

/// Everything the `jobs` built-in prints: one line per live slot,
/// tombstoned slots skipped, job numbers preserved.
pub open spec fn jobs_report(jobs: Seq<i32>) -> Seq<Seq<char>> {
    job_lines_from(jobs, 0)
}

fn job_line_string(idx: usize, pid: i32) -> (s: String)
    requires
        idx < usize::MAX,
    ensures
        s@ == job_line(idx as nat, pid as int),
{
    let mut s = String::new();
    push_char(&mut s, '[');
    push_dec(&mut s, (idx as u64) + 1);
    push_char(&mut s, ' ');
    push_int(&mut s, pid);
    push_char(&mut s, ']');
    proof {
        assert(s@ =~= job_line(idx as nat, pid as int));
    }
    s
}

/// The `jobs` built-in: renders the live entries of the job table.
pub fn jobs_listing(jobs: &Vec<i32>) -> (lines: Vec<String>)
    ensures
        lines@.map_values(|s: String| s@) == jobs_report(jobs@),
{
    let ghost mapped = |s: String| s@;
    let mut lines: Vec<String> = Vec::new();
    let mut i: usize = 0;
    while i < jobs.len()
        invariant
            i <= jobs@.len(),
            lines@.map_values(|s: String| s@) + job_lines_from(jobs@, i as nat)
                == jobs_report(jobs@),
        decreases jobs@.len() - i,
    {
        if jobs[i] != 0 && jobs[i] != -1 {
            let line = job_line_string(i, jobs[i]);
            proof {
                assert(lines@.push(line).map_values(|s: String| s@)
                    =~= lines@.map_values(|s: String| s@).push(line@));
                assert(lines@.map_values(|s: String| s@).push(line@)
                        + job_lines_from(jobs@, (i + 1) as nat)
                    =~= lines@.map_values(|s: String| s@)
                        + job_lines_from(jobs@, i as nat));
            }
            lines.push(line);
        }
        i = i + 1;
    }
    proof {
        assert(lines@.map_values(|s: String| s@)
            =~= lines@.map_values(|s: String| s@) + job_lines_from(jobs@, i as nat));
    }
    lines
}

/// The announcement printed when a background job is launched:
/// `[<n>] <pid>` with the 1-based job number `n`.
pub open spec fn launch_line(n: nat, pid: int) -> Seq<char> {
    seq!['['] + dec_chars(n) + seq![']', ' '] + int_chars(pid)
}

/// Renders the background-launch announcement.
pub fn launch_announcement(n: usize, pid: i32) -> (s: String)
    ensures
        s@ == launch_line(n as nat, pid as int),
{
    let mut s = String::new();
    push_char(&mut s, '[');
    push_dec(&mut s, n as u64);
    push_char(&mut s, ']');
    push_char(&mut s, ' ');
    push_int(&mut s, pid);
    proof {
        assert(s@ =~= launch_line(n as nat, pid as int));
    }
    s
}

/// The announcement printed when a background job is found finished:
/// `[<n>] Done <status>` with the 1-based job number `n`.
pub open spec fn done_line(n: nat, status: int) -> Seq<char> {
    seq!['['] + dec_chars(n) + seq![']', ' ', 'D', 'o', 'n', 'e', ' '] + int_chars(status)
}

/// Renders the background-completion announcement.
pub fn done_announcement(n: usize, status: i32) -> (s: String)
    ensures
        s@ == done_line(n as nat, status as int),
{
    let mut s = String::new();
    push_char(&mut s, '[');
    push_dec(&mut s, n as u64);
    push_char(&mut s, ']');
    push_char(&mut s, ' ');
    push_char(&mut s, 'D');
    push_char(&mut s, 'o');
    push_char(&mut s, 'n');
    push_char(&mut s, 'e');
    push_char(&mut s, ' ');
    push_int(&mut s, status);
    proof {
        assert(s@ =~= done_line(n as nat, status as int));
    }
    s
}

/// The exit code carried in a wait status: its second-lowest byte.
pub open spec fn wait_exit_code(status: i32) -> i32 {
    (status >> 8) & 0xff
}

/// Extracts the exit code from a raw wait status.
pub fn exit_code_of_status(status: i32) -> (c: i32)
    ensures
        c == wait_exit_code(status),
        0 <= c <= 255,
{
    let c = (status >> 8) & 0xff;
    proof {
        assert(0 <= ((status >> 8) & 0xff) <= 255) by (bit_vector);
    }
    c
}

/// What a non-blocking poll of a background child reported.
#[derive(Clone, Copy, Debug, PartialEq, Eq, Structural)]
pub enum WaitPoll {
    StillRunning,
    Failed,
    Exited(i32),
}

/// One driver turn's bookkeeping for a single job slot: a child still
/// running keeps its pid; a failed wait tombstones the slot with -1; a
/// reaped child tombstones it with 0 and announces `[<n>] Done <status>`.
pub fn reap_slot(idx: usize, pid: i32, poll: WaitPoll) -> (r: (i32, Option<String>))
    requires
        idx < usize::MAX,
    ensures
        poll == WaitPoll::StillRunning ==> r.0 == pid && r.1 is None,
        poll == WaitPoll::Failed ==> r.0 == -1 && r.1 is None,
        forall|st: i32|
            poll == WaitPoll::Exited(st) ==> r.0 == 0
                && (r.1 matches Some(line) && line@ == done_line((idx + 1) as nat, st as int)),
{
    match poll {
        WaitPoll::StillRunning => (pid, None),
        WaitPoll::Failed => (-1, None),
        WaitPoll::Exited(st) => (0, Some(done_announcement(idx + 1, st))),
    }
}

/// Process-wide state for the lifetime of the shell.
///
/// `jobs` is append-only with tombstones: a slot is set to 0 once the
/// background child is reaped and to -1 when a wait on it failed, so job
/// numbers stay stable for the life of the process.
pub struct ExecutionContext {
    pub variables: std::collections::HashMap<String, String>,
    pub jobs: Vec<i32>,
    pub shell_pgid: u32,
    pub last_exit_status: i32,
}

} // verus!
