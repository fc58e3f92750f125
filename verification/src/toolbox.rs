//! A deliberately small, deterministic Bash-compatible command executor.
//!
//! It dispatches only the built-ins below and operates through [`CapFs`]; it
//! never invokes a host shell or executable. A script runs in steps:
//! [`Toolbox::next`] goes on to the next command, and where that command needs
//! the filesystem it says which operation is due; [`Toolbox::resume`] takes the
//! outcome of the operation.
pub mod calls;
pub mod laws;
pub mod outcomes;
pub mod parse;

use vstd::prelude::*;

use crate::cap_fs::CapFs;
use crate::error::{debug_of, FsError};
use crate::model::FsView;
use crate::perms::{DescriptorStat, DescriptorType};
use crate::sandbox::ExecutionResult;
use crate::text::{append_within, begins_with, byte_len, concat2, concat3, contains_char};
use crate::text::{contains_text, fitting, join, join_from, occurs_in, replace_all, replace_text};
use crate::text::{same_text, signed_decimal, signed_decimal_text, split_once, split_once_text};
use crate::text::{starts_with_text, texts, trim_start, trim_start_text, utf8_len};
use parse::{commands_of, parse, script_commands, Command, CommandView, Join};

verus! {

/// The longest script that is accepted, in bytes.
pub const MAX_SCRIPT_BYTES: usize = 65_536;

/// The largest number of commands that a script may hold.
pub const MAX_NODES: usize = 10_000;

/// How many bytes of output are kept of a script.
pub const MAX_OUTPUT_BYTES: usize = 1_048_576;

/// Stateful executor for a bounded shell subset.
#[derive(Debug)]
pub struct Toolbox {
    cwd: String,
    /// The variables. No command sets one, so there are none.
    environment: Vec<(String, String)>,
    last_status: i32,
}

/// The state of an executor, in the form that contracts use.
#[verifier::ext_equal]
pub struct ShellView {
    pub cwd: Seq<char>,
    pub environment: Seq<(Seq<char>, Seq<char>)>,
    pub last_status: i32,
}

impl View for Toolbox {
    type V = ShellView;

    closed spec fn view(&self) -> ShellView {
        ShellView {
            cwd: self.cwd@,
            environment: self.environment@.map_values(|e: (String, String)| (e.0@, e.1@)),
            last_status: self.last_status,
        }
    }
}

/// What a command yields: its status and its output.
#[verifier::ext_equal]
pub struct ReplyView {
    pub status: i32,
    pub out: Seq<char>,
    pub err: Seq<char>,
}

/// Success with the given output.
pub open spec fn succeeded(out: Seq<char>) -> ReplyView {
    ReplyView { status: 0, out, err: Seq::empty() }
}

/// Failure with the given report.
pub open spec fn reported(error: Seq<char>) -> ReplyView {
    ReplyView { status: 1, out: Seq::empty(), err: "toolbox: "@ + error + "\n"@ }
}

/// A text with as much of `value` added as keeps it within the bound on output.
pub open spec fn appended(target: Seq<char>, value: Seq<char>) -> Seq<char> {
    if utf8_len(target) < MAX_OUTPUT_BYTES {
        target + fitting(value, (MAX_OUTPUT_BYTES - utf8_len(target)) as nat)
    } else {
        target
    }
}

/// A word with the variables of the environment replaced, in order.
pub open spec fn substituted(
    word: Seq<char>,
    environment: Seq<(Seq<char>, Seq<char>)>,
) -> Seq<char>
    decreases environment.len(),
{
    if environment.len() == 0 {
        word
    } else {
        let (name, value) = environment.last();
        replace_all(substituted(word, environment.drop_last()), "$"@ + name, value)
    }
}

/// The operation that a command waits for. The parameter is the form in which
/// a path is held.
#[derive(Debug)]
pub enum ShellAction<S = String> {
    /// No operation is due: go on to the next command.
    Nothing,
    /// Look up a path below a mounted directory, following symbolic links.
    Stat { fd: u32, path: S },
    /// Read a file by its guest path.
    Read { path: S },
    /// Open a path below a mounted directory, creating the file.
    Create { fd: u32, path: S },
    /// Create a directory below a mounted directory.
    MakeDirectory { fd: u32, path: S },
    /// Unlink a file below a mounted directory.
    Unlink { fd: u32, path: S },
    /// The script has ended.
    Done,
}

impl View for ShellAction<String> {
    type V = ShellAction<Seq<char>>;

    open spec fn view(&self) -> ShellAction<Seq<char>> {
        match *self {
            ShellAction::Nothing => ShellAction::Nothing,
            ShellAction::Stat { fd, path } => ShellAction::Stat { fd, path: path@ },
            ShellAction::Read { path } => ShellAction::Read { path: path@ },
            ShellAction::Create { fd, path } => ShellAction::Create { fd, path: path@ },
            ShellAction::MakeDirectory { fd, path } => ShellAction::MakeDirectory {
                fd,
                path: path@,
            },
            ShellAction::Unlink { fd, path } => ShellAction::Unlink { fd, path: path@ },
            ShellAction::Done => ShellAction::Done,
        }
    }
}

/// The outcome of an operation.
pub enum ShellEvent {
    /// What was found at the path that was looked up.
    Stat(Result<DescriptorStat, FsError>),
    /// The text of the file, or why it could not be read.
    Text(Result<String, String>),
    /// Whether the change was made.
    Effect(Result<(), FsError>),
}

/// What a command waits for, in the form that contracts use.
pub enum WaitingView {
    /// Nothing.
    No,
    /// Whether `path` is a directory, to change to it.
    Directory { path: Seq<char> },
    /// The text of `paths[next]`, where `out` is that of the files before.
    Files { paths: Seq<Seq<char>>, next: nat, out: Seq<char> },
    /// Whether a change was made.
    Effect,
}

/// A command that was begun: it is finished, or it waits for an operation.
pub enum Begun {
    Finished { cwd: Seq<char>, reply: ReplyView },
    Waiting { waiting: WaitingView, action: ShellAction<Seq<char>> },
}

/// The guest path that a path stands for, where it is acceptable.
pub open spec fn absolute(cwd: Seq<char>, path: Seq<char>) -> Option<Seq<char>> {
    let full = if begins_with(path, "/"@) {
        path
    } else {
        cwd + "/"@ + path
    };
    if occurs_in(".."@, full) || full.contains('\\') || full.contains('\0') {
        None
    } else {
        Some(full)
    }
}

/// The mount point and the path below it that a path stands for, or why there
/// is none.
pub open spec fn located(cwd: Seq<char>, path: Seq<char>) -> Result<
    (Seq<char>, Seq<char>),
    Seq<char>,
> {
    match absolute(cwd, path) {
        None => Err("invalid path"@),
        Some(full) => match split_once(trim_start(full, '/'), '/') {
            None => Err("path must name a file"@),
            Some((root, rest)) => Ok(("/"@ + root, rest)),
        },
    }
}

/// The mounted directory and the path below it that a path stands for, or why
/// there is none.
pub open spec fn mounted_path(fs: FsView, cwd: Seq<char>, path: Seq<char>) -> Result<
    (u32, Seq<char>),
    Seq<char>,
> {
    match located(cwd, path) {
        Err(e) => Err(e),
        Ok((root, rest)) => match fs.mount_at(root) {
            None => Err("unmounted path"@),
            Some(fd) => Ok((fd, rest)),
        },
    }
}

/// Begins a change of directory.
pub open spec fn begun_cd(fs: FsView, cwd: Seq<char>, path: Seq<char>) -> Begun {
    match absolute(cwd, path) {
        None => Begun::Finished { cwd, reply: reported("invalid path"@) },
        Some(full) => if fs.mount_at(full) is Some {
            Begun::Finished { cwd: full, reply: succeeded(Seq::empty()) }
        } else {
            match mounted_path(fs, cwd, full) {
                Err(_) => Begun::Finished { cwd, reply: reported("cd: not a directory"@) },
                Ok((fd, rest)) => Begun::Waiting {
                    waiting: WaitingView::Directory { path: full },
                    action: ShellAction::Stat { fd, path: rest },
                },
            }
        },
    }
}

/// Goes on to the next file, or to the end.
pub open spec fn begun_cat(cwd: Seq<char>, paths: Seq<Seq<char>>, next: nat, out: Seq<char>) -> Begun {
    if next >= paths.len() {
        Begun::Finished { cwd, reply: succeeded(out) }
    } else {
        match absolute(cwd, paths[next as int]) {
            None => Begun::Finished { cwd, reply: reported("cat: "@ + "invalid path"@) },
            Some(full) => Begun::Waiting {
                waiting: WaitingView::Files { paths, next, out },
                action: ShellAction::Read { path: full },
            },
        }
    }
}

/// Which change a command makes.
#[derive(Debug, Clone, Copy, PartialEq, Eq, Structural)]
pub enum Change {
    Create,
    MakeDirectory,
    Unlink,
}

/// The operation that makes a change.
pub open spec fn change_action(change: Change, fd: u32, path: Seq<char>) -> ShellAction<Seq<char>> {
    match change {
        Change::Create => ShellAction::Create { fd, path },
        Change::MakeDirectory => ShellAction::MakeDirectory { fd, path },
        Change::Unlink => ShellAction::Unlink { fd, path },
    }
}

/// Begins a change to what the first argument names.
pub open spec fn begun_change(
    fs: FsView,
    cwd: Seq<char>,
    words: Seq<Seq<char>>,
    missing: Seq<char>,
    change: Change,
) -> Begun {
    if words.len() < 2 {
        Begun::Finished { cwd, reply: reported(missing) }
    } else {
        match mounted_path(fs, cwd, words[1]) {
            Err(e) => Begun::Finished { cwd, reply: reported(e) },
            Ok((fd, rest)) => Begun::Waiting {
                waiting: WaitingView::Effect,
                action: change_action(change, fd, rest),
            },
        }
    }
}

impl ShellView {
    /// A word with its variables replaced: `$?` is the status of the last
    /// command.
    pub open spec fn expanded(self, word: Seq<char>) -> Seq<char> {
        substituted(
            replace_all(word, "$?"@, signed_decimal(self.last_status as int)),
            self.environment,
        )
    }

    /// The words of a command with their variables replaced.
    pub open spec fn expanded_words(self, words: Seq<Seq<char>>) -> Seq<Seq<char>> {
        words.map_values(|w: Seq<char>| self.expanded(w))
    }

    /// Begins a command. Its words are expanded already.
    pub open spec fn begun(self, fs: FsView, words: Seq<Seq<char>>) -> Begun {
        let cwd = self.cwd;
        if words.len() == 0 {
            Begun::Finished { cwd, reply: succeeded(Seq::empty()) }
        } else if words[0] == "true"@ {
            Begun::Finished { cwd, reply: succeeded(Seq::empty()) }
        } else if words[0] == "false"@ {
            Begun::Finished {
                cwd,
                reply: ReplyView { status: 1, out: Seq::empty(), err: Seq::empty() },
            }
        } else if words[0] == "echo"@ {
            Begun::Finished { cwd, reply: succeeded(join(words.skip(1), " "@) + "\n"@) }
        } else if words[0] == "printf"@ {
            Begun::Finished { cwd, reply: succeeded(join(words.skip(1), ""@)) }
        } else if words[0] == "pwd"@ {
            Begun::Finished { cwd, reply: succeeded(cwd + "\n"@) }
        } else if words[0] == "cd"@ {
            begun_cd(
                fs,
                cwd,
                if words.len() > 1 {
                    words[1]
                } else {
                    "/work"@
                },
            )
        } else if words[0] == "cat"@ {
            begun_cat(cwd, words.skip(1), 0, Seq::empty())
        } else if words[0] == "touch"@ {
            begun_change(fs, cwd, words, "touch: missing file"@, Change::Create)
        } else if words[0] == "mkdir"@ {
            begun_change(fs, cwd, words, "mkdir: missing directory"@, Change::MakeDirectory)
        } else if words[0] == "rm"@ {
            begun_change(fs, cwd, words, "rm: missing file"@, Change::Unlink)
        } else {
            Begun::Finished {
                cwd,
                reply: ReplyView {
                    status: 127,
                    out: Seq::empty(),
                    err: words[0] + ": command not found\n"@,
                },
            }
        }
    }

    /// Goes on with a command that waited for a file, by its text or by why it
    /// could not be read.
    pub open spec fn file_resumed(
        self,
        waiting: WaitingView,
        text: Result<Seq<char>, Seq<char>>,
    ) -> Begun {
        match (waiting, text) {
            (WaitingView::Files { paths, next, out }, Ok(text)) => begun_cat(
                self.cwd,
                paths,
                next + 1,
                appended(out, text),
            ),
            (_, Ok(_)) => Begun::Finished { cwd: self.cwd, reply: succeeded(Seq::empty()) },
            (_, Err(e)) => Begun::Finished { cwd: self.cwd, reply: reported("cat: "@ + e) },
        }
    }

    /// Goes on with a command by the outcome of the operation it waited for.
    pub open spec fn resumed(self, waiting: WaitingView, event: ShellEvent) -> Begun {
        let cwd = self.cwd;
        match (waiting, event) {
            (WaitingView::Directory { path }, ShellEvent::Stat(found)) => if found is Ok
                && found->Ok_0.descriptor_type is Directory {
                Begun::Finished { cwd: path, reply: succeeded(Seq::empty()) }
            } else {
                Begun::Finished { cwd, reply: reported("cd: not a directory"@) }
            },
            (WaitingView::Files { .. }, ShellEvent::Text(Ok(text))) => self.file_resumed(
                waiting,
                Ok(text@),
            ),
            (WaitingView::Files { .. }, ShellEvent::Text(Err(e))) => self.file_resumed(
                waiting,
                Err(e@),
            ),
            (WaitingView::Effect, ShellEvent::Effect(Err(e))) => Begun::Finished {
                cwd,
                reply: reported("filesystem error: "@ + debug_of(e@)),
            },
            _ => Begun::Finished { cwd, reply: succeeded(Seq::empty()) },
        }
    }
}

/// A script being run, in the form that contracts use.
pub struct RunView {
    pub commands: Seq<CommandView>,
    /// How many commands were dealt with.
    pub next: nat,
    /// The status of the last command that ran.
    pub previous: i32,
    pub stdout: Seq<char>,
    pub stderr: Seq<char>,
    pub waiting: WaitingView,
}

/// Whether a command runs after one of the given status.
pub open spec fn runs_after(join: Join, previous: i32) -> bool {
    match join {
        Join::Always => true,
        Join::And => previous == 0,
        Join::Or => previous != 0,
    }
}

impl RunView {
    /// A script that was refused.
    pub open spec fn refused(report: Seq<char>) -> RunView {
        RunView {
            commands: Seq::empty(),
            next: 0,
            previous: 2,
            stdout: Seq::empty(),
            stderr: report,
            waiting: WaitingView::No,
        }
    }

    /// The start of a script, or why it is refused.
    pub open spec fn start(script: Seq<char>) -> RunView {
        if utf8_len(script) > MAX_SCRIPT_BYTES {
            RunView::refused("toolbox: script exceeds 64 KiB limit\n"@)
        } else {
            match script_commands(script) {
                Err(e) => RunView::refused("toolbox: "@ + e.text() + "\n"@),
                Ok(commands) => if commands.len() > MAX_NODES {
                    RunView::refused("toolbox: AST node limit exceeded\n"@)
                } else {
                    RunView {
                        commands,
                        next: 0,
                        previous: 0,
                        stdout: Seq::empty(),
                        stderr: Seq::empty(),
                        waiting: WaitingView::No,
                    }
                },
            }
        }
    }

    /// The script and the executor after a command was begun or resumed, and
    /// the operation that is due.
    pub open spec fn settled(self, shell: ShellView, begun: Begun) -> (
        ShellView,
        RunView,
        ShellAction<Seq<char>>,
    ) {
        match begun {
            Begun::Finished { cwd, reply } => (
                ShellView { cwd, last_status: reply.status, ..shell },
                RunView {
                    previous: reply.status,
                    stdout: appended(self.stdout, reply.out),
                    stderr: appended(self.stderr, reply.err),
                    waiting: WaitingView::No,
                    ..self
                },
                ShellAction::Nothing,
            ),
            Begun::Waiting { waiting, action } => (shell, RunView { waiting, ..self }, action),
        }
    }

    /// Goes on to the next command. One that does not run changes nothing.
    pub open spec fn stepped(self, shell: ShellView, fs: FsView) -> (
        ShellView,
        RunView,
        ShellAction<Seq<char>>,
    ) {
        if self.next >= self.commands.len() {
            (shell, self, ShellAction::Done)
        } else {
            let command = self.commands[self.next as int];
            let onward = RunView { next: self.next + 1, ..self };
            if runs_after(command.join, self.previous) {
                onward.settled(shell, shell.begun(fs, shell.expanded_words(command.words)))
            } else {
                (shell, onward, ShellAction::Nothing)
            }
        }
    }

    /// Whether the outcome is of the operation that is due.
    pub open spec fn awaits(self, event: ShellEvent) -> bool {
        match (self.waiting, event) {
            (WaitingView::Directory { .. }, ShellEvent::Stat(_)) => true,
            (WaitingView::Files { .. }, ShellEvent::Text(_)) => true,
            (WaitingView::Effect, ShellEvent::Effect(_)) => true,
            _ => false,
        }
    }
}

enum Waiting {
    No,
    Directory { path: String },
    Files { paths: Vec<String>, next: usize, out: String },
    Effect,
}

impl Waiting {
    spec fn model(self) -> WaitingView {
        match self {
            Waiting::No => WaitingView::No,
            Waiting::Directory { path } => WaitingView::Directory { path: path@ },
            Waiting::Files { paths, next, out } => WaitingView::Files {
                paths: texts(paths@),
                next: next as nat,
                out: out@,
            },
            Waiting::Effect => WaitingView::Effect,
        }
    }

    spec fn wf(self) -> bool {
        self matches Waiting::Files { paths, next, .. } ==> next < paths@.len()
    }
}

/// A script being run.
pub struct Execution {
    commands: Vec<Command>,
    next: usize,
    previous: i32,
    stdout: String,
    stderr: String,
    waiting: Waiting,
}

impl View for Execution {
    type V = RunView;

    closed spec fn view(&self) -> RunView {
        RunView {
            commands: commands_of(self.commands@),
            next: self.next as nat,
            previous: self.previous,
            stdout: self.stdout@,
            stderr: self.stderr@,
            waiting: self.waiting.model(),
        }
    }
}

impl Execution {
    pub closed spec fn wf(self) -> bool {
        self.waiting.wf() && self.next <= self.commands@.len()
    }

    fn refused(report: String) -> (r: Execution)
        ensures
            r.wf(),
            r@ == RunView::refused(report@),
    {
        let r = Execution {
            commands: Vec::new(),
            next: 0,
            previous: 2,
            stdout: String::new(),
            stderr: report,
            waiting: Waiting::No,
        };
        assert(commands_of(r.commands@) =~= Seq::<CommandView>::empty());
        assert(r.stdout@ =~= Seq::<char>::empty());
        r
    }

    /// What the script yielded.
    pub fn finish(self) -> (r: ExecutionResult)
        ensures
            r.exit_code == self@.previous,
            r.stdout@ == self@.stdout,
            r.stderr@ == self@.stderr,
    {
        ExecutionResult { stdout: self.stdout, stderr: self.stderr, exit_code: self.previous }
    }
}

struct Reply {
    status: i32,
    out: String,
    err: String,
}

impl Reply {
    spec fn model(self) -> ReplyView {
        ReplyView { status: self.status, out: self.out@, err: self.err@ }
    }

    fn ok(out: String) -> (r: Reply)
        ensures
            r.model() == succeeded(out@),
    {
        let r = Reply { status: 0, out, err: String::new() };
        assert(r.err@ =~= Seq::<char>::empty());
        r
    }

    fn fail(error: &str) -> (r: Reply)
        ensures
            r.model() == reported(error@),
    {
        let r = Reply { status: 1, out: String::new(), err: concat3("toolbox: ", error, "\n") };
        assert(r.out@ =~= Seq::<char>::empty());
        r
    }
}

enum Started {
    Finished { cwd: Option<String>, reply: Reply },
    Waiting { waiting: Waiting, action: ShellAction },
}

impl Started {
    spec fn model(self, cwd: Seq<char>) -> Begun {
        match self {
            Started::Finished { cwd: to, reply } => Begun::Finished {
                cwd: match to {
                    Some(path) => path@,
                    None => cwd,
                },
                reply: reply.model(),
            },
            Started::Waiting { waiting, action } => Begun::Waiting {
                waiting: waiting.model(),
                action: action@,
            },
        }
    }

    spec fn wf(self) -> bool {
        self matches Started::Waiting { waiting, .. } ==> waiting.wf()
    }

    fn done(reply: Reply) -> (r: Started)
        ensures
            r.wf(),
            forall|cwd: Seq<char>| #[trigger]
                r.model(cwd) == (Begun::Finished { cwd, reply: reply.model() }),
    {
        Started::Finished { cwd: None, reply }
    }
}

/// The text that bytes stand for, where malformed sequences are replaced.
pub uninterp spec fn lossy_text(bytes: Seq<u8>) -> Seq<char>;

/// Decodes UTF-8 with `String::from_utf8_lossy`: the text depends on the bytes
/// alone. Which replacement stands for which malformed sequence is not stated.
#[verifier::external_body]
fn decode_lossy(bytes: &Vec<u8>) -> (r: String)
    ensures
        r@ == lossy_text(bytes@),
{
    String::from_utf8_lossy(bytes).into_owned()
}

impl ShellView {
    /// The executor at its start.
    pub open spec fn initial() -> ShellView {
        ShellView { cwd: "/work"@, environment: Seq::empty(), last_status: 0 }
    }
}

impl Default for Toolbox {
    fn default() -> (r: Toolbox)
        ensures
            r@ == ShellView::initial(),
    {
        let r = Toolbox { cwd: "/work".to_owned(), environment: Vec::new(), last_status: 0 };
        assert(r@.environment =~= Seq::<(Seq<char>, Seq<char>)>::empty());
        r
    }
}

impl Toolbox {
    /// Starts a script of simple commands joined by `;`, `&&`, or `||`.
    pub fn execute_cli(&self, script: &str) -> (r: Execution)
        ensures
            r.wf(),
            r@ == RunView::start(script@),
    {
        if byte_len(script) > MAX_SCRIPT_BYTES {
            return Execution::refused("toolbox: script exceeds 64 KiB limit\n".to_owned());
        }
        let commands = match parse(script) {
            Ok(commands) => commands,
            Err(error) => {
                return Execution::refused(concat3("toolbox: ", error.message(), "\n"));
            },
        };
        if commands.len() > MAX_NODES {
            return Execution::refused("toolbox: AST node limit exceeded\n".to_owned());
        }
        let r = Execution {
            commands,
            next: 0,
            previous: 0,
            stdout: String::new(),
            stderr: String::new(),
            waiting: Waiting::No,
        };
        assert(r.stdout@ =~= Seq::<char>::empty());
        assert(r.stderr@ =~= Seq::<char>::empty());
        r
    }

    /// Goes on to the next command of a script.
    pub fn next(&mut self, fs: &CapFs, run: &mut Execution) -> (r: ShellAction)
        requires
            old(run).wf(),
            old(run)@.waiting is No,
        ensures
            final(run).wf(),
            (final(self)@, final(run)@, r@) == old(run)@.stepped(old(self)@, fs@),
    {
        if run.next >= run.commands.len() {
            return ShellAction::Done;
        }
        let command = &run.commands[run.next];
        assert(commands_of(run.commands@)[run.next as int] == command@);
        let due = match command.join {
            Join::Always => true,
            Join::And => run.previous == 0,
            Join::Or => run.previous != 0,
        };
        if !due {
            run.next = run.next + 1;
            return ShellAction::Nothing;
        }
        let words = self.expand_all(&command.words);
        let started = self.command(fs, words);
        run.next = run.next + 1;
        self.settle(run, started)
    }

    /// Goes on with the command that waits for an operation, by its outcome.
    pub fn resume(&mut self, run: &mut Execution, event: ShellEvent) -> (r: ShellAction)
        requires
            old(run).wf(),
            old(run)@.awaits(event),
        ensures
            final(run).wf(),
            (final(self)@, final(run)@, r@) == old(run)@.settled(
                old(self)@,
                old(self)@.resumed(old(run)@.waiting, event),
            ),
    {
        let mut waiting = Waiting::No;
        std::mem::swap(&mut waiting, &mut run.waiting);
        let started = match (waiting, event) {
            (Waiting::Directory { path }, ShellEvent::Stat(found)) => {
                let is_directory = match found {
                    Ok(stat) => stat.descriptor_type == DescriptorType::Directory,
                    Err(_) => false,
                };
                if is_directory {
                    let reply = Reply::ok(String::new());
                    assert(reply.out@ =~= Seq::<char>::empty());
                    Started::Finished { cwd: Some(path), reply }
                } else {
                    Started::done(Reply::fail("cd: not a directory"))
                }
            },
            (Waiting::Files { paths, next, out }, ShellEvent::Text(read)) => {
                match read {
                    Ok(text) => {
                        assert(next < paths.len());
                        let mut longer = out;
                        append_within(&mut longer, text.as_str(), MAX_OUTPUT_BYTES);
                        self.cat(paths, next + 1, longer)
                    },
                    Err(e) => {
                        let report = concat2("cat: ", e.as_str());
                        Started::done(Reply::fail(report.as_str()))
                    },
                }
            },
            (Waiting::Effect, ShellEvent::Effect(Err(e))) => {
                let shown = e.debug_text();
                let report = concat2("filesystem error: ", shown.as_str());
                Started::done(Reply::fail(report.as_str()))
            },
            _ => {
                let reply = Reply::ok(String::new());
                assert(reply.out@ =~= Seq::<char>::empty());
                Started::done(reply)
            },
        };
        self.settle(run, started)
    }

    /// Goes on with a command that waits for a file, by its bytes or by why it
    /// could not be read.
    pub fn file_read(&mut self, run: &mut Execution, reply: Result<Vec<u8>, String>) -> (r:
        ShellAction)
        requires
            old(run).wf(),
            old(run)@.waiting is Files,
        ensures
            final(run).wf(),
            (final(self)@, final(run)@, r@) == old(run)@.settled(
                old(self)@,
                old(self)@.file_resumed(
                    old(run)@.waiting,
                    match reply {
                        Ok(bytes) => Ok::<_, Seq<char>>(lossy_text(bytes@)),
                        Err(e) => Err(e@),
                    },
                ),
            ),
    {
        let text = match reply {
            Ok(bytes) => Ok(decode_lossy(&bytes)),
            Err(e) => Err(e),
        };
        self.resume(run, ShellEvent::Text(text))
    }

    fn settle(&mut self, run: &mut Execution, started: Started) -> (r: ShellAction)
        requires
            old(run).next <= old(run).commands@.len(),
            started.wf(),
        ensures
            final(run).wf(),
            (final(self)@, final(run)@, r@) == old(run)@.settled(
                old(self)@,
                started.model(old(self)@.cwd),
            ),
    {
        match started {
            Started::Finished { cwd, reply } => {
                if let Some(path) = cwd {
                    self.cwd = path;
                }
                self.last_status = reply.status;
                run.previous = reply.status;
                append_within(&mut run.stdout, reply.out.as_str(), MAX_OUTPUT_BYTES);
                append_within(&mut run.stderr, reply.err.as_str(), MAX_OUTPUT_BYTES);
                run.waiting = Waiting::No;
                ShellAction::Nothing
            },
            Started::Waiting { waiting, action } => {
                run.waiting = waiting;
                action
            },
        }
    }

    fn command(&self, fs: &CapFs, words: Vec<String>) -> (r: Started)
        ensures
            r.wf(),
            r.model(self@.cwd) == self@.begun(fs@, texts(words@)),
    {
        if words.len() == 0 {
            let reply = Reply::ok(String::new());
            assert(reply.out@ =~= Seq::<char>::empty());
            return Started::done(reply);
        }
        let name = words[0].as_str();
        assert(texts(words@)[0] == name@);
        if same_text(name, "true") {
            let reply = Reply::ok(String::new());
            assert(reply.out@ =~= Seq::<char>::empty());
            Started::done(reply)
        } else if same_text(name, "false") {
            let reply = Reply { status: 1, out: String::new(), err: String::new() };
            assert(reply.out@ =~= Seq::<char>::empty());
            assert(reply.err@ =~= Seq::<char>::empty());
            Started::done(reply)
        } else if same_text(name, "echo") {
            let line = join_from(&words, 1, " ");
            Started::done(Reply::ok(concat2(line.as_str(), "\n")))
        } else if same_text(name, "printf") {
            Started::done(Reply::ok(join_from(&words, 1, "")))
        } else if same_text(name, "pwd") {
            Started::done(Reply::ok(concat2(self.cwd.as_str(), "\n")))
        } else if same_text(name, "cd") {
            let path = if words.len() > 1 {
                words[1].as_str()
            } else {
                "/work"
            };
            self.change_directory(fs, path)
        } else if same_text(name, "cat") {
            let mut paths: Vec<String> = Vec::new();
            let mut i: usize = 1;
            while i < words.len()
                invariant
                    1 <= i <= words@.len(),
                    texts(paths@) == texts(words@).subrange(1, i as int),
                decreases words@.len() - i,
            {
                let ghost before = texts(paths@);
                paths.push(words[i].clone());
                assert(texts(paths@) =~= before.push(texts(words@)[i as int]));
                assert(texts(paths@) =~= texts(words@).subrange(1, i + 1));
                i += 1;
            }
            assert(texts(paths@) =~= texts(words@).skip(1));
            let out = String::new();
            assert(out@ =~= Seq::<char>::empty());
            self.cat(paths, 0, out)
        } else if same_text(name, "touch") {
            self.change(fs, &words, "touch: missing file", Change::Create)
        } else if same_text(name, "mkdir") {
            self.change(fs, &words, "mkdir: missing directory", Change::MakeDirectory)
        } else if same_text(name, "rm") {
            self.change(fs, &words, "rm: missing file", Change::Unlink)
        } else {
            let reply = Reply {
                status: 127,
                out: String::new(),
                err: concat2(name, ": command not found\n"),
            };
            assert(reply.out@ =~= Seq::<char>::empty());
            Started::done(reply)
        }
    }

    fn change_directory(&self, fs: &CapFs, path: &str) -> (r: Started)
        ensures
            r.wf(),
            r.model(self@.cwd) == begun_cd(fs@, self@.cwd, path@),
    {
        let full = match self.path(path) {
            Ok(full) => full,
            Err(e) => return Started::done(Reply::fail(e)),
        };
        if fs.mount_by_guest_path(full.as_str()).is_some() {
            let reply = Reply::ok(String::new());
            assert(reply.out@ =~= Seq::<char>::empty());
            return Started::Finished { cwd: Some(full), reply };
        }
        match self.mounted_path(fs, full.as_str()) {
            Ok((fd, rest)) => Started::Waiting {
                waiting: Waiting::Directory { path: full },
                action: ShellAction::Stat { fd, path: rest },
            },
            Err(_) => Started::done(Reply::fail("cd: not a directory")),
        }
    }

    fn cat(&self, paths: Vec<String>, next: usize, out: String) -> (r: Started)
        ensures
            r.wf(),
            r.model(self@.cwd) == begun_cat(self@.cwd, texts(paths@), next as nat, out@),
    {
        if next >= paths.len() {
            return Started::done(Reply::ok(out));
        }
        assert(texts(paths@)[next as int] == paths@[next as int]@);
        match self.path(paths[next].as_str()) {
            Ok(full) => Started::Waiting {
                waiting: Waiting::Files { paths, next, out },
                action: ShellAction::Read { path: full },
            },
            Err(e) => {
                let report = concat2("cat: ", e);
                Started::done(Reply::fail(report.as_str()))
            },
        }
    }

    fn change(&self, fs: &CapFs, words: &Vec<String>, missing: &str, change: Change) -> (r: Started)
        ensures
            r.wf(),
            r.model(self@.cwd) == begun_change(fs@, self@.cwd, texts(words@), missing@, change),
    {
        if words.len() < 2 {
            return Started::done(Reply::fail(missing));
        }
        assert(texts(words@)[1] == words@[1]@);
        match self.mounted_path(fs, words[1].as_str()) {
            Ok((fd, path)) => {
                let action = match change {
                    Change::Create => ShellAction::Create { fd, path },
                    Change::MakeDirectory => ShellAction::MakeDirectory { fd, path },
                    Change::Unlink => ShellAction::Unlink { fd, path },
                };
                Started::Waiting { waiting: Waiting::Effect, action }
            },
            Err(e) => Started::done(Reply::fail(e)),
        }
    }

    /// A word with its variables replaced.
    pub fn expand(&self, word: &str) -> (r: String)
        ensures
            r@ == self@.expanded(word@),
    {
        let status = signed_decimal_text(self.last_status);
        let mut value = replace_text(word, "$?", status.as_str());
        let ghost start = value@;
        let ghost env = self@.environment;
        let mut i: usize = 0;
        assert(env.take(0) =~= Seq::<(Seq<char>, Seq<char>)>::empty());
        while i < self.environment.len()
            invariant
                0 <= i <= self.environment@.len(),
                env == self@.environment,
                env.len() == self.environment@.len(),
                value@ == substituted(start, env.take(i as int)),
            decreases self.environment@.len() - i,
        {
            let name = concat2("$", self.environment[i].0.as_str());
            proof {
                assert(env.take(i + 1).drop_last() =~= env.take(i as int));
                assert(env.take(i + 1).last() == env[i as int]);
                assert(env[i as int] == (
                    self.environment@[i as int].0@,
                    self.environment@[i as int].1@,
                ));
            }
            value = replace_text(value.as_str(), name.as_str(), self.environment[i].1.as_str());
            i += 1;
        }
        assert(env.take(i as int) =~= env);
        value
    }

    fn expand_all(&self, words: &Vec<String>) -> (r: Vec<String>)
        ensures
            texts(r@) == self@.expanded_words(texts(words@)),
    {
        let mut r: Vec<String> = Vec::new();
        let mut i: usize = 0;
        while i < words.len()
            invariant
                0 <= i <= words@.len(),
                texts(r@) == self@.expanded_words(texts(words@)).take(i as int),
            decreases words@.len() - i,
        {
            let word = self.expand(words[i].as_str());
            let ghost before = texts(r@);
            r.push(word);
            assert(texts(r@) =~= before.push(word@));
            assert(texts(r@) =~= self@.expanded_words(texts(words@)).take(i + 1));
            i += 1;
        }
        assert(self@.expanded_words(texts(words@)).take(i as int) =~= self@.expanded_words(
            texts(words@),
        ));
        r
    }

    /// The guest path that a path stands for.
    fn path(&self, path: &str) -> (r: Result<String, &'static str>)
        ensures
            match absolute(self@.cwd, path@) {
                Some(full) => r matches Ok(s) && s@ == full,
                None => r matches Err(e) && e@ == "invalid path"@,
            },
    {
        let full = if starts_with_text(path, "/") {
            path.to_owned()
        } else {
            concat3(self.cwd.as_str(), "/", path)
        };
        if contains_text(full.as_str(), "..") || contains_char(full.as_str(), '\\')
            || contains_char(full.as_str(), '\0') {
            Err("invalid path")
        } else {
            Ok(full)
        }
    }

    /// The mount point and the path below it that a path stands for.
    fn split_path(&self, path: &str) -> (r: Result<(String, String), &'static str>)
        ensures
            match located(self@.cwd, path@) {
                Ok((root, rest)) => r matches Ok(parts) && parts.0@ == root && parts.1@ == rest,
                Err(error) => r matches Err(e) && e@ == error,
            },
    {
        let full = match self.path(path) {
            Ok(full) => full,
            Err(e) => return Err(e),
        };
        let trimmed = trim_start_text(full.as_str(), '/');
        match split_once_text(trimmed.as_str(), '/') {
            Some((root, rest)) => Ok((concat2("/", root.as_str()), rest)),
            None => Err("path must name a file"),
        }
    }

    /// The mounted directory and the path below it that a path stands for.
    fn mounted_path(&self, fs: &CapFs, path: &str) -> (r: Result<(u32, String), &'static str>)
        ensures
            match mounted_path(fs@, self@.cwd, path@) {
                Ok((fd, rest)) => r matches Ok(parts) && parts.0 == fd && parts.1@ == rest,
                Err(error) => r matches Err(e) && e@ == error,
            },
    {
        let (root, rest) = match self.split_path(path) {
            Ok(parts) => parts,
            Err(e) => return Err(e),
        };
        match fs.mount_by_guest_path(root.as_str()) {
            Some(fd) => Ok((fd, rest)),
            None => Err("unmounted path"),
        }
    }
}

} // verus!
