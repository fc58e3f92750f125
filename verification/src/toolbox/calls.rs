//! What the calls of an executor yield.
use vstd::prelude::*;

use super::laws::{is_builtin, law_unknown_commands_are_not_run};
use super::outcomes::{grew_by, law_changing_commands, law_changing_the_directory};
use super::outcomes::{law_files_are_printed_together, law_output_is_added, law_printing_commands};
use super::outcomes::{law_changes_are_answered, law_directories_are_entered};
use super::outcomes::law_scripts_start_or_are_refused;
use super::parse::{commands_of, parse, tokens_of};
use super::parse::{Command, ParseError, Token};
use super::{absolute, appended, lossy_text, mounted_path, Execution, ShellAction, ShellEvent};
use super::{RunView, ShellView, Toolbox, WaitingView};
use crate::cap_fs::CapFs;
use crate::error::debug_of;
use crate::sandbox::ExecutionResult;
use crate::text::{join, replace_all, signed_decimal, utf8_len};
use vstd::utf8::encode_utf8;

verus! {

/// Whether `after` is `before` with something after it, or just `before`.
pub open spec fn kept(before: Seq<char>, after: Seq<char>) -> bool {
    before.len() <= after.len() && after.take(before.len() as int) == before
}

proof fn lemma_kept(before: Seq<char>, added: Seq<char>)
    ensures
        kept(before, appended(before, added)),
        added.len() == 0 ==> appended(before, added) == before,
{
    law_output_is_added(before, added);
    let after = appended(before, added);
    let k = choose|k: int|
        {
            &&& 0 <= k <= added.len()
            &&& after == before + #[trigger] added.take(k)
            &&& k < added.len() ==> utf8_len(before + added.take(k + 1)) > 1_048_576
            &&& k > 0 ==> utf8_len(after) <= 1_048_576
        };
    assert(after.take(before.len() as int) =~= before);
    if added.len() == 0 {
        assert(after =~= before);
    }
}

/// Whatever a script does next, all that it printed and all that it reported
/// stays; so do its commands and the variables.
pub proof fn law_nothing_printed_is_lost(
    stepping: &mut Toolbox,
    fs: CapFs,
    stepped: &mut Execution,
    step: ShellAction,
    resuming: &mut Toolbox,
    resumed: &mut Execution,
    event: ShellEvent,
    after: ShellAction,
    reading: &mut Toolbox,
    read: &mut Execution,
    reply: Result<Vec<u8>, String>,
    following: ShellAction,
)
    requires
        call_ensures(Toolbox::next, (stepping, &fs, stepped), step),
        call_ensures(Toolbox::resume, (resuming, resumed, event), after),
        call_ensures(Toolbox::file_read, (reading, read, reply), following),
    ensures
        kept(old(stepped)@.stdout, final(stepped)@.stdout),
        kept(old(stepped)@.stderr, final(stepped)@.stderr),
        kept(old(resumed)@.stdout, final(resumed)@.stdout),
        kept(old(resumed)@.stderr, final(resumed)@.stderr),
        kept(old(read)@.stdout, final(read)@.stdout),
        kept(old(read)@.stderr, final(read)@.stderr),
        final(stepped)@.commands == old(stepped)@.commands,
        final(resumed)@.commands == old(resumed)@.commands,
        final(read)@.commands == old(read)@.commands,
        final(resumed)@.next == old(resumed)@.next,
        final(read)@.next == old(read)@.next,
        final(stepping)@.environment == old(stepping)@.environment,
        final(resuming)@.environment == old(resuming)@.environment,
        final(reading)@.environment == old(reading)@.environment,
{
    assert forall|before: Seq<char>, added: Seq<char>| #[trigger]
        kept(before, appended(before, added)) by {
        lemma_kept(before, added);
    }
    assert(old(stepped)@.stdout.take(old(stepped)@.stdout.len() as int) =~= old(stepped)@.stdout);
    assert(old(stepped)@.stderr.take(old(stepped)@.stderr.len() as int) =~= old(stepped)@.stderr);
    assert(old(resumed)@.stdout.take(old(resumed)@.stdout.len() as int) =~= old(resumed)@.stdout);
    assert(old(resumed)@.stderr.take(old(resumed)@.stderr.len() as int) =~= old(resumed)@.stderr);
    assert(old(read)@.stdout.take(old(read)@.stdout.len() as int) =~= old(read)@.stdout);
    assert(old(read)@.stderr.take(old(read)@.stderr.len() as int) =~= old(read)@.stderr);
}

/// Going on with a script takes up the next of its commands, until none is left.
/// One after `&&` is passed over where the one before it failed, and one after
/// `||` where it succeeded; passing over a command changes nothing.
pub proof fn law_commands_are_taken_up(
    shell: &mut Toolbox,
    fs: CapFs,
    run: &mut Execution,
    action: ShellAction,
)
    requires
        call_ensures(Toolbox::next, (shell, &fs, run), action),
    ensures
        ({
            let before = old(run)@;
            let after = final(run)@;
            let command = before.commands[before.next as int];
            let failed = before.previous != 0;
            &&& before.next >= before.commands.len() ==> {
                &&& action is Done
                &&& after == before
                &&& final(shell)@ == old(shell)@
            }
            &&& before.next < before.commands.len() ==> {
                &&& after.next == before.next + 1
                &&& !(action is Done)
                &&& (command.join is And && failed) || (command.join is Or && !failed) ==> {
                    &&& action is Nothing
                    &&& after.stdout == before.stdout
                    &&& after.stderr == before.stderr
                    &&& after.previous == before.previous
                    &&& after.waiting == before.waiting
                    &&& final(shell)@ == old(shell)@
                }
            }
        }),
{
}

/// Whether a command that ran at once left the executor in its directory, has the
/// given status, and added the given output and report.
pub open spec fn ran(
    before: (ShellView, RunView),
    after: (ShellView, RunView),
    status: i32,
    out: Seq<char>,
    err: Seq<char>,
) -> bool {
    &&& after.0.cwd == before.0.cwd
    &&& after.0.last_status == status
    &&& after.1.previous == status
    &&& after.1.waiting is No
    &&& grew_by(before.1.stdout, out, after.1.stdout)
    &&& grew_by(before.1.stderr, err, after.1.stderr)
    &&& out.len() == 0 ==> after.1.stdout == before.1.stdout
    &&& err.len() == 0 ==> after.1.stderr == before.1.stderr
}

/// Whether the next command of a script runs after the one before it, and stands
/// for the given words once it is expanded.
pub open spec fn due(
    shell: ShellView,
    run: RunView,
    words: Seq<Seq<char>>,
) -> bool {
    let command = run.commands[run.next as int];
    &&& run.next < run.commands.len()
    &&& command.join is Always || (command.join is And <==> run.previous == 0)
    &&& shell.expanded_words(command.words) == words
}

/// What the commands that only print add to the output of the script.
pub proof fn law_commands_print(
    shell: &mut Toolbox,
    fs: CapFs,
    run: &mut Execution,
    action: ShellAction,
    args: Seq<Seq<char>>,
    name: Seq<char>,
)
    requires
        call_ensures(Toolbox::next, (shell, &fs, run), action),
        !is_builtin(name),
    ensures
        ({
            let before = (old(shell)@, old(run)@);
            let after = (final(shell)@, final(run)@);
            let none = Seq::<char>::empty();
            &&& due(before.0, before.1, seq!["true"@] + args) ==> ran(before, after, 0, none, none)
                && action is Nothing
            &&& due(before.0, before.1, seq!["false"@] + args) ==> ran(
                before,
                after,
                1,
                none,
                none,
            ) && action is Nothing
            &&& due(before.0, before.1, seq!["echo"@] + args) ==> ran(
                before,
                after,
                0,
                join(args, " "@) + "\n"@,
                none,
            ) && action is Nothing
            &&& due(before.0, before.1, seq!["printf"@] + args) ==> ran(
                before,
                after,
                0,
                join(args, ""@),
                none,
            ) && action is Nothing
            &&& due(before.0, before.1, seq!["pwd"@] + args) ==> ran(
                before,
                after,
                0,
                before.0.cwd + "\n"@,
                none,
            ) && action is Nothing
            &&& due(before.0, before.1, seq![name] + args) ==> ran(
                before,
                after,
                127,
                none,
                name + ": command not found\n"@,
            ) && action is Nothing
        }),
{
    law_printing_commands(old(shell)@, fs@, args);
    law_unknown_commands_are_not_run(old(shell)@, fs@, seq![name] + args);
    lemma_all_added();
    assert((seq!["echo"@] + args).skip(1) =~= args);
    assert((seq!["printf"@] + args).skip(1) =~= args);
}

proof fn lemma_all_added()
    ensures
        forall|before: Seq<char>, added: Seq<char>|
            {
                let after = #[trigger] appended(before, added);
                &&& grew_by(before, added, after)
                &&& added.len() == 0 ==> after == before
            },
{
    assert forall|before: Seq<char>, added: Seq<char>|
        {
            let after = #[trigger] appended(before, added);
            &&& grew_by(before, added, after)
            &&& added.len() == 0 ==> after == before
        } by {
        law_output_is_added(before, added);
        lemma_kept(before, added);
    }
}

/// What the commands that change the filesystem ask for: the operation, on the
/// mount that the path leads to and at the path below it. Where it leads
/// nowhere they fail with a report.
pub proof fn law_commands_ask_for_changes(
    shell: &mut Toolbox,
    fs: CapFs,
    run: &mut Execution,
    action: ShellAction,
    path: Seq<char>,
    more: Seq<Seq<char>>,
)
    requires
        call_ensures(Toolbox::next, (shell, &fs, run), action),
    ensures
        ({
            let before = (old(shell)@, old(run)@);
            let after = (final(shell)@, final(run)@);
            let touch = due(before.0, before.1, seq!["touch"@, path] + more);
            let mkdir = due(before.0, before.1, seq!["mkdir"@, path] + more);
            let rm = due(before.0, before.1, seq!["rm"@, path] + more);
            match mounted_path(fs@, before.0.cwd, path) {
                Ok((fd, below)) => {
                    &&& touch ==> action@ == (ShellAction::Create { fd, path: below })
                    &&& mkdir ==> action@ == (ShellAction::MakeDirectory { fd, path: below })
                    &&& rm ==> action@ == (ShellAction::Unlink { fd, path: below })
                    &&& touch || mkdir || rm ==> {
                        &&& after.1.waiting is Effect
                        &&& after.1.stdout == before.1.stdout
                        &&& after.1.stderr == before.1.stderr
                        &&& after.1.previous == before.1.previous
                        &&& after.0 == before.0
                    }
                },
                Err(e) => touch || mkdir || rm ==> action is Nothing && ran(
                    before,
                    after,
                    1,
                    Seq::empty(),
                    "toolbox: "@ + e + "\n"@,
                ),
            }
        }),
{
    law_changing_commands(old(shell)@, fs@, path, more);
    lemma_all_added();
}

/// `cd` asks whether a path is a directory, unless something is mounted there,
/// and the answer decides whether the executor goes there.
pub proof fn law_directories_are_changed(
    shell: &mut Toolbox,
    fs: CapFs,
    run: &mut Execution,
    action: ShellAction,
    path: Seq<char>,
    more: Seq<Seq<char>>,
    answered: &mut Toolbox,
    waiting: &mut Execution,
    event: ShellEvent,
    next: ShellAction,
    target: Seq<char>,
)
    requires
        call_ensures(Toolbox::next, (shell, &fs, run), action),
        call_ensures(Toolbox::resume, (answered, waiting, event), next),
    ensures
        ({
            let before = (old(shell)@, old(run)@);
            let after = (final(shell)@, final(run)@);
            due(before.0, before.1, seq!["cd"@, path] + more) ==> match absolute(
                before.0.cwd,
                path,
            ) {
                None => action is Nothing && ran(
                    before,
                    after,
                    1,
                    Seq::empty(),
                    "toolbox: "@ + "invalid path"@ + "\n"@,
                ),
                Some(full) => if fs@.mount_at(full) is Some {
                    action is Nothing && after.0.cwd == full && after.1.previous == 0
                        && after.1.stdout == before.1.stdout && after.1.stderr == before.1.stderr
                } else {
                    mounted_path(fs@, before.0.cwd, full) matches Ok((fd, below)) ==> {
                        &&& action matches ShellAction::Stat { fd: f, path: p }
                        &&& f == fd
                        &&& p@ == below
                        &&& after.1.waiting == (WaitingView::Directory { path: full })
                        &&& after.0 == before.0
                    }
                },
            }
        }),
        ({
            let before = (old(answered)@, old(waiting)@);
            let after = (final(answered)@, final(waiting)@);
            before.1.waiting == (WaitingView::Directory { path: target }) ==> (
            event matches ShellEvent::Stat(found) ==> {
                &&& next is Nothing
                &&& after.1.stdout == before.1.stdout
                &&& if found is Ok && found->Ok_0.descriptor_type is Directory {
                    after.0.cwd == target && after.1.previous == 0 && after.0.last_status == 0
                        && after.1.stderr == before.1.stderr
                } else {
                    ran(
                        before,
                        after,
                        1,
                        Seq::empty(),
                        "toolbox: "@ + "cd: not a directory"@ + "\n"@,
                    )
                }
            })
        }),
{
    law_changing_the_directory(old(shell)@, fs@, path, more);
    law_directories_are_entered(old(answered)@, target, event);
    lemma_all_added();
}

/// A change that was made is a silent success; one that failed is reported with
/// the error of the filesystem.
pub proof fn law_changes_are_reported(
    shell: &mut Toolbox,
    run: &mut Execution,
    event: ShellEvent,
    action: ShellAction,
)
    requires
        old(run)@.waiting is Effect,
        call_ensures(Toolbox::resume, (shell, run, event), action),
    ensures
        ({
            let before = (old(shell)@, old(run)@);
            let after = (final(shell)@, final(run)@);
            event matches ShellEvent::Effect(r) ==> {
                &&& action is Nothing
                &&& match r {
                    Ok(_) => ran(before, after, 0, Seq::empty(), Seq::empty()),
                    Err(e) => ran(
                        before,
                        after,
                        1,
                        Seq::empty(),
                        "toolbox: "@ + ("filesystem error: "@ + debug_of(e@)) + "\n"@,
                    ),
                }
            }
        }),
{
    law_changes_are_answered(old(shell)@, event);
    lemma_all_added();
}

/// `cat` reads its files from the first to the last, and prints what they hold
/// together once all are read; the first that cannot be read ends it with a
/// report.
pub proof fn law_files_are_read_in_turn(
    shell: &mut Toolbox,
    run: &mut Execution,
    reply: Result<Vec<u8>, String>,
    action: ShellAction,
    paths: Seq<Seq<char>>,
    at: nat,
    out: Seq<char>,
    text: Seq<char>,
)
    requires
        at < paths.len(),
        old(run)@.waiting == (WaitingView::Files { paths, next: at, out }),
        call_ensures(Toolbox::file_read, (shell, run, reply), action),
        reply matches Ok(bytes) ==> text == lossy_text(bytes@),
    ensures
        ({
            let before = (old(shell)@, old(run)@);
            let after = (final(shell)@, final(run)@);
            match reply {
                Err(e) => action is Nothing && ran(
                    before,
                    after,
                    1,
                    Seq::empty(),
                    "toolbox: "@ + ("cat: "@ + e@) + "\n"@,
                ),
                Ok(_) => if at + 1 == paths.len() {
                    &&& action is Nothing
                    &&& utf8_len(out) + utf8_len(text) <= 1_048_576 ==> ran(
                        before,
                        after,
                        0,
                        out + text,
                        Seq::empty(),
                    )
                } else {
                    absolute(before.0.cwd, paths[at as int + 1]) matches Some(full) ==> {
                        &&& action matches ShellAction::Read { path }
                        &&& path@ == full
                        &&& utf8_len(out) + utf8_len(text) <= 1_048_576 ==> after.1.waiting == (
                        WaitingView::Files { paths, next: at + 1, out: out + text })
                        &&& after.1.stdout == before.1.stdout
                        &&& after.1.stderr == before.1.stderr
                        &&& after.0 == before.0
                    }
                },
            }
        }),
{
    let read = match reply {
        Ok(_) => Ok::<_, Seq<char>>(text),
        Err(e) => Err(e@),
    };
    law_files_are_printed_together(old(shell)@, arbitrary(), paths, at, out, read);
    lemma_all_added();
}

/// A script starts with the commands that it holds, and what it yields in the
/// end is what it printed and reported, with the status of its last command.
pub proof fn law_scripts_are_started_and_finished(
    shell: Toolbox,
    script: &str,
    started: Execution,
    parsed: Result<Vec<Command>, ParseError>,
    run: Execution,
    result: ExecutionResult,
    i: int,
    j: int,
)
    requires
        call_ensures(Toolbox::execute_cli, (&shell, script), started),
        call_ensures(parse, (script,), parsed),
        call_ensures(Execution::finish, (run,), result),
    ensures
        result.stdout@ == run@.stdout,
        result.stderr@ == run@.stderr,
        result.exit_code == run@.previous,
        started@.next == 0,
        started@.stdout.len() == 0,
        started@.waiting is No,
        encode_utf8(script@).len() <= 65_536 && parsed is Ok && parsed->Ok_0@.len() <= 10_000 ==> {
            let commands = parsed->Ok_0@;
            &&& started@.previous == 0
            &&& started@.stderr.len() == 0
            &&& started@.commands.len() == commands.len()
            &&& 0 <= i < commands.len() ==> {
                &&& started@.commands[i].join == commands[i].join
                &&& started@.commands[i].words.len() == commands[i].words@.len()
                &&& 0 <= j < commands[i].words@.len() ==> started@.commands[i].words[j]
                    == commands[i].words@[j]@
            }
        },
        encode_utf8(script@).len() > 65_536 || parsed is Err || parsed->Ok_0@.len() > 10_000 ==> {
            &&& started@.previous == 2
            &&& started@.commands.len() == 0
            &&& started@.stderr.len() > 0
        },
{
    law_scripts_start_or_are_refused(script@);
    reveal_strlit("toolbox: script exceeds 64 KiB limit\n");
    reveal_strlit("toolbox: AST node limit exceeded\n");
    reveal_strlit("toolbox: ");
}

/// A word is expanded by the status of the last command and by the variables;
/// without variables, by the status alone.
pub proof fn law_expansion(shell: Toolbox, word: &str, expanded: String)
    requires
        call_ensures(Toolbox::expand, (&shell, word), expanded),
    ensures
        shell@.environment.len() == 0 ==> expanded@ == replace_all(
            word@,
            "$?"@,
            signed_decimal(shell@.last_status as int),
        ),
{
}

/// An operation, a token and a command are seen as what they are.
pub proof fn law_operations_are_seen_as_they_are(
    action: ShellAction,
    token: Token,
    command: Command,
    commands: Seq<Command>,
    tokens: Seq<Token>,
    i: int,
)
    ensures
        match action {
            ShellAction::Nothing => action@ is Nothing,
            ShellAction::Done => action@ is Done,
            ShellAction::Stat { fd, path } => action@ matches ShellAction::Stat { fd: f, path: p }
                && f == fd && p == path@,
            ShellAction::Read { path } => action@ matches ShellAction::Read { path: p } && p
                == path@,
            ShellAction::Create { fd, path } => action@ matches ShellAction::Create {
                fd: f,
                path: p,
            } && f == fd && p == path@,
            ShellAction::MakeDirectory { fd, path } => {
                action@ matches ShellAction::MakeDirectory { fd: f, path: p } && f == fd && p
                    == path@
            },
            ShellAction::Unlink { fd, path } => action@ matches ShellAction::Unlink {
                fd: f,
                path: p,
            } && f == fd && p == path@,
        },
        match token {
            Token::Word(word) => token@ == Token::Word(word@),
            Token::Semicolon => token@ is Semicolon,
            Token::Operator(join) => token@ == Token::<Seq<char>>::Operator(join),
        },
        command@.join == command.join,
        command@.words.len() == command.words@.len(),
        0 <= i < command.words@.len() ==> command@.words[i] == command.words@[i]@,
        commands_of(commands).len() == commands.len(),
        0 <= i < commands.len() ==> commands_of(commands)[i] == commands[i]@,
        tokens_of(tokens).len() == tokens.len(),
        0 <= i < tokens.len() ==> tokens_of(tokens)[i] == tokens[i]@,
{
}

} // verus!
