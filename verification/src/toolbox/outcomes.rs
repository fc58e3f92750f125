//! What scripts and commands yield.
use vstd::prelude::*;

use super::parse::{finished, grouped, lexed, read_as, script_commands};
use super::parse::{CommandView, Join, ParseError, Token};
use super::{absolute, appended, located, mounted_path};
use super::{Begun, ReplyView, RunView, ShellAction, ShellEvent, ShellView, WaitingView};
use crate::error::debug_of;
use crate::model::FsView;
use crate::text::{join, law_what_fits, lemma_span_until, lemma_utf8_len_concat};
use crate::text::{fitting, law_cutting_once, occurs_in, replace_all, signed_decimal, span_until};
use crate::text::{split_once, trim_start, utf8_len};
use vstd::utf8::{encode_scalar, encode_utf8};

verus! {

/// Whether `after` is `before` and then `added`, cut after as many whole
/// characters as one mebibyte has room for.
pub open spec fn grew_by(before: Seq<char>, added: Seq<char>, after: Seq<char>) -> bool {
    exists|k: int|
        {
            &&& 0 <= k <= added.len()
            &&& after == before + #[trigger] added.take(k)
            &&& k < added.len() ==> utf8_len(before + added.take(k + 1)) > 1_048_576
            &&& k > 0 ==> utf8_len(after) <= 1_048_576
        }
}

/// Adding to the output of a script keeps all that is there, and adds the new
/// text after it, as far as it fits; where it fits whole, it is added whole.
pub proof fn law_output_is_added(before: Seq<char>, added: Seq<char>)
    ensures
        grew_by(before, added, appended(before, added)),
        utf8_len(before) + utf8_len(added) <= 1_048_576 ==> appended(before, added) == before
            + added,
{
    let used = utf8_len(before);
    let after = appended(before, added);
    let k = if used < 1_048_576 {
        fitting(added, (1_048_576 - used) as nat).len() as int
    } else {
        0
    };
    if used < 1_048_576 {
        law_what_fits(added, (1_048_576 - used) as nat);
    } else {
        assert(added.take(0) =~= Seq::<char>::empty());
        assert(before + added.take(0) =~= before);
    }
    assert(after == before + added.take(k));
    lemma_utf8_len_concat(before, added.take(k));
    if k < added.len() {
        lemma_utf8_len_concat(before, added.take(k + 1));
        if used >= 1_048_576 {
            assert(added.take(1)[0] == added[0]);
            assert(added.take(1).len() == 1);
            assert(encode_scalar(added.take(1)[0] as u32).len() >= 1);
        }
        assert(added =~= added.take(k + 1) + added.skip(k + 1));
        lemma_utf8_len_concat(added.take(k + 1), added.skip(k + 1));
    } else {
        assert(added.take(k) =~= added);
    }
}

/// A command that finishes adds its output to that of the script and its errors
/// to those of the script, after all that the commands before it left there.
/// Its status becomes that of the script.
pub proof fn law_output_is_kept(run: RunView, shell: ShellView, cwd: Seq<char>, reply: ReplyView)
    ensures
        ({
            let (after, ran, action) = run.settled(shell, Begun::Finished { cwd, reply });
            &&& grew_by(run.stdout, reply.out, ran.stdout)
            &&& grew_by(run.stderr, reply.err, ran.stderr)
            &&& utf8_len(run.stdout) + utf8_len(reply.out) <= 1_048_576 ==> ran.stdout
                == run.stdout + reply.out
            &&& utf8_len(run.stderr) + utf8_len(reply.err) <= 1_048_576 ==> ran.stderr
                == run.stderr + reply.err
            &&& ran.previous == reply.status
            &&& ran.commands == run.commands
            &&& ran.next == run.next
            &&& ran.waiting is No
            &&& after.cwd == cwd
            &&& after.last_status == reply.status
            &&& after.environment == shell.environment
            &&& action is Nothing
        }),
{
    law_output_is_added(run.stdout, reply.out);
    law_output_is_added(run.stderr, reply.err);
}

/// A command that waits for the filesystem changes nothing but what is waited
/// for, and hands the operation on.
pub proof fn law_waiting_changes_nothing(
    run: RunView,
    shell: ShellView,
    waiting: WaitingView,
    action: ShellAction<Seq<char>>,
)
    ensures
        run.settled(shell, Begun::Waiting { waiting, action }) == (
            shell,
            RunView {
                commands: run.commands,
                next: run.next,
                previous: run.previous,
                stdout: run.stdout,
                stderr: run.stderr,
                waiting,
            },
            action,
        ),
{
}

/// An executor starts in `/work`, with no variables and a status of zero.
pub proof fn law_an_executor_starts_in_work()
    ensures
        ShellView::initial().cwd == "/work"@,
        ShellView::initial().environment.len() == 0,
        ShellView::initial().last_status == 0,
{
}

/// A script runs from its first command on, with nothing printed yet; one that
/// is too long, malformed or has too many commands is refused with status two
/// and a report, and runs nothing.
pub proof fn law_scripts_start_or_are_refused(script: Seq<char>)
    ensures
        ({
            let start = RunView::start(script);
            let parsed = script_commands(script);
            &&& start.next == 0
            &&& start.stdout.len() == 0
            &&& start.waiting is No
            &&& if encode_utf8(script).len() > 65_536 {
                start.commands.len() == 0 && start.previous == 2 && start.stderr
                    == "toolbox: script exceeds 64 KiB limit\n"@
            } else if parsed is Err {
                start.commands.len() == 0 && start.previous == 2 && start.stderr == "toolbox: "@
                    + parsed->Err_0.text() + "\n"@
            } else if parsed->Ok_0.len() > 10_000 {
                start.commands.len() == 0 && start.previous == 2 && start.stderr
                    == "toolbox: AST node limit exceeded\n"@
            } else {
                start.commands == parsed->Ok_0 && start.previous == 0 && start.stderr.len() == 0
            }
        }),
        ParseError::TrailingEscape.text() == "trailing escape"@,
        ParseError::OperatorWithoutCommand.text() == "operator without command"@,
        ParseError::UnterminatedQuote.text() == "unterminated quote"@,
{
}

/// Every word is expanded on its own: `$?` becomes the status of the last
/// command, and while there are no variables nothing else changes.
pub proof fn law_words_are_expanded(shell: ShellView, words: Seq<Seq<char>>, i: int)
    ensures
        shell.expanded_words(words).len() == words.len(),
        0 <= i < words.len() ==> shell.expanded_words(words)[i] == shell.expanded(words[i]),
        0 <= i < words.len() && shell.environment.len() == 0 ==> shell.expanded(words[i])
            == replace_all(words[i], "$?"@, signed_decimal(shell.last_status as int)),
{
}

/// A variable stands for its value: after the last of them is set, every
/// occurrence of its name after a dollar sign is replaced in what the others
/// leave.
pub proof fn law_variables_are_replaced(
    shell: ShellView,
    name: Seq<char>,
    value: Seq<char>,
    word: Seq<char>,
)
    ensures
        ({
            let more = ShellView { environment: shell.environment.push((name, value)), ..shell };
            more.expanded(word) == replace_all(shell.expanded(word), "$"@ + name, value)
        }),
{
    assert(shell.environment.push((name, value)).drop_last() =~= shell.environment);
}

/// Whether a command finished at once, without leaving its directory.
pub open spec fn yields(
    begun: Begun,
    shell: ShellView,
    status: i32,
    out: Seq<char>,
    err: Seq<char>,
) -> bool {
    begun matches Begun::Finished { cwd, reply } && cwd == shell.cwd && reply.status == status
        && reply.out == out && reply.err == err
}

/// The commands that only print: `true` and an empty command succeed silently,
/// `false` fails silently, `echo` prints its arguments with a blank between
/// neighbours and a line end, `printf` prints them without either, and `pwd`
/// prints the directory that the executor is in.
pub proof fn law_printing_commands(shell: ShellView, fs: FsView, args: Seq<Seq<char>>)
    ensures
        yields(shell.begun(fs, Seq::empty()), shell, 0, Seq::empty(), Seq::empty()),
        yields(shell.begun(fs, seq!["true"@] + args), shell, 0, Seq::empty(), Seq::empty()),
        yields(shell.begun(fs, seq!["false"@] + args), shell, 1, Seq::empty(), Seq::empty()),
        yields(
            shell.begun(fs, seq!["echo"@] + args),
            shell,
            0,
            join(args, " "@) + "\n"@,
            Seq::empty(),
        ),
        yields(
            shell.begun(fs, seq!["printf"@] + args),
            shell,
            0,
            join(args, ""@),
            Seq::empty(),
        ),
        yields(shell.begun(fs, seq!["pwd"@] + args), shell, 0, shell.cwd + "\n"@, Seq::empty()),
{
    lemma_names_differ();
    assert((seq!["echo"@] + args).skip(1) =~= args);
    assert((seq!["printf"@] + args).skip(1) =~= args);
}

/// The names of the built-in commands are all different.
proof fn lemma_names_differ()
    ensures
        "true"@ != "false"@,
        "echo"@ != "true"@ && "echo"@ != "false"@,
        "printf"@ != "true"@ && "printf"@ != "false"@ && "printf"@ != "echo"@,
        "pwd"@ != "true"@ && "pwd"@ != "false"@ && "pwd"@ != "echo"@ && "pwd"@ != "printf"@,
        "cd"@ != "true"@ && "cd"@ != "false"@ && "cd"@ != "echo"@ && "cd"@ != "printf"@ && "cd"@
            != "pwd"@,
        "cat"@ != "true"@ && "cat"@ != "false"@ && "cat"@ != "echo"@ && "cat"@ != "printf"@
            && "cat"@ != "pwd"@ && "cat"@ != "cd"@,
        "touch"@ != "true"@ && "touch"@ != "false"@ && "touch"@ != "echo"@ && "touch"@ != "printf"@
            && "touch"@ != "pwd"@ && "touch"@ != "cd"@ && "touch"@ != "cat"@,
        "mkdir"@ != "true"@ && "mkdir"@ != "false"@ && "mkdir"@ != "echo"@ && "mkdir"@ != "printf"@
            && "mkdir"@ != "pwd"@ && "mkdir"@ != "cd"@ && "mkdir"@ != "cat"@ && "mkdir"@
            != "touch"@,
        "rm"@ != "true"@ && "rm"@ != "false"@ && "rm"@ != "echo"@ && "rm"@ != "printf"@ && "rm"@
            != "pwd"@ && "rm"@ != "cd"@ && "rm"@ != "cat"@ && "rm"@ != "touch"@ && "rm"@
            != "mkdir"@,
{
    reveal_strlit("true");
    reveal_strlit("false");
    reveal_strlit("echo");
    reveal_strlit("printf");
    reveal_strlit("pwd");
    reveal_strlit("cd");
    reveal_strlit("cat");
    reveal_strlit("touch");
    reveal_strlit("mkdir");
    reveal_strlit("rm");
    assert("true"@.len() == 4);
    assert("false"@.len() == 5);
    assert("echo"@.len() == 4);
    assert("printf"@.len() == 6);
    assert("pwd"@.len() == 3);
    assert("cd"@.len() == 2);
    assert("cat"@.len() == 3);
    assert("touch"@.len() == 5);
    assert("mkdir"@.len() == 5);
    assert("rm"@.len() == 2);
    assert("true"@[0] != "echo"@[0]);
    assert("cd"@[1] != "rm"@[1]);
    assert("cat"@[0] != "pwd"@[0]);
    assert("touch"@[0] != "mkdir"@[0]);
    assert("touch"@[0] != "false"@[0]);
    assert("mkdir"@[0] != "false"@[0]);
}

/// A path stands for itself where it is absolute, and for a path below the
/// current directory otherwise. It is acceptable exactly where neither two dots
/// in a row, nor a backslash, nor a NUL occur in it.
pub proof fn law_paths_are_taken_from_the_current_directory(cwd: Seq<char>, path: Seq<char>)
    ensures
        ({
            let full = if path.len() > 0 && path[0] == '/' {
                path
            } else {
                cwd + "/"@ + path
            };
            match absolute(cwd, path) {
                Some(p) => p == full && !occurs_in(".."@, full) && !full.contains('\\')
                    && !full.contains('\0'),
                None => occurs_in(".."@, full) || full.contains('\\') || full.contains('\0'),
            }
        }),
{
    reveal_strlit("/");
    if path.len() > 0 {
        assert(path.take(1)[0] == path[0]);
        if path[0] == '/' {
            assert(path.take(1) =~= "/"@);
        }
    }
}

/// A path is found below the mount that its first component names: leading
/// slashes count once, and what follows the first component is the path there.
/// One that names nothing below its first component names no file.
pub proof fn law_paths_are_located(
    cwd: Seq<char>,
    path: Seq<char>,
    slashes: Seq<char>,
    root: Seq<char>,
    rest: Seq<char>,
)
    requires
        forall|i: int| 0 <= i < slashes.len() ==> #[trigger] slashes[i] == '/',
        root.len() > 0,
        !root.contains('/'),
    ensures
        absolute(cwd, path) is None ==> located(cwd, path) == Err::<(Seq<char>, Seq<char>), _>(
            "invalid path"@,
        ),
        absolute(cwd, path) == Some(slashes + root + seq!['/'] + rest) ==> located(cwd, path)
            == Ok::<_, Seq<char>>(("/"@ + root, rest)),
        absolute(cwd, path) == Some(slashes + root) ==> located(cwd, path) == Err::<
            (Seq<char>, Seq<char>),
            _,
        >("path must name a file"@),
        absolute(cwd, path) == Some(slashes) ==> located(cwd, path) == Err::<
            (Seq<char>, Seq<char>),
            _,
        >("path must name a file"@),
{
    let tail = root + seq!['/'] + rest;
    assert(slashes + root + seq!['/'] + rest =~= slashes + tail);
    assert(root.contains(root[0]));
    assert(tail[0] == root[0]);
    lemma_trim_run(slashes, tail);
    lemma_trim_run(slashes, root);
    lemma_trim_run(slashes, Seq::empty());
    assert(slashes + Seq::<char>::empty() =~= slashes);
    lemma_span_until(root, '/', rest);
    assert(tail.take(root.len() as int) =~= root);
    assert(tail.skip(root.len() as int + 1) =~= rest);
    law_cutting_once(root, '/');
    if span_until(root, '/') < root.len() {
        let (a, b) = split_once(root, '/')->0;
        assert(root[a.len() as int] == '/');
    }
}

proof fn lemma_trim_run(slashes: Seq<char>, tail: Seq<char>)
    requires
        forall|i: int| 0 <= i < slashes.len() ==> #[trigger] slashes[i] == '/',
        tail.len() > 0 ==> tail[0] != '/',
    ensures
        trim_start(slashes + tail, '/') == tail,
    decreases slashes.len(),
{
    let s = slashes + tail;
    if slashes.len() > 0 {
        assert(s[0] == slashes[0]);
        let shorter = slashes.skip(1);
        assert(s.skip(1) =~= shorter + tail);
        assert forall|i: int| 0 <= i < shorter.len() implies #[trigger] shorter[i] == '/' by {
            assert(shorter[i] == slashes[i + 1]);
        }
        lemma_trim_run(shorter, tail);
    } else {
        assert(s =~= tail);
    }
}

/// A path is reached through the mount at its first component; where nothing is
/// mounted there it is not reached at all.
pub proof fn law_paths_are_reached_through_mounts(fs: FsView, cwd: Seq<char>, path: Seq<char>)
    ensures
        match (located(cwd, path), mounted_path(fs, cwd, path)) {
            (Err(e), r) => r == Err::<(u32, Seq<char>), _>(e),
            (Ok((root, rest)), Ok((fd, below))) => fs.mount_at(root) == Some(fd) && below == rest,
            (Ok((root, _)), Err(e)) => fs.mount_at(root) is None && e == "unmounted path"@,
        },
{
}

/// `touch`, `mkdir` and `rm` ask for a file to be created, a directory to be
/// made and a file to be unlinked, each at what their first argument names.
/// Without an argument, or where it cannot be reached, they fail and ask for
/// nothing.
pub proof fn law_changing_commands(
    shell: ShellView,
    fs: FsView,
    path: Seq<char>,
    more: Seq<Seq<char>>,
)
    ensures
        yields(
            shell.begun(fs, seq!["touch"@]),
            shell,
            1,
            Seq::empty(),
            "toolbox: "@ + "touch: missing file"@ + "\n"@,
        ),
        yields(
            shell.begun(fs, seq!["mkdir"@]),
            shell,
            1,
            Seq::empty(),
            "toolbox: "@ + "mkdir: missing directory"@ + "\n"@,
        ),
        yields(
            shell.begun(fs, seq!["rm"@]),
            shell,
            1,
            Seq::empty(),
            "toolbox: "@ + "rm: missing file"@ + "\n"@,
        ),
        ({
            let touch = shell.begun(fs, seq!["touch"@, path] + more);
            let mkdir = shell.begun(fs, seq!["mkdir"@, path] + more);
            let rm = shell.begun(fs, seq!["rm"@, path] + more);
            match mounted_path(fs, shell.cwd, path) {
                Ok((fd, below)) => {
                    &&& touch == Begun::Waiting {
                        waiting: WaitingView::Effect,
                        action: ShellAction::Create { fd, path: below },
                    }
                    &&& mkdir == Begun::Waiting {
                        waiting: WaitingView::Effect,
                        action: ShellAction::MakeDirectory { fd, path: below },
                    }
                    &&& rm == Begun::Waiting {
                        waiting: WaitingView::Effect,
                        action: ShellAction::Unlink { fd, path: below },
                    }
                },
                Err(e) => {
                    let report = "toolbox: "@ + e + "\n"@;
                    &&& yields(touch, shell, 1, Seq::empty(), report)
                    &&& yields(mkdir, shell, 1, Seq::empty(), report)
                    &&& yields(rm, shell, 1, Seq::empty(), report)
                },
            }
        }),
{
    lemma_names_differ();
    assert((seq!["touch"@, path] + more)[1] == path);
    assert((seq!["mkdir"@, path] + more)[1] == path);
    assert((seq!["rm"@, path] + more)[1] == path);
}

/// A change that was made is a silent success, and one that was not is reported
/// with the error of the filesystem.
pub proof fn law_changes_are_answered(
    shell: ShellView,
    event: ShellEvent,
)
    ensures
        event matches ShellEvent::Effect(Ok(_)) ==> yields(
            shell.resumed(WaitingView::Effect, event),
            shell,
            0,
            Seq::empty(),
            Seq::empty(),
        ),
        event matches ShellEvent::Effect(Err(e)) ==> yields(
            shell.resumed(WaitingView::Effect, event),
            shell,
            1,
            Seq::empty(),
            "toolbox: "@ + ("filesystem error: "@ + debug_of(e@)) + "\n"@,
        ),
{
}

/// `cd` changes to a mounted directory at once, and to any other path once the
/// filesystem says that it is a directory; without an argument it changes to
/// `/work`. Otherwise it fails and the executor stays where it is.
pub proof fn law_changing_the_directory(
    shell: ShellView,
    fs: FsView,
    path: Seq<char>,
    more: Seq<Seq<char>>,
)
    ensures
        shell.begun(fs, seq!["cd"@]) == shell.begun(fs, seq!["cd"@, "/work"@]),
        ({
            let cd = shell.begun(fs, seq!["cd"@, path] + more);
            match absolute(shell.cwd, path) {
                None => yields(
                    cd,
                    shell,
                    1,
                    Seq::empty(),
                    "toolbox: "@ + "invalid path"@ + "\n"@,
                ),
                Some(full) => if fs.mount_at(full) is Some {
                    cd == (Begun::Finished {
                        cwd: full,
                        reply: ReplyView { status: 0, out: Seq::empty(), err: Seq::empty() },
                    })
                } else {
                    match mounted_path(fs, shell.cwd, full) {
                        Ok((fd, below)) => cd == (Begun::Waiting {
                            waiting: WaitingView::Directory { path: full },
                            action: ShellAction::Stat { fd, path: below },
                        }),
                        Err(_) => yields(
                            cd,
                            shell,
                            1,
                            Seq::empty(),
                            "toolbox: "@ + "cd: not a directory"@ + "\n"@,
                        ),
                    }
                },
            }
        }),
{
    lemma_names_differ();
    assert((seq!["cd"@, path] + more)[1] == path);
}

/// What the filesystem found decides where `cd` leads.
pub proof fn law_directories_are_entered(shell: ShellView, path: Seq<char>, event: ShellEvent)
    ensures
        event matches ShellEvent::Stat(found) ==> {
            let cd = shell.resumed(WaitingView::Directory { path }, event);
            if found is Ok && found->Ok_0.descriptor_type is Directory {
                cd == (Begun::Finished {
                    cwd: path,
                    reply: ReplyView { status: 0, out: Seq::empty(), err: Seq::empty() },
                })
            } else {
                yields(
                    cd,
                    shell,
                    1,
                    Seq::empty(),
                    "toolbox: "@ + "cd: not a directory"@ + "\n"@,
                )
            }
        },
{
}

/// `cat` asks for its files one after the other, from the first on, and prints
/// what they hold together, as far as it fits; the first that cannot be read
/// ends it with a report, and nothing is printed.
pub proof fn law_files_are_printed_together(
    shell: ShellView,
    fs: FsView,
    paths: Seq<Seq<char>>,
    next: nat,
    out: Seq<char>,
    text: Result<Seq<char>, Seq<char>>,
)
    requires
        next < paths.len(),
    ensures
        yields(shell.begun(fs, seq!["cat"@]), shell, 0, Seq::empty(), Seq::empty()),
        ({
            let cat = shell.begun(fs, seq!["cat"@] + paths);
            match absolute(shell.cwd, paths[0]) {
                Some(full) => cat == (Begun::Waiting {
                    waiting: WaitingView::Files { paths, next: 0, out: Seq::empty() },
                    action: ShellAction::Read { path: full },
                }),
                None => yields(
                    cat,
                    shell,
                    1,
                    Seq::empty(),
                    "toolbox: "@ + ("cat: "@ + "invalid path"@) + "\n"@,
                ),
            }
        }),
        ({
            let cat = shell.file_resumed(WaitingView::Files { paths, next, out }, text);
            match text {
                Err(e) => yields(
                    cat,
                    shell,
                    1,
                    Seq::empty(),
                    "toolbox: "@ + ("cat: "@ + e) + "\n"@,
                ),
                Ok(read) => if next + 1 == paths.len() {
                    cat matches Begun::Finished { cwd, reply } && cwd == shell.cwd && reply.status
                        == 0 && reply.err.len() == 0 && grew_by(out, read, reply.out) && (utf8_len(
                        out,
                    ) + utf8_len(read) <= 1_048_576 ==> reply.out == out + read)
                } else {
                    match absolute(shell.cwd, paths[next as int + 1]) {
                        Some(full) => {
                            &&& cat is Waiting
                            &&& cat->action == (ShellAction::Read { path: full })
                            &&& cat->waiting matches WaitingView::Files {
                                paths: same,
                                next: following,
                                out: longer,
                            }
                            &&& same == paths
                            &&& following == next + 1
                            &&& grew_by(out, read, longer)
                            &&& utf8_len(out) + utf8_len(read) <= 1_048_576 ==> longer == out + read
                        },
                        None => yields(
                            cat,
                            shell,
                            1,
                            Seq::empty(),
                            "toolbox: "@ + ("cat: "@ + "invalid path"@) + "\n"@,
                        ),
                    }
                },
            }
        }),
{
    lemma_names_differ();
    assert((seq!["cat"@] + paths).skip(1) =~= paths);
    assert(seq!["cat"@].skip(1).len() == 0);
    if let Ok(read) = text {
        law_output_is_added(out, read);
    }
}

/// What a file held is handed to `cat` as the text that was read.
pub proof fn law_texts_are_handed_on(shell: ShellView, waiting: WaitingView, event: ShellEvent)
    requires
        waiting is Files,
    ensures
        event matches ShellEvent::Text(Ok(text)) ==> shell.resumed(waiting, event)
            == shell.file_resumed(waiting, Ok(text@)),
        event matches ShellEvent::Text(Err(e)) ==> shell.resumed(waiting, event)
            == shell.file_resumed(waiting, Err(e@)),
{
}

/// A script is read byte by byte of its UTF-8 form.
pub proof fn law_scripts_are_read_byte_by_byte(script: Seq<char>, i: int)
    ensures
        read_as(script).len() == encode_utf8(script).len(),
        0 <= i < read_as(script).len() ==> read_as(script)[i] as int == encode_utf8(script)[i],
{
}

/// Whether a character has no meaning of its own in a script.
pub open spec fn is_plain(c: char) -> bool {
    c != '\'' && c != '"' && c != '\\' && c != ' ' && c != '\t' && c != '\n' && c != ';' && c != '&'
        && c != '|'
}

/// How a script is cut into words and operators, from its beginning on, where
/// `word` was read already: a plain character, one after a backslash, and what
/// stands between quotes belong to the word; a blank, a semicolon and an
/// operator end it. A single `&` or `|` is an ordinary character.
pub proof fn law_scripts_are_cut_into_words(
    word: Seq<char>,
    begun: bool,
    c: char,
    quoted: Seq<char>,
    rest: Seq<char>,
)
    ensures
        lexed(Seq::empty(), word, false) == (
            Seq::<Token<Seq<char>>>::empty(),
            None::<ParseError>,
        ),
        lexed(Seq::empty(), word, true) == (seq![Token::Word(word)], None::<ParseError>),
        is_plain(c) ==> lexed(seq![c] + rest, word, begun) == lexed(rest, word.push(c), true),
        lexed(seq!['\\', c] + rest, word, begun) == lexed(rest, word.push(c), true),
        lexed(seq!['\\'], word, begun).1 == Some(ParseError::TrailingEscape),
        (c == '\'' || c == '"') && !quoted.contains(c) ==> {
            &&& lexed(seq![c] + quoted + seq![c] + rest, word, begun) == lexed(
                rest,
                word + quoted,
                true,
            )
            &&& lexed(seq![c] + quoted, word, begun).1 == Some(ParseError::UnterminatedQuote)
        },
        c == ' ' || c == '\t' || c == '\n' ==> {
            let (tokens, error) = lexed(rest, Seq::empty(), false);
            lexed(seq![c] + rest, word, begun) == (finished(word, begun) + tokens, error)
        },
        ({
            let (tokens, error) = lexed(rest, Seq::empty(), false);
            &&& lexed(seq![';'] + rest, word, begun) == (
                finished(word, begun) + seq![Token::Semicolon] + tokens,
                error,
            )
            &&& lexed(seq!['&', '&'] + rest, word, begun) == (
                finished(word, begun) + seq![Token::Operator(Join::And)] + tokens,
                error,
            )
            &&& lexed(seq!['|', '|'] + rest, word, begun) == (
                finished(word, begun) + seq![Token::Operator(Join::Or)] + tokens,
                error,
            )
        }),
        (c == '&' || c == '|') && (rest.len() == 0 || rest[0] != c) ==> lexed(
            seq![c] + rest,
            word,
            begun,
        ) == lexed(rest, word.push(c), true),
        finished(word, true) == seq![Token::Word(word)],
        finished(word, false) == Seq::<Token<Seq<char>>>::empty(),
{
    let one = seq![c] + rest;
    assert(one.skip(1) =~= rest);
    let escaped = seq!['\\', c] + rest;
    assert(escaped.skip(2) =~= rest);
    let (tokens, error) = lexed(rest, Seq::empty(), false);
    let done = finished(word, begun);
    let semicolon = seq![';'] + rest;
    assert(semicolon.skip(1) =~= rest);
    assert(done.push(Token::Semicolon) + tokens =~= done + seq![Token::Semicolon] + tokens);
    let and = seq!['&', '&'] + rest;
    assert(and.skip(2) =~= rest);
    assert(done.push(Token::Operator(Join::And)) + tokens =~= done + seq![
        Token::Operator(Join::And),
    ] + tokens);
    let or = seq!['|', '|'] + rest;
    assert(or.skip(2) =~= rest);
    assert(done.push(Token::Operator(Join::Or)) + tokens =~= done + seq![
        Token::Operator(Join::Or),
    ] + tokens);
    if (c == '\'' || c == '"') && !quoted.contains(c) {
        let closed = seq![c] + quoted + seq![c] + rest;
        let n = quoted.len() as int;
        assert(closed.skip(1) =~= quoted + seq![c] + rest);
        lemma_span_until(quoted, c, rest);
        assert(closed.skip(n + 2) =~= rest);
        assert(closed.subrange(1, n + 1) =~= quoted);
        let open = seq![c] + quoted;
        assert(open.skip(1) =~= quoted);
        law_cutting_once(quoted, c);
        if span_until(quoted, c) < quoted.len() {
            let (a, b) = split_once(quoted, c)->0;
            assert(quoted[a.len() as int] == c);
        }
    }
}

/// The words of a list as tokens.
pub open spec fn word_tokens(words: Seq<Seq<char>>) -> Seq<Token<Seq<char>>> {
    words.map_values(|w: Seq<char>| Token::Word(w))
}

/// Words in a row make up one command. A semicolon or an operator after them
/// ends it, and the next command depends on it accordingly; so does the end of
/// the script.
pub proof fn law_words_make_up_commands(
    words: Seq<Seq<char>>,
    rest: Seq<Token<Seq<char>>>,
    error: Option<ParseError>,
    join: Join,
    next: Join,
)
    requires
        words.len() > 0,
    ensures
        grouped(word_tokens(words), None, join, Seq::empty()) == Ok::<_, ParseError>(
            seq![CommandView { join, words }],
        ),
        match grouped(rest, error, Join::Always, Seq::empty()) {
            Ok(more) => grouped(
                word_tokens(words) + seq![Token::Semicolon] + rest,
                error,
                join,
                Seq::empty(),
            ) == Ok::<_, ParseError>(seq![CommandView { join, words }] + more),
            Err(e) => grouped(
                word_tokens(words) + seq![Token::Semicolon] + rest,
                error,
                join,
                Seq::empty(),
            ) == Err::<Seq<CommandView>, _>(e),
        },
        match grouped(rest, error, next, Seq::empty()) {
            Ok(more) => grouped(
                word_tokens(words) + seq![Token::Operator(next)] + rest,
                error,
                join,
                Seq::empty(),
            ) == Ok::<_, ParseError>(seq![CommandView { join, words }] + more),
            Err(e) => grouped(
                word_tokens(words) + seq![Token::Operator(next)] + rest,
                error,
                join,
                Seq::empty(),
            ) == Err::<Seq<CommandView>, _>(e),
        },
        grouped(seq![Token::Semicolon] + rest, error, Join::Always, Seq::empty()) == grouped(
            rest,
            error,
            Join::Always,
            Seq::empty(),
        ),
        grouped(Seq::<Token<Seq<char>>>::empty(), None, Join::Always, Seq::empty()) == Ok::<
            _,
            ParseError,
        >(Seq::<CommandView>::empty()),
        error matches Some(e) ==> grouped(word_tokens(words), error, join, Seq::empty()) == Err::<
            Seq<CommandView>,
            _,
        >(e),
{
    let none = Seq::<Seq<char>>::empty();
    let empty = Seq::<Token<Seq<char>>>::empty();
    lemma_words_are_taken(words, empty, None, join, none);
    assert(none + words =~= words);
    assert(word_tokens(words) + empty =~= word_tokens(words));
    lemma_words_are_taken(words, empty, error, join, none);
    let semicolon = seq![Token::<Seq<char>>::Semicolon] + rest;
    lemma_words_are_taken(words, semicolon, error, join, none);
    assert(word_tokens(words) + semicolon =~= word_tokens(words) + seq![Token::Semicolon] + rest);
    assert(semicolon.skip(1) =~= rest);
    let operator = seq![Token::<Seq<char>>::Operator(next)] + rest;
    lemma_words_are_taken(words, operator, error, join, none);
    assert(word_tokens(words) + operator =~= word_tokens(words) + seq![Token::Operator(next)]
        + rest);
    assert(operator.skip(1) =~= rest);
}

proof fn lemma_words_are_taken(
    words: Seq<Seq<char>>,
    rest: Seq<Token<Seq<char>>>,
    error: Option<ParseError>,
    join: Join,
    taken: Seq<Seq<char>>,
)
    ensures
        grouped(word_tokens(words) + rest, error, join, taken) == grouped(
            rest,
            error,
            join,
            taken + words,
        ),
    decreases words.len(),
{
    let all = word_tokens(words) + rest;
    if words.len() == 0 {
        assert(all =~= rest);
        assert(taken + words =~= taken);
    } else {
        let shorter = words.skip(1);
        assert(all.skip(1) =~= word_tokens(shorter) + rest);
        assert(all[0] == Token::Word(words[0]));
        lemma_words_are_taken(shorter, rest, error, join, taken.push(words[0]));
        assert(taken.push(words[0]) + shorter =~= taken + words);
    }
}

/// The commands of a script are those of its tokens.
pub proof fn law_scripts_are_their_tokens(script: Seq<char>)
    ensures
        ({
            let (tokens, error) = lexed(read_as(script), Seq::empty(), false);
            script_commands(script) == grouped(tokens, error, Join::Always, Seq::empty())
        }),
{
}

/// An operator with no command before it, or with none after it up to a
/// semicolon or the end, is reported as one without a command.
pub proof fn law_operators_without_commands_are_reported(
    words: Seq<Seq<char>>,
    rest: Seq<Token<Seq<char>>>,
    error: Option<ParseError>,
    join: Join,
    next: Join,
)
    requires
        words.len() > 0,
        next is And || next is Or,
    ensures
        ({
            let missing = Err::<Seq<CommandView>, _>(ParseError::OperatorWithoutCommand);
            let operator = seq![Token::<Seq<char>>::Operator(next)];
            let semicolon = seq![Token::<Seq<char>>::Semicolon];
            &&& grouped(operator + rest, error, join, Seq::empty()) == missing
            &&& grouped(word_tokens(words) + operator + operator + rest, error, join, Seq::empty())
                == missing
            &&& grouped(word_tokens(words) + operator + semicolon + rest, error, join, Seq::empty())
                == missing
            &&& grouped(word_tokens(words) + operator, None, join, Seq::empty()) == missing
        }),
{
    let none = Seq::<Token<Seq<char>>>::empty();
    let operator = seq![Token::<Seq<char>>::Operator(next)];
    let semicolon = seq![Token::<Seq<char>>::Semicolon];
    let all = word_tokens(words) + operator;
    law_words_make_up_commands(words, operator + rest, error, join, next);
    assert(all + operator + rest =~= all + (operator + rest));
    law_words_make_up_commands(words, semicolon + rest, error, join, next);
    assert(all + semicolon + rest =~= all + (semicolon + rest));
    law_words_make_up_commands(words, none, None, join, next);
    assert(all + none =~= all);
}

} // verus!
