//! What holds of every script.
use vstd::prelude::*;

use super::parse::{grouped, is_blank, leading_operator, lexed, read_as, script_commands};
use super::parse::{CommandView, Join, ParseError, Token};
use super::{absolute, appended, located, mounted_path, substituted};
use super::{Begun, ReplyView, RunView, ShellAction, ShellView, MAX_OUTPUT_BYTES};
use crate::model::FsView;
use crate::text::{begins_with, decimal, fitting, lemma_fitting, lemma_span_until};
use crate::text::{lemma_utf8_len_concat, occurs_in};
use crate::text::{replace_all, signed_decimal, span_until, trim_start, utf8_len};
use vstd::utf8::{char_is_scalar, char_u32_cast, encode_scalar, encode_utf8};

verus! {

/// Whether `name` is one of the commands that are built in.
pub open spec fn is_builtin(name: Seq<char>) -> bool {
    ||| name == "true"@
    ||| name == "false"@
    ||| name == "echo"@
    ||| name == "printf"@
    ||| name == "pwd"@
    ||| name == "cd"@
    ||| name == "cat"@
    ||| name == "touch"@
    ||| name == "mkdir"@
    ||| name == "rm"@
}

/// A command that is not built in fails with status 127 and reaches neither
/// the filesystem nor the host.
pub proof fn law_unknown_commands_are_not_run(shell: ShellView, fs: FsView, words: Seq<Seq<char>>)
    requires
        words.len() > 0,
        !is_builtin(words[0]),
    ensures
        shell.begun(fs, words) == (Begun::Finished {
            cwd: shell.cwd,
            reply: ReplyView {
                status: 127,
                out: Seq::empty(),
                err: words[0] + ": command not found\n"@,
            },
        }),
{
}

/// A command after `&&` runs exactly where the one before it succeeded, one
/// after `||` exactly where it failed, and one after `;` in any case. One that
/// does not run changes nothing but the place in the script.
pub proof fn law_operators_choose_what_runs(run: RunView, shell: ShellView, fs: FsView)
    requires
        run.next < run.commands.len(),
    ensures
        ({
            let command = run.commands[run.next as int];
            let skipped = (shell, RunView { next: run.next + 1, ..run }, ShellAction::<
                Seq<char>,
            >::Nothing);
            &&& command.join is And && run.previous != 0 ==> run.stepped(shell, fs) == skipped
            &&& command.join is Or && run.previous == 0 ==> run.stepped(shell, fs) == skipped
            &&& command.join is Always || (command.join is And && run.previous == 0) || (
            command.join is Or && run.previous != 0) ==> run.stepped(shell, fs) == (RunView {
                next: run.next + 1,
                ..run
            }).settled(shell, shell.begun(fs, shell.expanded_words(command.words)))
        }),
{
}

/// Every step goes on to exactly the next command, and the script ends after
/// the last.
pub proof fn law_commands_run_in_order(run: RunView, shell: ShellView, fs: FsView)
    ensures
        run.stepped(shell, fs).1.commands == run.commands,
        run.next < run.commands.len() ==> run.stepped(shell, fs).1.next == run.next + 1,
        run.next >= run.commands.len() <==> run.stepped(shell, fs) == (
            shell,
            run,
            ShellAction::<Seq<char>>::Done,
        ),
{
    if run.next < run.commands.len() {
        let (_, after, _) = run.stepped(shell, fs);
        assert(after.next == run.next + 1);
    }
}

/// A command that finishes leaves its status as that of the script and as what
/// `$?` stands for, whatever variables there are.
pub proof fn law_status_is_kept(run: RunView, shell: ShellView, cwd: Seq<char>, reply: ReplyView)
    ensures
        ({
            let (after, ran, action) = run.settled(shell, Begun::Finished { cwd, reply });
            &&& ran.previous == reply.status
            &&& after.last_status == reply.status
            &&& after.cwd == cwd
            &&& after.expanded("$?"@) == signed_decimal(reply.status as int)
            &&& action is Nothing
        }),
{
    let pattern = "$?"@;
    let value = signed_decimal(reply.status as int);
    reveal_strlit("$?");
    assert(pattern.take(pattern.len() as int) =~= pattern);
    assert(pattern.skip(pattern.len() as int) =~= Seq::<char>::empty());
    assert(value + replace_all(Seq::<char>::empty(), pattern, value) =~= value);
    lemma_numbers_hold_no_variable(reply.status as int);
    lemma_nothing_to_substitute(value, shell.environment);
}

/// A number holds no dollar sign.
proof fn lemma_numbers_hold_no_variable(n: int)
    ensures
        !signed_decimal(n).contains('$'),
{
    if n < 0 {
        lemma_digits_hold_no_variable((-n) as nat);
        let digits = decimal((-n) as nat);
        let text = seq!['-'] + digits;
        if text.contains('$') {
            let i = choose|i: int| 0 <= i < text.len() && text[i] == '$';
            assert(i > 0);
            assert(digits[i - 1] == '$');
        }
    } else {
        lemma_digits_hold_no_variable(n as nat);
    }
}

proof fn lemma_digits_hold_no_variable(n: nat)
    ensures
        !decimal(n).contains('$'),
    decreases n,
{
    let text = decimal(n);
    if n >= 10 {
        lemma_digits_hold_no_variable(n / 10);
        let front = decimal(n / 10);
        if text.contains('$') {
            let i = choose|i: int| 0 <= i < text.len() && text[i] == '$';
            if i < front.len() {
                assert(front[i] == '$');
            }
        }
    }
}

/// A word without a dollar sign is left as it is.
proof fn lemma_nothing_to_substitute(word: Seq<char>, environment: Seq<(Seq<char>, Seq<char>)>)
    requires
        !word.contains('$'),
    ensures
        substituted(word, environment) == word,
    decreases environment.len(),
{
    if environment.len() > 0 {
        lemma_nothing_to_substitute(word, environment.drop_last());
        let (name, value) = environment.last();
        reveal_strlit("$");
        assert(("$"@ + name)[0] == '$');
        lemma_nothing_to_replace(word, "$"@ + name, value);
    }
}

proof fn lemma_nothing_to_replace(s: Seq<char>, from: Seq<char>, to: Seq<char>)
    requires
        from.len() > 0,
        !s.contains(from[0]),
    ensures
        replace_all(s, from, to) == s,
    decreases s.len(),
{
    if s.len() > 0 {
        if begins_with(s, from) {
            assert(s.take(from.len() as int)[0] == from[0]);
            assert(s[0] == from[0]);
        }
        let rest = s.skip(1);
        if rest.contains(from[0]) {
            let i = choose|i: int| 0 <= i < rest.len() && rest[i] == from[0];
            assert(s[i + 1] == from[0]);
        }
        lemma_nothing_to_replace(rest, from, to);
        assert(seq![s[0]] + rest =~= s);
    }
}

/// A script of ASCII characters is read as it is.
pub proof fn law_ascii_is_read_as_it_is(script: Seq<char>)
    requires
        forall|i: int| 0 <= i < script.len() ==> #[trigger] script[i] < '\u{80}',
    ensures
        read_as(script) == script,
    decreases script.len(),
{
    if script.len() > 0 {
        let rest = script.drop_first();
        law_ascii_is_read_as_it_is(rest);
        lemma_read_first(script);
        assert(seq![script[0]] + rest =~= script);
    } else {
        assert(read_as(script) =~= script);
    }
}

/// A script is read character by character. One of ASCII is read as it is, and
/// no other as anything of ASCII.
proof fn lemma_read_first(script: Seq<char>)
    requires
        script.len() > 0,
    ensures
        ({
            let first = read_as(seq![script[0]]);
            &&& read_as(script) == first + read_as(script.drop_first())
            &&& script[0] < '\u{80}' ==> first == seq![script[0]]
            &&& script[0] >= '\u{80}' ==> forall|i: int|
                0 <= i < first.len() ==> #[trigger] first[i] >= '\u{80}'
        }),
{
    let one = seq![script[0]];
    let scalar = script[0] as u32;
    let bytes = encode_scalar(scalar);
    char_is_scalar(script[0]);
    char_u32_cast(script[0], scalar);
    assert(one.drop_first() =~= Seq::<char>::empty());
    assert(encode_utf8(Seq::<char>::empty()) =~= Seq::<u8>::empty());
    assert(encode_utf8(one) =~= bytes);
    assert(read_as(script) =~= read_as(one) + read_as(script.drop_first()));
    assert(scalar <= 0x7f ==> (scalar & 0x7f) as u8 == scalar) by (bit_vector);
    assert(0xc0 | ((scalar >> 6) & 0x1f) as u8 >= 0x80u8) by (bit_vector);
    assert(0xe0 | ((scalar >> 12) & 0x0f) as u8 >= 0x80u8) by (bit_vector);
    assert(0xf0 | ((scalar >> 18) & 0x7) as u8 >= 0x80u8) by (bit_vector);
    assert(0x80 | (scalar & 0x3f) as u8 >= 0x80u8) by (bit_vector);
    assert(0x80 | ((scalar >> 6) & 0x3f) as u8 >= 0x80u8) by (bit_vector);
    assert(0x80 | ((scalar >> 12) & 0x3f) as u8 >= 0x80u8) by (bit_vector);
    if scalar <= 0x7f {
        assert(read_as(one) =~= one);
    } else {
        assert forall|i: int| 0 <= i < read_as(one).len() implies #[trigger] read_as(one)[i]
            >= '\u{80}' by {
            assert(bytes[i] >= 0x80);
        }
    }
}

/// What is read of two texts one after the other.
proof fn lemma_read_concat(a: Seq<char>, b: Seq<char>)
    ensures
        read_as(a + b) == read_as(a) + read_as(b),
    decreases a.len(),
{
    if a.len() == 0 {
        assert(a + b =~= b);
        assert(read_as(a) + read_as(b) =~= read_as(b));
    } else {
        assert((a + b).drop_first() =~= a.drop_first() + b);
        lemma_read_concat(a.drop_first(), b);
        lemma_read_first(a);
        lemma_read_first(a + b);
        let first = read_as(seq![a[0]]);
        assert(first + (read_as(a.drop_first()) + read_as(b)) =~= (first + read_as(
            a.drop_first(),
        )) + read_as(b));
    }
}

/// A character of ASCII is read only where it stands.
proof fn lemma_read_only_where_it_stands(word: Seq<char>, c: char)
    requires
        c < '\u{80}',
        !word.contains(c),
    ensures
        !read_as(word).contains(c),
    decreases word.len(),
{
    if word.len() > 0 {
        let rest = word.drop_first();
        assert(word[0] != c);
        if rest.contains(c) {
            let i = choose|i: int| 0 <= i < rest.len() && rest[i] == c;
            assert(word[i + 1] == c);
        }
        lemma_read_only_where_it_stands(rest, c);
        lemma_read_first(word);
        let first = read_as(seq![word[0]]);
        if read_as(word).contains(c) {
            let i = choose|i: int| 0 <= i < read_as(word).len() && read_as(word)[i] == c;
            if i < first.len() {
                assert(first[i] == c);
            } else {
                assert(read_as(rest)[i - first.len()] == c);
            }
        }
    }
}

/// What stands between quotes is one word, taken as it is read: blanks,
/// operators and backslashes have no meaning there, and a pair of quotes with
/// nothing between them is an empty word.
pub proof fn law_quotes_are_literal(word: Seq<char>, quote: char)
    requires
        quote == '\'' || quote == '"',
        !word.contains(quote),
    ensures
        script_commands(seq![quote] + word + seq![quote]) == Ok::<_, ParseError>(
            seq![CommandView { join: Join::Always, words: seq![read_as(word)] }],
        ),
{
    let read = read_as(word);
    lemma_read_only_where_it_stands(word, quote);
    lemma_read_concat(seq![quote] + word, seq![quote]);
    lemma_read_concat(seq![quote], word);
    lemma_read_first(seq![quote]);
    let script = seq![quote] + read + seq![quote];
    assert(read_as(seq![quote] + word + seq![quote]) == script);
    let rest = script.skip(1);
    assert(rest =~= read + seq![quote] + Seq::<char>::empty());
    lemma_span_until(read, quote, Seq::empty());
    let n = read.len() as int;
    assert(script.skip(n + 2) =~= Seq::<char>::empty());
    assert(script.subrange(1, n + 1) =~= read);
    assert(Seq::<char>::empty() + read =~= read);
    let tokens = seq![Token::Word(read)];
    assert(lexed(script, Seq::empty(), false) == lexed(Seq::<char>::empty(), read, true));
    assert(tokens.skip(1) =~= Seq::<Token<Seq<char>>>::empty());
    let words = Seq::<Seq<char>>::empty().push(read);
    assert(words =~= seq![read]);
    assert(grouped(tokens, None, Join::Always, Seq::empty()) == grouped(
        tokens.skip(1),
        None,
        Join::Always,
        words,
    ));
}

/// Whether the operator at `tokens[i]` has a command on either side, where
/// `words` says whether a word stands before all of them.
pub open spec fn stands_between(tokens: Seq<Token<Seq<char>>>, words: bool, i: int) -> bool {
    &&& if i == 0 {
        words
    } else {
        tokens[i - 1] is Word
    }
    &&& i + 1 < tokens.len()
    &&& tokens[i + 1] is Word
}

/// A script with a lexical error is refused. Any other is accepted exactly
/// where each of its operators stands between two words.
pub proof fn law_operators_stand_between_commands(script: Seq<char>)
    ensures
        ({
            let (tokens, error) = lexed(read_as(script), Seq::empty(), false);
            script_commands(script) is Ok <==> error is None && forall|i: int|
                0 <= i < tokens.len() && (#[trigger] tokens[i]) is Operator ==> stands_between(
                    tokens,
                    false,
                    i,
                )
        }),
{
    let (tokens, error) = lexed(read_as(script), Seq::empty(), false);
    lemma_operators_are_conditional(read_as(script), Seq::empty(), false);
    lemma_operators_stand_between(tokens, error, Join::Always, Seq::empty());
}

/// An operator that a script holds is `&&` or `||`.
proof fn lemma_operators_are_conditional(s: Seq<char>, word: Seq<char>, begun: bool)
    ensures
        forall|i: int|
            #![trigger lexed(s, word, begun).0[i]]
            0 <= i < lexed(s, word, begun).0.len() ==> lexed(s, word, begun).0[i]
                != Token::<Seq<char>>::Operator(Join::Always),
    decreases s.len(),
{
    if s.len() > 0 {
        if s[0] == '\'' || s[0] == '"' {
            let n = span_until(s.skip(1), s[0]) as int;
            if n < s.len() - 1 {
                lemma_operators_are_conditional(
                    s.skip(n + 2),
                    word + s.subrange(1, n + 1),
                    true,
                );
            }
        } else if s[0] == '\\' {
            if s.len() > 1 {
                lemma_operators_are_conditional(s.skip(2), word.push(s[1]), true);
            }
        } else if is_blank(s[0]) || s[0] == ';' {
            lemma_operators_are_conditional(s.skip(1), Seq::empty(), false);
        } else if leading_operator(s) is Some {
            lemma_operators_are_conditional(s.skip(2), Seq::empty(), false);
        } else {
            lemma_operators_are_conditional(s.skip(1), word.push(s[0]), true);
        }
    }
}

proof fn lemma_operators_stand_between(
    tokens: Seq<Token<Seq<char>>>,
    error: Option<ParseError>,
    join: Join,
    words: Seq<Seq<char>>,
)
    requires
        forall|i: int|
            0 <= i < tokens.len() ==> #[trigger] tokens[i] != Token::<Seq<char>>::Operator(
                Join::Always,
            ),
    ensures
        grouped(tokens, error, join, words) is Ok <==> {
            &&& error is None
            &&& words.len() == 0 && !(join is Always) ==> tokens.len() > 0 && tokens[0] is Word
            &&& forall|i: int|
                0 <= i < tokens.len() && (#[trigger] tokens[i]) is Operator ==> stands_between(
                    tokens,
                    words.len() > 0,
                    i,
                )
        },
    decreases tokens.len(),
{
    if tokens.len() > 0 {
        let rest = tokens.skip(1);
        let (next, next_words) = match tokens[0] {
            Token::Word(word) => (join, words.push(word)),
            Token::Semicolon => (Join::Always, Seq::empty()),
            Token::Operator(next) => (next, Seq::empty()),
        };
        assert forall|i: int| 0 <= i < rest.len() implies #[trigger] rest[i]
            != Token::<Seq<char>>::Operator(Join::Always) by {
            assert(rest[i] == tokens[i + 1]);
        }
        lemma_operators_stand_between(rest, error, next, next_words);
        assert forall|i: int| 0 <= i < rest.len() && (#[trigger] rest[i]) is Operator implies
            stands_between(rest, next_words.len() > 0, i) == stands_between(
            tokens,
            words.len() > 0,
            i + 1,
        ) by {
            assert(rest[i] == tokens[i + 1]);
            if i > 0 {
                assert(rest[i - 1] == tokens[i]);
            }
            if i + 1 < rest.len() {
                assert(rest[i + 1] == tokens[i + 2]);
            }
        }
        let all = forall|i: int|
            0 <= i < tokens.len() && (#[trigger] tokens[i]) is Operator ==> stands_between(
                tokens,
                words.len() > 0,
                i,
            );
        let later = forall|i: int|
            0 <= i < rest.len() && (#[trigger] rest[i]) is Operator ==> stands_between(
                rest,
                next_words.len() > 0,
                i,
            );
        let first = tokens[0] is Operator ==> stands_between(tokens, words.len() > 0, 0);
        if all {
            assert forall|i: int| 0 <= i < rest.len() && (#[trigger] rest[i]) is Operator implies
                stands_between(rest, next_words.len() > 0, i) by {
                assert(tokens[i + 1] is Operator);
            }
        }
        if later && first {
            assert forall|i: int| 0 <= i < tokens.len() && (#[trigger] tokens[i]) is Operator implies
                stands_between(tokens, words.len() > 0, i) by {
                if i > 0 {
                    assert(rest[i - 1] is Operator);
                }
            }
        }
        assert(all <==> first && later);
        if tokens[0] is Semicolon && words.len() == 0 && join is Always {
            assert(words =~= next_words);
        }
        if rest.len() > 0 {
            assert(rest[0] == tokens[1]);
        }
    }
}

/// No script sets a variable: an executor starts with none, and no command
/// adds one.
pub proof fn law_scripts_set_no_variables(
    run: RunView,
    shell: ShellView,
    fs: FsView,
    begun: Begun,
)
    ensures
        ShellView::initial().environment == Seq::<(Seq<char>, Seq<char>)>::empty(),
        run.stepped(shell, fs).0.environment == shell.environment,
        run.settled(shell, begun).0.environment == shell.environment,
{
}

/// Whether the output of a script is within the bound.
pub open spec fn bounded(run: RunView) -> bool {
    utf8_len(run.stdout) <= MAX_OUTPUT_BYTES && utf8_len(run.stderr) <= MAX_OUTPUT_BYTES
}

/// Adding to a text within the bound keeps it within the bound, and changes
/// nothing of what is there.
pub proof fn law_output_is_cut(target: Seq<char>, value: Seq<char>)
    requires
        utf8_len(target) <= MAX_OUTPUT_BYTES,
    ensures
        utf8_len(appended(target, value)) <= MAX_OUTPUT_BYTES,
        begins_with(appended(target, value), target),
        utf8_len(target) + utf8_len(value) <= MAX_OUTPUT_BYTES ==> appended(target, value)
            == target + value,
{
    let room = (MAX_OUTPUT_BYTES - utf8_len(target)) as nat;
    let part = fitting(value, room);
    lemma_fitting(value, room);
    lemma_utf8_len_concat(target, part);
    lemma_utf8_len_concat(target, value);
    assert((target + part).take(target.len() as int) =~= target);
    assert(target.take(target.len() as int) =~= target);
    if utf8_len(value) <= room {
        if part.len() < value.len() {
            let longer = value.take(part.len() as int + 1);
            lemma_utf8_len_concat(longer, value.skip(part.len() as int + 1));
            assert(longer + value.skip(part.len() as int + 1) =~= value);
        }
        assert(value.take(value.len() as int) =~= value);
        if utf8_len(target) >= MAX_OUTPUT_BYTES {
            lemma_nothing_has_no_width(value);
            assert(target + value =~= target);
        }
    }
}

/// A text that takes no bytes is empty.
proof fn lemma_nothing_has_no_width(s: Seq<char>)
    ensures
        utf8_len(s) == 0 ==> s.len() == 0,
{
    if s.len() > 0 {
        assert(encode_scalar(s[0] as u32).len() >= 1);
    }
}

/// A character takes at most four bytes.
proof fn lemma_at_most_four_bytes_each(s: Seq<char>)
    ensures
        utf8_len(s) <= 4 * s.len(),
    decreases s.len(),
{
    if s.len() > 0 {
        lemma_at_most_four_bytes_each(s.drop_first());
    }
}

/// The output of a script never exceeds its bound: not at the start, not after
/// a command was begun, and not after one was resumed.
pub proof fn law_output_is_bounded(
    script: Seq<char>,
    run: RunView,
    shell: ShellView,
    fs: FsView,
    begun: Begun,
)
    ensures
        bounded(RunView::start(script)),
        bounded(run) ==> bounded(run.stepped(shell, fs).1),
        bounded(run) ==> bounded(run.settled(shell, begun).1),
{
    reveal_strlit("toolbox: script exceeds 64 KiB limit\n");
    reveal_strlit("toolbox: AST node limit exceeded\n");
    reveal_strlit("toolbox: ");
    reveal_strlit("\n");
    reveal_strlit("trailing escape");
    reveal_strlit("operator without command");
    reveal_strlit("unterminated quote");
    lemma_at_most_four_bytes_each(RunView::start(script).stderr);
    assert(encode_utf8(Seq::<char>::empty()).len() == 0);
    if bounded(run) {
        lemma_settled_is_bounded(run, shell, begun);
        if run.next < run.commands.len() {
            let command = run.commands[run.next as int];
            lemma_settled_is_bounded(
                RunView { next: run.next + 1, ..run },
                shell,
                shell.begun(fs, shell.expanded_words(command.words)),
            );
        }
    }
}

proof fn lemma_settled_is_bounded(run: RunView, shell: ShellView, begun: Begun)
    requires
        bounded(run),
    ensures
        bounded(run.settled(shell, begun).1),
{
    if let Begun::Finished { cwd, reply } = begun {
        law_output_is_cut(run.stdout, reply.out);
        law_output_is_cut(run.stderr, reply.err);
    }
}

/// Whether a path holds no parent component, no backslash and no NUL.
pub open spec fn is_clean(path: Seq<char>) -> bool {
    !occurs_in(".."@, path) && !path.contains('\\') && !path.contains('\0')
}

/// Whether an operation is on a clean path, and on a mounted directory where
/// it names one.
pub open spec fn acts_cleanly(fs: FsView, action: ShellAction<Seq<char>>) -> bool {
    match action {
        ShellAction::Nothing => true,
        ShellAction::Done => true,
        ShellAction::Read { path } => is_clean(path),
        ShellAction::Stat { fd, path } => fs.preopens.contains_key(fd) && is_clean(path),
        ShellAction::Create { fd, path } => fs.preopens.contains_key(fd) && is_clean(path),
        ShellAction::MakeDirectory { fd, path } => fs.preopens.contains_key(fd) && is_clean(path),
        ShellAction::Unlink { fd, path } => fs.preopens.contains_key(fd) && is_clean(path),
    }
}

/// Whatever a script holds, the filesystem is only ever asked about paths
/// without parent components, backslashes and NULs, and only on directories
/// that are mounted.
pub proof fn law_scripts_stay_inside_mounts(
    run: RunView,
    shell: ShellView,
    fs: FsView,
    text: Result<Seq<char>, Seq<char>>,
)
    ensures
        acts_cleanly(fs, run.stepped(shell, fs).2),
        acts_cleanly(
            fs,
            run.settled(shell, shell.file_resumed(run.waiting, text)).2,
        ),
{
    if run.next < run.commands.len() {
        let words = shell.expanded_words(run.commands[run.next as int].words);
        if words.len() > 1 {
            lemma_mounted_path_is_clean(fs, shell.cwd, words[1]);
        }
        let target = if words.len() > 1 {
            words[1]
        } else {
            "/work"@
        };
        if let Some(full) = absolute(shell.cwd, target) {
            lemma_mounted_path_is_clean(fs, shell.cwd, full);
        }
    }
}

proof fn lemma_mounted_path_is_clean(fs: FsView, cwd: Seq<char>, path: Seq<char>)
    ensures
        mounted_path(fs, cwd, path) matches Ok((fd, rest)) ==> fs.preopens.contains_key(fd)
            && is_clean(rest),
{
    if let Ok((fd, rest)) = mounted_path(fs, cwd, path) {
        let full = absolute(cwd, path)->0;
        let root = located(cwd, path)->Ok_0.0;
        assert(fs.is_first_mount(root, fd));
        let trimmed = trim_start(full, '/');
        let k = lemma_trim_is_suffix(full, '/');
        let n = span_until(trimmed, '/') as int;
        assert(rest == trimmed.skip(n + 1));
        assert(rest =~= full.skip(k + n + 1));
        lemma_suffix_is_clean(full, k + n + 1);
    }
}

proof fn lemma_trim_is_suffix(s: Seq<char>, c: char) -> (k: int)
    ensures
        0 <= k <= s.len(),
        trim_start(s, c) == s.skip(k),
    decreases s.len(),
{
    if s.len() > 0 && s[0] == c {
        let k = lemma_trim_is_suffix(s.skip(1), c);
        assert(s.skip(1).skip(k) =~= s.skip(k + 1));
        k + 1
    } else {
        assert(s.skip(0) =~= s);
        0
    }
}

proof fn lemma_suffix_is_clean(s: Seq<char>, k: int)
    requires
        0 <= k <= s.len(),
        is_clean(s),
    ensures
        is_clean(s.skip(k)),
{
    let tail = s.skip(k);
    if occurs_in(".."@, tail) {
        let i = choose|i: int| 0 <= i <= tail.len() && #[trigger] begins_with(tail.skip(i), ".."@);
        assert(tail.skip(i) =~= s.skip(k + i));
        assert(begins_with(s.skip(k + i), ".."@));
    }
    assert forall|c: char| tail.contains(c) implies s.contains(c) by {
        let i = choose|i: int| 0 <= i < tail.len() && tail[i] == c;
        assert(s[k + i] == c);
    }
}

} // verus!
