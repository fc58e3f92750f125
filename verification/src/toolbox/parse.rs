//! The grammar of scripts: words, quotes, escapes, and the operators between
//! commands.
use vstd::prelude::*;

use crate::text::{span_until, text_between, texts};
use vstd::utf8::encode_utf8;

verus! {

/// How a command depends on the status of the one before it.
#[derive(Debug, Clone, Copy, PartialEq, Eq, Structural)]
pub enum Join {
    /// It runs in any case.
    Always,
    /// It runs after success.
    And,
    /// It runs after failure.
    Or,
}

/// Why a script is not accepted.
#[derive(Debug, Clone, Copy, PartialEq, Eq, Structural)]
pub enum ParseError {
    TrailingEscape,
    OperatorWithoutCommand,
    UnterminatedQuote,
}

impl ParseError {
    /// The text that reports this failure.
    pub open spec fn text(self) -> Seq<char> {
        match self {
            ParseError::TrailingEscape => "trailing escape"@,
            ParseError::OperatorWithoutCommand => "operator without command"@,
            ParseError::UnterminatedQuote => "unterminated quote"@,
        }
    }

    /// The text that reports this failure.
    pub fn message(&self) -> (r: &'static str)
        ensures
            r@ == self.text(),
    {
        match *self {
            ParseError::TrailingEscape => "trailing escape",
            ParseError::OperatorWithoutCommand => "operator without command",
            ParseError::UnterminatedQuote => "unterminated quote",
        }
    }
}

/// A lexical element of a script. The parameter is the form in which the text
/// of a word is held.
#[derive(Debug)]
pub enum Token<S = String> {
    Word(S),
    Semicolon,
    Operator(Join),
}

impl View for Token<String> {
    type V = Token<Seq<char>>;

    open spec fn view(&self) -> Token<Seq<char>> {
        match *self {
            Token::Word(word) => Token::Word(word@),
            Token::Semicolon => Token::Semicolon,
            Token::Operator(join) => Token::Operator(join),
        }
    }
}

/// The views of a list of tokens.
pub open spec fn tokens_of(list: Seq<Token>) -> Seq<Token<Seq<char>>> {
    list.map_values(|t: Token| t@)
}

/// A command, and how it depends on the one before it.
#[derive(Debug)]
pub struct Command {
    pub join: Join,
    pub words: Vec<String>,
}

/// A command, in the form that contracts use.
#[verifier::ext_equal]
pub struct CommandView {
    pub join: Join,
    pub words: Seq<Seq<char>>,
}

impl View for Command {
    type V = CommandView;

    open spec fn view(&self) -> CommandView {
        CommandView { join: self.join, words: texts(self.words@) }
    }
}

/// The views of a list of commands.
pub open spec fn commands_of(list: Seq<Command>) -> Seq<CommandView> {
    list.map_values(|c: Command| c@)
}

/// The characters as which a script is read: every byte of its UTF-8 form is
/// one.
pub open spec fn read_as(script: Seq<char>) -> Seq<char> {
    encode_utf8(script).map_values(|b: u8| b as char)
}

/// A finished word. One that was begun counts, though it may hold nothing: a
/// pair of quotes is an empty argument.
pub open spec fn finished(word: Seq<char>, begun: bool) -> Seq<Token<Seq<char>>> {
    if begun {
        seq![Token::Word(word)]
    } else {
        Seq::empty()
    }
}

/// What `first` and then `rest` amount to.
pub open spec fn followed(
    first: Seq<Token<Seq<char>>>,
    rest: (Seq<Token<Seq<char>>>, Option<ParseError>),
) -> (Seq<Token<Seq<char>>>, Option<ParseError>) {
    (first + rest.0, rest.1)
}

/// Whether a character separates words.
pub open spec fn is_blank(c: char) -> bool {
    c == ' ' || c == '\t' || c == '\n'
}

/// The operator that the script begins with, where it begins with one.
pub open spec fn leading_operator(s: Seq<char>) -> Option<Join> {
    if s.len() >= 2 && s[0] == '&' && s[1] == '&' {
        Some(Join::And)
    } else if s.len() >= 2 && s[0] == '|' && s[1] == '|' {
        Some(Join::Or)
    } else {
        None
    }
}

/// The tokens of the characters `s` up to the first lexical error, where `word` is
/// what the current word holds so far, and `begun` whether there is one.
///
/// A quote takes everything up to the same quote into the current word as it
/// is; a backslash takes the character after it. Blanks, `;`, `&&` and `||`
/// end the word. Every other character is taken into it.
pub open spec fn lexed(s: Seq<char>, word: Seq<char>, begun: bool) -> (
    Seq<Token<Seq<char>>>,
    Option<ParseError>,
)
    decreases s.len(),
{
    if s.len() == 0 {
        (finished(word, begun), None)
    } else if s[0] == '\'' || s[0] == '"' {
        let n = span_until(s.skip(1), s[0]);
        if n >= s.len() - 1 {
            (Seq::empty(), Some(ParseError::UnterminatedQuote))
        } else {
            lexed(s.skip(n as int + 2), word + s.subrange(1, n as int + 1), true)
        }
    } else if s[0] == '\\' {
        if s.len() == 1 {
            (Seq::empty(), Some(ParseError::TrailingEscape))
        } else {
            lexed(s.skip(2), word.push(s[1]), true)
        }
    } else if is_blank(s[0]) {
        followed(finished(word, begun), lexed(s.skip(1), Seq::empty(), false))
    } else if s[0] == ';' {
        followed(
            finished(word, begun).push(Token::Semicolon),
            lexed(s.skip(1), Seq::empty(), false),
        )
    } else {
        match leading_operator(s) {
            Some(join) => followed(
                finished(word, begun).push(Token::Operator(join)),
                lexed(s.skip(2), Seq::empty(), false),
            ),
            None => lexed(s.skip(1), word.push(s[0]), true),
        }
    }
}

/// A command before others.
pub open spec fn before(first: Seq<CommandView>, rest: Result<Seq<CommandView>, ParseError>) -> Result<
    Seq<CommandView>,
    ParseError,
> {
    match rest {
        Ok(commands) => Ok(first + commands),
        Err(e) => Err(e),
    }
}

/// The commands that a list of tokens stands for, where `join` and `words` are
/// those of the current command so far, and `error` is the lexical error that
/// follows the tokens. An operator needs a command before it and one after it;
/// a semicolon needs neither.
pub open spec fn grouped(
    tokens: Seq<Token<Seq<char>>>,
    error: Option<ParseError>,
    join: Join,
    words: Seq<Seq<char>>,
) -> Result<Seq<CommandView>, ParseError>
    decreases tokens.len(),
{
    let current = seq![CommandView { join, words }];
    let missing = words.len() == 0 && !(join is Always);
    if tokens.len() == 0 {
        match error {
            Some(e) => Err(e),
            None => if missing {
                Err(ParseError::OperatorWithoutCommand)
            } else if words.len() == 0 {
                Ok(Seq::empty())
            } else {
                Ok(current)
            },
        }
    } else {
        let rest = tokens.skip(1);
        match tokens[0] {
            Token::Word(word) => grouped(rest, error, join, words.push(word)),
            Token::Semicolon => if missing {
                Err(ParseError::OperatorWithoutCommand)
            } else if words.len() == 0 {
                grouped(rest, error, join, words)
            } else {
                before(current, grouped(rest, error, Join::Always, Seq::empty()))
            },
            Token::Operator(next) => if words.len() == 0 {
                Err(ParseError::OperatorWithoutCommand)
            } else {
                before(current, grouped(rest, error, next, Seq::empty()))
            },
        }
    }
}

/// The commands of a script. Of several errors the first in the script is
/// reported.
pub open spec fn script_commands(script: Seq<char>) -> Result<Seq<CommandView>, ParseError> {
    let (tokens, error) = lexed(read_as(script), Seq::empty(), false);
    grouped(tokens, error, Join::Always, Seq::empty())
}

/// The characters as which a script is read.
fn read_script(script: &str) -> (r: Vec<char>)
    ensures
        r@ == read_as(script@),
{
    let bytes = script.as_bytes();
    let mut r: Vec<char> = Vec::new();
    let mut i: usize = 0;
    while i < bytes.len()
        invariant
            0 <= i <= bytes@.len(),
            bytes@ == encode_utf8(script@),
            r@ == read_as(script@).take(i as int),
        decreases bytes@.len() - i,
    {
        r.push(bytes[i] as char);
        assert(r@ =~= read_as(script@).take(i + 1));
        i += 1;
    }
    assert(r@ =~= read_as(script@));
    r
}

/// The position of the first `c` from `from` on, or the end.
fn find_char(chars: &Vec<char>, from: usize, c: char) -> (r: usize)
    requires
        from <= chars@.len(),
    ensures
        r == from + span_until(chars@.skip(from as int), c),
        from <= r <= chars@.len(),
{
    let mut i: usize = from;
    while i < chars.len() && chars[i] != c
        invariant
            from <= i <= chars@.len(),
            from + span_until(chars@.skip(from as int), c) == i + span_until(
                chars@.skip(i as int),
                c,
            ),
        decreases chars@.len() - i,
    {
        assert(chars@.skip(i as int).skip(1) =~= chars@.skip(i + 1));
        i += 1;
    }
    i
}

/// The tokens of a script up to the first lexical error.
fn lex(chars: &Vec<char>) -> (r: (Vec<Token>, Option<ParseError>))
    ensures
        (tokens_of(r.0@), r.1) == lexed(chars@, Seq::empty(), false),
{
    let ghost whole = lexed(chars@, Seq::empty(), false);
    let mut tokens: Vec<Token> = Vec::new();
    let mut word = String::new();
    let mut begun = false;
    let mut i: usize = 0;
    proof {
        assert(chars@.skip(0) =~= chars@);
        assert(tokens_of(tokens@) =~= Seq::<Token<Seq<char>>>::empty());
        assert(word@ =~= Seq::<char>::empty());
        assert(tokens_of(tokens@) + whole.0 =~= whole.0);
    }
    while i < chars.len()
        invariant
            0 <= i <= chars@.len(),
            whole == lexed(chars@, Seq::empty(), false),
            whole == followed(tokens_of(tokens@), lexed(chars@.skip(i as int), word@, begun)),
        decreases chars@.len() - i,
    {
        let c = chars[i];
        let ghost rest = chars@.skip(i as int);
        let ghost done = tokens_of(tokens@);
        let ghost word_before = word@;
        if c == '\'' || c == '"' {
            assert(rest.skip(1) =~= chars@.skip(i + 1));
            let end = find_char(chars, i + 1, c);
            if end >= chars.len() {
                assert(done + Seq::<Token<Seq<char>>>::empty() =~= done);
                return (tokens, Some(ParseError::UnterminatedQuote));
            }
            word.append(text_between(chars, i + 1, end).as_str());
            proof {
                let n = end - (i + 1);
                assert(rest.subrange(1, n + 1) =~= chars@.subrange(i + 1, end as int));
                assert(rest.skip(n + 2) =~= chars@.skip(end + 1));
            }
            begun = true;
            i = end + 1;
        } else if c == '\\' {
            if i + 1 >= chars.len() {
                assert(done + Seq::<Token<Seq<char>>>::empty() =~= done);
                return (tokens, Some(ParseError::TrailingEscape));
            }
            word.push(chars[i + 1]);
            assert(rest.skip(2) =~= chars@.skip(i + 2));
            begun = true;
            i += 2;
        } else {
            let operator = if i + 1 < chars.len() && c == '&' && chars[i + 1] == '&' {
                Some(Join::And)
            } else if i + 1 < chars.len() && c == '|' && chars[i + 1] == '|' {
                Some(Join::Or)
            } else {
                None
            };
            assert(operator == leading_operator(rest));
            let blank = c == ' ' || c == '\t' || c == '\n';
            if !blank && c != ';' && operator.is_none() {
                word.push(c);
                assert(rest.skip(1) =~= chars@.skip(i + 1));
                begun = true;
                i += 1;
            } else {
                let ghost begun_before = begun;
                let ended = word;
                word = String::new();
                if begun {
                    tokens.push(Token::Word(ended));
                }
                begun = false;
                assert(tokens_of(tokens@) =~= done + finished(word_before, begun_before));
                let ghost flushed = tokens_of(tokens@);
                if blank {
                    assert(rest.skip(1) =~= chars@.skip(i + 1));
                    i += 1;
                } else if c == ';' {
                    tokens.push(Token::Semicolon);
                    assert(tokens_of(tokens@) =~= flushed.push(Token::Semicolon));
                    assert(rest.skip(1) =~= chars@.skip(i + 1));
                    i += 1;
                } else {
                    if let Some(join) = operator {
                        tokens.push(Token::Operator(join));
                        assert(tokens_of(tokens@) =~= flushed.push(Token::Operator(join)));
                    }
                    assert(rest.skip(2) =~= chars@.skip(i + 2));
                    i += 2;
                }
                proof {
                    let tail = lexed(chars@.skip(i as int), Seq::empty(), false);
                    assert(word@ =~= Seq::<char>::empty());
                    assert(whole.0 =~= tokens_of(tokens@) + tail.0);
                }
            }
        }
    }
    assert(chars@.skip(i as int) =~= Seq::<char>::empty());
    let ghost last = word@;
    let ghost done = tokens_of(tokens@);
    if begun {
        tokens.push(Token::Word(word));
    }
    assert(tokens_of(tokens@) =~= done + finished(last, begun));
    (tokens, None)
}

/// The commands that a list of tokens stands for, where a lexical error may
/// follow it.
fn group(tokens: Vec<Token>, error: Option<ParseError>) -> (r: Result<Vec<Command>, ParseError>)
    ensures
        match grouped(tokens_of(tokens@), error, Join::Always, Seq::empty()) {
            Ok(commands) => r matches Ok(list) && commands_of(list@) == commands,
            Err(e) => r == Err::<Vec<Command>, _>(e),
        },
{
    let ghost all = tokens_of(tokens@);
    let ghost whole = grouped(all, error, Join::Always, Seq::empty());
    let mut commands: Vec<Command> = Vec::new();
    let mut words: Vec<String> = Vec::new();
    let mut join = Join::Always;
    let mut i: usize = 0;
    proof {
        assert(all.skip(0) =~= all);
        assert(texts(words@) =~= Seq::<Seq<char>>::empty());
        assert(commands_of(commands@) =~= Seq::<CommandView>::empty());
        if let Ok(list) = whole {
            assert(Seq::<CommandView>::empty() + list =~= list);
        }
    }
    while i < tokens.len()
        invariant
            0 <= i <= tokens@.len(),
            all == tokens_of(tokens@),
            whole == grouped(all, error, Join::Always, Seq::empty()),
            whole == before(
                commands_of(commands@),
                grouped(all.skip(i as int), error, join, texts(words@)),
            ),
        decreases tokens@.len() - i,
    {
        let ghost rest = all.skip(i as int);
        let ghost done = commands_of(commands@);
        let ghost current = texts(words@);
        assert(rest.skip(1) =~= all.skip(i + 1));
        assert(rest[0] == tokens@[i as int]@);
        match &tokens[i] {
            Token::Word(word) => {
                words.push(word.clone());
                assert(texts(words@) =~= current.push(word@));
            },
            Token::Semicolon => {
                if words.len() == 0 {
                    if join != Join::Always {
                        return Err(ParseError::OperatorWithoutCommand);
                    }
                } else {
                    let finished_words = words;
                    words = Vec::new();
                    let command = Command { join, words: finished_words };
                    let ghost view = command@;
                    commands.push(command);
                    join = Join::Always;
                    proof {
                        lemma_before(done, view, grouped(all.skip(i + 1), error, Join::Always, Seq::empty()));
                        assert(commands_of(commands@) =~= done.push(view));
                        assert(texts(words@) =~= Seq::<Seq<char>>::empty());
                    }
                }
            },
            Token::Operator(next) => {
                if words.len() == 0 {
                    return Err(ParseError::OperatorWithoutCommand);
                }
                let finished_words = words;
                words = Vec::new();
                let command = Command { join, words: finished_words };
                let ghost view = command@;
                commands.push(command);
                join = *next;
                proof {
                    lemma_before(done, view, grouped(all.skip(i + 1), error, *next, Seq::empty()));
                    assert(commands_of(commands@) =~= done.push(view));
                    assert(texts(words@) =~= Seq::<Seq<char>>::empty());
                }
            },
        }
        i += 1;
    }
    assert(all.skip(i as int) =~= Seq::<Token<Seq<char>>>::empty());
    let ghost done = commands_of(commands@);
    if let Some(e) = error {
        return Err(e);
    }
    if words.len() == 0 && join != Join::Always {
        return Err(ParseError::OperatorWithoutCommand);
    }
    if words.len() > 0 {
        let command = Command { join, words };
        let ghost view = command@;
        commands.push(command);
        assert(commands_of(commands@) =~= done + seq![view]);
    } else {
        assert(done + Seq::<CommandView>::empty() =~= done);
    }
    Ok(commands)
}

/// Putting one command and then others before a result.
proof fn lemma_before(
    done: Seq<CommandView>,
    command: CommandView,
    rest: Result<Seq<CommandView>, ParseError>,
)
    ensures
        before(done, before(seq![command], rest)) == before(done.push(command), rest),
{
    if let Ok(list) = rest {
        assert(done + (seq![command] + list) =~= done.push(command) + list);
    }
}

/// The commands of a script.
pub fn parse(input: &str) -> (r: Result<Vec<Command>, ParseError>)
    ensures
        match script_commands(input@) {
            Ok(commands) => r matches Ok(list) && commands_of(list@) == commands,
            Err(error) => r == Err::<Vec<Command>, _>(error),
        },
{
    let chars = read_script(input);
    let (tokens, error) = lex(&chars);
    group(tokens, error)
}

} // verus!
