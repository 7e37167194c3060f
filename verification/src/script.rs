//! The line language that drives the executor, for scripts and for the
//! interactive prompt, and the bookkeeping of a script run.

use vstd::prelude::*;
use crate::commands::{
    control_post, transmit_post, CommandExecutor, CommandResultView, ControlResult, TransmitResult,
};
use crate::control::{parse_control_code, parse_control_code_spec};
use crate::error::Error;
use crate::reader::PcscReader;
use crate::text::{
    char_is_whitespace, is_whitespace, owned, range_is_word, string_from_range, to_ascii_lower,
    to_chars, trim, trim_bounds,
};

verus! {

/// The number of characters at the front of `s` that are not whitespace.
pub open spec fn token_len(s: Seq<char>) -> nat
    decreases s.len(),
{
    if s.len() > 0 && !is_whitespace(s[0]) {
        1 + token_len(s.skip(1))
    } else {
        0
    }
}

/// The words of `s`: its longest runs of characters that are not
/// whitespace, in order.
pub open spec fn tokens(s: Seq<char>) -> Seq<Seq<char>>
    decreases s.len(),
{
    if s.len() == 0 {
        Seq::empty()
    } else if is_whitespace(s[0]) {
        tokens(s.skip(1))
    } else {
        proof {
            lemma_token_len_bound(s);
        }
        seq![s.take(token_len(s) as int)] + tokens(s.skip(token_len(s) as int))
    }
}

pub proof fn lemma_token_len_bound(s: Seq<char>)
    ensures
        token_len(s) <= s.len(),
        s.len() > 0 && !is_whitespace(s[0]) ==> token_len(s) >= 1,
    decreases s.len(),
{
    if s.len() > 0 && !is_whitespace(s[0]) {
        lemma_token_len_bound(s.skip(1));
    }
}

/// A run of `n` characters that are not whitespace at the front, followed by
/// the end of the text or by whitespace, is the first word.
proof fn lemma_token_len_is(s: Seq<char>, n: int)
    requires
        0 <= n <= s.len(),
        forall|i: int| 0 <= i < n ==> !is_whitespace(#[trigger] s[i]),
        n < s.len() ==> is_whitespace(s[n]),
    ensures
        token_len(s) == n,
    decreases s.len(),
{
    if n > 0 {
        let rest = s.skip(1);
        assert(!is_whitespace(s[0]));
        assert forall|i: int| 0 <= i < n - 1 implies !is_whitespace(#[trigger] rest[i]) by {
            assert(rest[i] == s[i + 1]);
        }
        lemma_token_len_is(rest, n - 1);
    }
}

/// Tells whether a line holds no command: it is blank, or its first
/// character after leading whitespace is `#`, or it begins there with `//`.
pub open spec fn is_skipped(line: Seq<char>) -> bool {
    let t = trim(line);
    t.len() == 0 || t[0] == '#' || (t.len() >= 2 && t[0] == '/' && t[1] == '/')
}

/// A command of the line language.
#[derive(Debug, Clone, PartialEq, Eq)]
pub enum Command {
    /// Send the APDU that `apdu` spells.
    Transmit { apdu: String },
    /// Send the control command that `code` spells, with the data that
    /// `data` spells; `data` is empty where the line gave none.
    Control { code: String, data: String },
}

/// What the operator may ask for at the prompt.
#[derive(Debug, Clone, PartialEq, Eq)]
pub enum PromptCommand {
    /// Execute a command of the line language.
    Execute(Command),
    /// Show the history.
    History,
    /// Empty the history.
    Clear,
    /// Show the commands.
    Help,
    /// Leave the prompt.
    Quit,
}

/// The mathematical content of a `Command`.
pub ghost enum CommandView {
    Transmit { apdu: Seq<char> },
    Control { code: Seq<char>, data: Seq<char> },
}

/// The mathematical content of a `PromptCommand`.
pub ghost enum PromptView {
    Execute(CommandView),
    History,
    Clear,
    Help,
    Quit,
}

impl View for Command {
    type V = CommandView;

    open spec fn view(&self) -> CommandView {
        match *self {
            Command::Transmit { apdu } => CommandView::Transmit { apdu: apdu@ },
            Command::Control { code, data } => CommandView::Control { code: code@, data: data@ },
        }
    }
}

impl View for PromptCommand {
    type V = PromptView;

    open spec fn view(&self) -> PromptView {
        match *self {
            PromptCommand::Execute(command) => PromptView::Execute(command@),
            PromptCommand::History => PromptView::History,
            PromptCommand::Clear => PromptView::Clear,
            PromptCommand::Help => PromptView::Help,
            PromptCommand::Quit => PromptView::Quit,
        }
    }
}

/// What a line is read as.
pub ghost enum LineView {
    /// Nothing to do: a blank line or a comment.
    Skip,
    /// A request.
    Run(PromptView),
    /// A first word that is no command.
    Unknown(Seq<char>),
    /// A command without its required argument; holds the command's name.
    Missing(Seq<char>),
}

/// The word of `words` at `index`, or no text where there are fewer words.
pub open spec fn argument(words: Seq<Seq<char>>, index: int) -> Seq<char> {
    if index < words.len() {
        words[index]
    } else {
        Seq::empty()
    }
}

/// How a line reads. The first word picks the command, whatever the case of
/// its ASCII letters; the second word is the APDU or the control code, and
/// the third, if there is one, the data of a control command. With
/// `interactive` the one-letter forms `t` and `c` are taken as well, and so
/// are the words of the prompt: `history`, `clear`, `help` or `h`, and `quit`,
/// `exit` or `q`.
pub open spec fn read_line(line: Seq<char>, interactive: bool) -> LineView {
    if is_skipped(line) {
        LineView::Skip
    } else {
        let words = tokens(line);
        let verb = to_ascii_lower(argument(words, 0));
        if verb == "transmit"@ || (interactive && verb == "t"@) {
            if words.len() < 2 {
                LineView::Missing("transmit"@)
            } else {
                LineView::Run(PromptView::Execute(CommandView::Transmit { apdu: words[1] }))
            }
        } else if verb == "control"@ || (interactive && verb == "c"@) {
            if words.len() < 2 {
                LineView::Missing("control"@)
            } else {
                LineView::Run(
                    PromptView::Execute(
                        CommandView::Control { code: words[1], data: argument(words, 2) },
                    ),
                )
            }
        } else if interactive && verb == "history"@ {
            LineView::Run(PromptView::History)
        } else if interactive && verb == "clear"@ {
            LineView::Run(PromptView::Clear)
        } else if interactive && (verb == "help"@ || verb == "h"@) {
            LineView::Run(PromptView::Help)
        } else if interactive && (verb == "quit"@ || verb == "exit"@ || verb == "q"@) {
            LineView::Run(PromptView::Quit)
        } else {
            LineView::Unknown(argument(words, 0))
        }
    }
}

/// The bounds of the first word of `chars` at or after `from`.
fn next_token(chars: &Vec<char>, from: usize) -> (r: Option<(usize, usize)>)
    requires
        from <= chars.len(),
    ensures
        match r {
            None => tokens(chars@.skip(from as int)) == Seq::<Seq<char>>::empty(),
            Some((a, b)) => from <= a < b <= chars.len() && tokens(chars@.skip(from as int))
                == seq![chars@.subrange(a as int, b as int)] + tokens(chars@.skip(b as int)),
        },
{
    let ghost s = chars@;
    let n = chars.len();
    let mut a: usize = from;
    while a < n && char_is_whitespace(chars[a])
        invariant
            from <= a <= n == chars.len(),
            s == chars@,
            tokens(s.skip(a as int)) == tokens(s.skip(from as int)),
        decreases n - a,
    {
        proof {
            let rest = s.skip(a as int);
            assert(rest[0] == s[a as int]);
            assert(rest.skip(1) == s.skip(a + 1));
        }
        a += 1;
    }
    if a == n {
        assert(s.skip(a as int).len() == 0);
        return None;
    }
    let mut b: usize = a + 1;
    while b < n && !char_is_whitespace(chars[b])
        invariant
            a < b <= n == chars.len(),
            s == chars@,
            forall|i: int| a <= i < b ==> !is_whitespace(#[trigger] s[i]),
        decreases n - b,
    {
        b += 1;
    }
    proof {
        let rest = s.skip(a as int);
        assert(rest[0] == s[a as int]);
        assert forall|i: int| 0 <= i < b - a implies !is_whitespace(#[trigger] rest[i]) by {
            assert(rest[i] == s[a + i]);
        }
        if b < n {
            assert(rest[b - a] == s[b as int]);
        }
        lemma_token_len_is(rest, b - a);
        assert(rest.take(b - a) == s.subrange(a as int, b as int));
        assert(rest.skip(b - a) == s.skip(b as int));
    }
    Some((a, b))
}

/// Reads one line as `read_line` states it.
fn parse_words(line: &str, interactive: bool) -> (r: Result<Option<PromptCommand>, Error>)
    ensures
        match read_line(line@, interactive) {
            LineView::Skip => r matches Ok(None),
            LineView::Run(command) => r matches Ok(Some(c)) && c@ == command,
            LineView::Unknown(word) => r matches Err(Error::UnknownCommand(w)) && w@ == word,
            LineView::Missing(name) => r matches Err(Error::MissingArgument(n)) && n@ == name,
        },
{
    let chars = to_chars(line);
    let (from, to) = trim_bounds(&chars);
    let ghost t = chars@.subrange(from as int, to as int);
    if from == to {
        return Ok(None);
    }
    assert(t[0] == chars@[from as int]);
    if chars[from] == '#' {
        return Ok(None);
    }
    if to - from >= 2 {
        assert(t[1] == chars@[from + 1]);
        if chars[from] == '/' && chars[from + 1] == '/' {
            return Ok(None);
        }
    }
    assert(chars@.skip(0) == chars@);
    let ghost words = tokens(chars@);
    let (a0, b0) = match next_token(&chars, 0) {
        Some(bounds) => bounds,
        None => {
            proof {
                reveal_strlit("transmit");
                reveal_strlit("control");
                reveal_strlit("t");
                reveal_strlit("c");
                reveal_strlit("history");
                reveal_strlit("clear");
                reveal_strlit("help");
                reveal_strlit("h");
                reveal_strlit("quit");
                reveal_strlit("exit");
                reveal_strlit("q");
                assert(to_ascii_lower(argument(words, 0)).len() == 0);
            }
            return Err(Error::UnknownCommand(String::new()));
        },
    };
    assert(words[0] == chars@.subrange(a0 as int, b0 as int));
    let second = next_token(&chars, b0);
    let ghost rest = tokens(chars@.skip(b0 as int));
    assert(words == seq![words[0]] + rest);
    let is_transmit = range_is_word(&chars, a0, b0, "transmit") || (interactive && range_is_word(
        &chars,
        a0,
        b0,
        "t",
    ));
    if is_transmit {
        return match second {
            Some((a1, b1)) => {
                assert(words[1] == chars@.subrange(a1 as int, b1 as int));
                Ok(
                    Some(
                        PromptCommand::Execute(
                            Command::Transmit { apdu: string_from_range(&chars, a1, b1) },
                        ),
                    ),
                )
            },
            None => Err(Error::MissingArgument(owned("transmit"))),
        };
    }
    let is_control = range_is_word(&chars, a0, b0, "control") || (interactive && range_is_word(
        &chars,
        a0,
        b0,
        "c",
    ));
    if is_control {
        return match second {
            Some((a1, b1)) => {
                assert(words[1] == chars@.subrange(a1 as int, b1 as int));
                let code = string_from_range(&chars, a1, b1);
                let third = next_token(&chars, b1);
                let ghost tail = tokens(chars@.skip(b1 as int));
                assert(rest == seq![words[1]] + tail);
                let data = match third {
                    Some((a2, b2)) => {
                        assert(words[2] == chars@.subrange(a2 as int, b2 as int));
                        string_from_range(&chars, a2, b2)
                    },
                    None => String::new(),
                };
                Ok(Some(PromptCommand::Execute(Command::Control { code, data })))
            },
            None => Err(Error::MissingArgument(owned("control"))),
        };
    }
    if interactive {
        if range_is_word(&chars, a0, b0, "history") {
            return Ok(Some(PromptCommand::History));
        }
        if range_is_word(&chars, a0, b0, "clear") {
            return Ok(Some(PromptCommand::Clear));
        }
        if range_is_word(&chars, a0, b0, "help") || range_is_word(&chars, a0, b0, "h") {
            return Ok(Some(PromptCommand::Help));
        }
        if range_is_word(&chars, a0, b0, "quit") || range_is_word(&chars, a0, b0, "exit")
            || range_is_word(&chars, a0, b0, "q") {
            return Ok(Some(PromptCommand::Quit));
        }
    }
    Err(Error::UnknownCommand(string_from_range(&chars, a0, b0)))
}

/// Reads one line of a script. A blank line or a comment gives nothing to
/// do. The first word picks the command, `transmit` or `control`, whatever
/// the case of its letters; any other first word is refused with the word
/// named, and a command without its required argument with the command
/// named.
pub fn parse_line(line: &str) -> (r: Result<Option<Command>, Error>)
    ensures
        match read_line(line@, false) {
            LineView::Skip => r matches Ok(None),
            LineView::Run(request) => r matches Ok(Some(c)) && PromptView::Execute(c@) == request,
            LineView::Unknown(word) => r matches Err(Error::UnknownCommand(w)) && w@ == word,
            LineView::Missing(name) => r matches Err(Error::MissingArgument(n)) && n@ == name,
        },
{
    match parse_words(line, false) {
        Ok(Some(PromptCommand::Execute(command))) => Ok(Some(command)),
        Ok(_) => Ok(None),
        Err(e) => Err(e),
    }
}

/// Reads one line of the prompt. Beside the commands of a script, with `t`
/// and `c` as short forms, the prompt takes `history`, `clear`, `help` or
/// `h`, and `quit`, `exit` or `q`.
pub fn parse_prompt_line(line: &str) -> (r: Result<Option<PromptCommand>, Error>)
    ensures
        match read_line(line@, true) {
            LineView::Skip => r matches Ok(None),
            LineView::Run(request) => r matches Ok(Some(c)) && c@ == request,
            LineView::Unknown(word) => r matches Err(Error::UnknownCommand(w)) && w@ == word,
            LineView::Missing(name) => r matches Err(Error::MissingArgument(n)) && n@ == name,
        },
{
    parse_words(line, true)
}

/// What a command gave when it was executed.
#[derive(Debug, Clone)]
pub enum Executed {
    Transmit(TransmitResult),
    Control(ControlResult),
}

/// What `execute_command` promises. A transmit command goes the way of
/// `CommandExecutor::transmit`. The code of a control command is parsed
/// first: a code that does not parse is refused before anything is sent or
/// recorded, and with a code the command goes the way of
/// `CommandExecutor::control`.
pub open spec fn execute_post<
    C,
    F: FnOnce(&C, &Vec<u8>) -> Result<Vec<u8>, String>,
    G: FnOnce(&C, u32, &Vec<u8>) -> Result<Vec<u8>, String>,
>(
    before: Seq<CommandResultView>,
    after: Seq<CommandResultView>,
    r: Result<Executed, Error>,
    handle: Option<C>,
    command: CommandView,
    send_apdu: F,
    send_control: G,
) -> bool {
    match command {
        CommandView::Transmit { apdu } => match r {
            Ok(Executed::Transmit(result)) => transmit_post(
                before,
                after,
                Ok(result),
                handle,
                apdu,
                send_apdu,
            ),
            Ok(Executed::Control(_)) => false,
            Err(e) => transmit_post(before, after, Err(e), handle, apdu, send_apdu),
        },
        CommandView::Control { code, data } => match parse_control_code_spec(code) {
            None => r matches Err(Error::InvalidControlCode(input)) && input@ == code && after
                == before,
            Some(number) => match r {
                Ok(Executed::Control(result)) => control_post(
                    before,
                    after,
                    Ok(result),
                    handle,
                    number as u32,
                    data,
                    send_control,
                ),
                Ok(Executed::Transmit(_)) => false,
                Err(e) => control_post(
                    before,
                    after,
                    Err(e),
                    handle,
                    number as u32,
                    data,
                    send_control,
                ),
            },
        },
    }
}

/// Executes a command of the line language against the live connection of
/// `reader`. Of the two senders the one for the command's kind is called, at
/// most once, and only after the command has passed every check.
pub fn execute_command<X, C, F, G>(
    executor: &mut CommandExecutor,
    reader: &PcscReader<X, C>,
    command: &Command,
    send_apdu: F,
    send_control: G,
) -> (r: Result<Executed, Error>) where
    F: FnOnce(&C, &Vec<u8>) -> Result<Vec<u8>, String>,
    G: FnOnce(&C, u32, &Vec<u8>) -> Result<Vec<u8>, String>,

    requires
        forall|card: &C, apdu: &Vec<u8>| #[trigger] send_apdu.requires((card, apdu)),
        forall|card: &C, code: u32, data: &Vec<u8>| #[trigger]
            send_control.requires((card, code, data)),
    ensures
        execute_post(
            old(executor)@,
            final(executor)@,
            r,
            reader.handle(),
            command@,
            send_apdu,
            send_control,
        ),
{
    match command {
        Command::Transmit { apdu } => {
            match executor.transmit(reader, apdu.as_str(), send_apdu) {
                Ok(result) => Ok(Executed::Transmit(result)),
                Err(e) => Err(e),
            }
        },
        Command::Control { code, data } => {
            let number = match parse_control_code(code.as_str()) {
                Ok(number) => number,
                Err(e) => {
                    return Err(e);
                },
            };
            match executor.control(reader, number, data.as_str(), send_control) {
                Ok(result) => Ok(Executed::Control(result)),
                Err(e) => Err(e),
            }
        },
    }
}

/// What the runner asks of its caller for one line of a script.
#[derive(Debug)]
pub enum LineAction {
    /// The run has stopped at an earlier line; this line is not read.
    Halted,
    /// The line is blank or a comment.
    Skip,
    /// The line holds this command; the caller executes it and reports how
    /// it ended.
    Run(Command),
    /// The line could not be read; it has been counted as an error.
    Failed(Error),
}

/// The state of a script run.
pub ghost struct RunView {
    /// Whether the run goes on after a line that failed.
    pub continue_on_error: bool,
    /// The number of lines read so far, comments and blank lines included.
    pub line_number: nat,
    /// The number of lines that failed.
    pub errors: nat,
    /// The line at which the run stopped, where it has stopped.
    pub halted_at: Option<nat>,
    /// Whether the command of the last line still awaits its report.
    pub pending: bool,
}

/// The state after a line that failed: one more error, and the run stops at
/// this line unless it is to go on after errors.
pub open spec fn after_failure(run: RunView) -> RunView {
    RunView {
        errors: run.errors + 1,
        halted_at: if run.continue_on_error {
            run.halted_at
        } else {
            Some(run.line_number)
        },
        pending: false,
        ..run
    }
}

/// The state after the next line has been read as `line`.
pub open spec fn after_line(run: RunView, line: LineView) -> RunView {
    let read = RunView { line_number: run.line_number + 1, pending: false, ..run };
    if run.halted_at is Some {
        run
    } else {
        match line {
            LineView::Skip => read,
            LineView::Run(_) => RunView { pending: true, ..read },
            _ => after_failure(read),
        }
    }
}

/// The state after the command of the last line has been reported.
pub open spec fn after_report(run: RunView, succeeded: bool) -> RunView {
    if !run.pending {
        run
    } else if succeeded {
        RunView { pending: false, ..run }
    } else {
        after_failure(run)
    }
}

/// The bookkeeping of a script run: it numbers the lines from 1, counts the
/// lines that failed, and stops the run at the first failure unless it was
/// told to go on.
pub struct ScriptRunner {
    continue_on_error: bool,
    line_number: usize,
    errors: usize,
    halted_at: Option<usize>,
    pending: bool,
}

impl View for ScriptRunner {
    type V = RunView;

    closed spec fn view(&self) -> RunView {
        RunView {
            continue_on_error: self.continue_on_error,
            line_number: self.line_number as nat,
            errors: self.errors as nat,
            halted_at: match self.halted_at {
                Some(line) => Some(line as nat),
                None => None,
            },
            pending: self.pending,
        }
    }
}

impl ScriptRunner {
    /// No more lines have failed than were read, and a line whose command
    /// awaits its report has not been counted yet.
    #[verifier::type_invariant]
    closed spec fn well_formed(self) -> bool {
        self.errors + (if self.pending {
            1int
        } else {
            0int
        }) <= self.line_number
    }

    /// A run that has read no line yet.
    pub fn new(continue_on_error: bool) -> (runner: Self)
        ensures
            runner@ == (RunView {
                continue_on_error,
                line_number: 0,
                errors: 0,
                halted_at: None,
                pending: false,
            }),
    {
        ScriptRunner { continue_on_error, line_number: 0, errors: 0, halted_at: None, pending: false }
    }

    /// The number of lines read so far.
    pub fn line_number(&self) -> (n: usize)
        ensures
            n == self@.line_number,
    {
        self.line_number
    }

    /// The number of lines that failed so far.
    pub fn errors(&self) -> (n: usize)
        ensures
            n == self@.errors,
            n <= self@.line_number,
    {
        proof {
            use_type_invariant(self);
        }
        self.errors
    }

    /// The line at which the run stopped, where it has stopped.
    pub fn halted_at(&self) -> (line: Option<usize>)
        ensures
            match line {
                Some(n) => self@.halted_at == Some(n as nat),
                None => self@.halted_at is None,
            },
    {
        self.halted_at
    }

    /// Counts a failure of the line just read.
    fn fail(&mut self)
        requires
            old(self).errors + 1 <= old(self).line_number,
        ensures
            final(self)@ == after_failure(old(self)@),
    {
        let halted_at = if self.continue_on_error {
            self.halted_at
        } else {
            Some(self.line_number)
        };
        *self = ScriptRunner {
            continue_on_error: self.continue_on_error,
            line_number: self.line_number,
            errors: self.errors + 1,
            halted_at,
            pending: false,
        };
    }

    /// Reads the next line of the script. Every line is numbered, comments
    /// and blank lines too. A line that cannot be read counts as a failure
    /// at once; a command is handed to the caller, who reports how it ended.
    /// Once the run has stopped, no further line is read or numbered.
    pub fn next_line(&mut self, line: &str) -> (action: LineAction)
        requires
            old(self)@.line_number < usize::MAX,
        ensures
            final(self)@ == after_line(old(self)@, read_line(line@, false)),
            old(self)@.halted_at is Some ==> action is Halted,
            old(self)@.halted_at is None ==> match read_line(line@, false) {
                LineView::Skip => action is Skip,
                LineView::Run(request) => action matches LineAction::Run(c) && PromptView::Execute(
                    c@,
                ) == request,
                LineView::Unknown(word) => action matches LineAction::Failed(
                    Error::UnknownCommand(w),
                ) && w@ == word,
                LineView::Missing(name) => action matches LineAction::Failed(
                    Error::MissingArgument(n),
                ) && n@ == name,
            },
    {
        proof {
            use_type_invariant(&*self);
        }
        if self.halted_at.is_some() {
            return LineAction::Halted;
        }
        let parsed = parse_line(line);
        let pending = match &parsed {
            Ok(Some(_)) => true,
            _ => false,
        };
        *self = ScriptRunner {
            continue_on_error: self.continue_on_error,
            line_number: self.line_number + 1,
            errors: self.errors,
            halted_at: self.halted_at,
            pending,
        };
        match parsed {
            Ok(None) => LineAction::Skip,
            Ok(Some(command)) => LineAction::Run(command),
            Err(e) => {
                self.fail();
                LineAction::Failed(e)
            },
        }
    }

    /// Takes the report of the command that `next_line` handed out: a
    /// success changes no count, a failure is counted and stops the run
    /// unless it is to go on after errors. Without a command that awaits its
    /// report nothing changes.
    pub fn report(&mut self, succeeded: bool)
        ensures
            final(self)@ == after_report(old(self)@, succeeded),
    {
        proof {
            use_type_invariant(&*self);
        }
        if !self.pending {
            return ;
        }
        if succeeded {
            *self = ScriptRunner {
                continue_on_error: self.continue_on_error,
                line_number: self.line_number,
                errors: self.errors,
                halted_at: self.halted_at,
                pending: false,
            };
        } else {
            self.fail();
        }
    }

    /// Runs the next line of the script: reads it as `next_line` does,
    /// executes its command as `execute_command` does, and takes the report
    /// of how it ended. Once the run has stopped, the line is neither read
    /// nor executed.
    pub fn run_line<X, C, F, G>(
        &mut self,
        executor: &mut CommandExecutor,
        reader: &PcscReader<X, C>,
        line: &str,
        send_apdu: F,
        send_control: G,
    ) -> (outcome: LineOutcome) where
        F: FnOnce(&C, &Vec<u8>) -> Result<Vec<u8>, String>,
        G: FnOnce(&C, u32, &Vec<u8>) -> Result<Vec<u8>, String>,

        requires
            old(self)@.line_number < usize::MAX,
            forall|card: &C, apdu: &Vec<u8>| #[trigger] send_apdu.requires((card, apdu)),
            forall|card: &C, code: u32, data: &Vec<u8>| #[trigger]
                send_control.requires((card, code, data)),
        ensures
            run_line_post(
                old(self)@,
                final(self)@,
                old(executor)@,
                final(executor)@,
                outcome,
                reader.handle(),
                read_line(line@, false),
                send_apdu,
                send_control,
            ),
    {
        match self.next_line(line) {
            LineAction::Halted => LineOutcome::Halted,
            LineAction::Skip => LineOutcome::Skipped,
            LineAction::Failed(e) => LineOutcome::Failed(e),
            LineAction::Run(command) => {
                match execute_command(executor, reader, &command, send_apdu, send_control) {
                    Ok(done) => {
                        self.report(true);
                        LineOutcome::Done(done)
                    },
                    Err(e) => {
                        self.report(false);
                        LineOutcome::Failed(e)
                    },
                }
            },
        }
    }
}

/// How one line of a script ended.
#[derive(Debug)]
pub enum LineOutcome {
    /// The run had stopped before; the line was not read.
    Halted,
    /// The line was blank or a comment.
    Skipped,
    /// The line's command was executed.
    Done(Executed),
    /// The line could not be read, or its command failed.
    Failed(Error),
}

/// What `run_line` promises of the line that reads as `line`.
pub open spec fn run_line_post<
    C,
    F: FnOnce(&C, &Vec<u8>) -> Result<Vec<u8>, String>,
    G: FnOnce(&C, u32, &Vec<u8>) -> Result<Vec<u8>, String>,
>(
    run_before: RunView,
    run_after: RunView,
    before: Seq<CommandResultView>,
    after: Seq<CommandResultView>,
    outcome: LineOutcome,
    handle: Option<C>,
    line: LineView,
    send_apdu: F,
    send_control: G,
) -> bool {
    if run_before.halted_at is Some {
        outcome is Halted && run_after == run_before && after == before
    } else {
        match line {
            LineView::Skip => outcome is Skipped && run_after == after_line(run_before, line)
                && after == before,
            LineView::Unknown(word) => outcome matches LineOutcome::Failed(
                Error::UnknownCommand(w),
            ) && w@ == word && run_after == after_line(run_before, line) && after == before,
            LineView::Missing(name) => outcome matches LineOutcome::Failed(
                Error::MissingArgument(n),
            ) && n@ == name && run_after == after_line(run_before, line) && after == before,
            LineView::Run(PromptView::Execute(command)) => match outcome {
                LineOutcome::Done(done) => execute_post(
                    before,
                    after,
                    Ok(done),
                    handle,
                    command,
                    send_apdu,
                    send_control,
                ) && run_after == after_report(after_line(run_before, line), true),
                LineOutcome::Failed(e) => execute_post(
                    before,
                    after,
                    Err(e),
                    handle,
                    command,
                    send_apdu,
                    send_control,
                ) && run_after == after_report(after_line(run_before, line), false),
                _ => false,
            },
            LineView::Run(_) => false,
        }
    }
}


/// How one line of the prompt ended.
#[derive(Debug)]
pub enum PromptOutcome {
    /// The line was blank or a comment.
    Nothing,
    /// The operator leaves the prompt.
    Quit,
    /// The commands are to be shown.
    Help,
    /// The history is to be shown.
    History,
    /// The history has been emptied.
    Cleared,
    /// The line's command was executed.
    Done(Executed),
    /// The line could not be read, or its command failed.
    Failed(Error),
}

/// What `run_prompt_line` promises of the line that reads as `line`. Only a
/// command that is sent and the word `clear` change the history.
pub open spec fn prompt_line_post<
    C,
    F: FnOnce(&C, &Vec<u8>) -> Result<Vec<u8>, String>,
    G: FnOnce(&C, u32, &Vec<u8>) -> Result<Vec<u8>, String>,
>(
    before: Seq<CommandResultView>,
    after: Seq<CommandResultView>,
    outcome: PromptOutcome,
    handle: Option<C>,
    line: LineView,
    send_apdu: F,
    send_control: G,
) -> bool {
    match line {
        LineView::Skip => outcome is Nothing && after == before,
        LineView::Unknown(word) => outcome matches PromptOutcome::Failed(Error::UnknownCommand(w))
            && w@ == word && after == before,
        LineView::Missing(name) => outcome matches PromptOutcome::Failed(
            Error::MissingArgument(n),
        ) && n@ == name && after == before,
        LineView::Run(PromptView::Quit) => outcome is Quit && after == before,
        LineView::Run(PromptView::Help) => outcome is Help && after == before,
        LineView::Run(PromptView::History) => outcome is History && after == before,
        LineView::Run(PromptView::Clear) => outcome is Cleared && after == Seq::<
            CommandResultView,
        >::empty(),
        LineView::Run(PromptView::Execute(command)) => match outcome {
            PromptOutcome::Done(done) => execute_post(
                before,
                after,
                Ok(done),
                handle,
                command,
                send_apdu,
                send_control,
            ),
            PromptOutcome::Failed(e) => execute_post(
                before,
                after,
                Err(e),
                handle,
                command,
                send_apdu,
                send_control,
            ),
            _ => false,
        },
    }
}

/// Runs one line of the prompt: reads it as `parse_prompt_line` does,
/// executes a command as `execute_command` does, and empties the history on
/// `clear`. What is to be shown, and that the operator leaves, is handed to
/// the caller.
pub fn run_prompt_line<X, C, F, G>(
    executor: &mut CommandExecutor,
    reader: &PcscReader<X, C>,
    line: &str,
    send_apdu: F,
    send_control: G,
) -> (outcome: PromptOutcome) where
    F: FnOnce(&C, &Vec<u8>) -> Result<Vec<u8>, String>,
    G: FnOnce(&C, u32, &Vec<u8>) -> Result<Vec<u8>, String>,

    requires
        forall|card: &C, apdu: &Vec<u8>| #[trigger] send_apdu.requires((card, apdu)),
        forall|card: &C, code: u32, data: &Vec<u8>| #[trigger]
            send_control.requires((card, code, data)),
    ensures
        prompt_line_post(
            old(executor)@,
            final(executor)@,
            outcome,
            reader.handle(),
            read_line(line@, true),
            send_apdu,
            send_control,
        ),
{
    match parse_prompt_line(line) {
        Ok(None) => PromptOutcome::Nothing,
        Ok(Some(PromptCommand::Quit)) => PromptOutcome::Quit,
        Ok(Some(PromptCommand::Help)) => PromptOutcome::Help,
        Ok(Some(PromptCommand::History)) => PromptOutcome::History,
        Ok(Some(PromptCommand::Clear)) => {
            executor.clear_history();
            PromptOutcome::Cleared
        },
        Ok(Some(PromptCommand::Execute(command))) => {
            match execute_command(executor, reader, &command, send_apdu, send_control) {
                Ok(done) => PromptOutcome::Done(done),
                Err(e) => PromptOutcome::Failed(e),
            }
        },
        Err(e) => PromptOutcome::Failed(e),
    }
}

} // verus!
