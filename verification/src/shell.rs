//! What the shell decides: how a line of input is read, which privacy
//! choices a reply names, where a `join` goes, and what is done at start.
//! Reading the lines and carrying the decisions out is the program's part.

use vstd::prelude::*;
use vstd::string::*;
use crate::commands::{command_table, find_command, lookup, CommandKind};
use crate::host::Host;
use crate::session::Privacy;
use crate::text::{
    chars_of, find_char, has_char, index_of, lemma_index_of_bounds, pieces, pieces_from,
    same_text, split_at_char, split_words, string_of_range, string_views, sub_vec, texts, trim,
    trimmed, words,
};

verus! {

/// A word that clears the screen.
pub const WORD_CLEAR: &'static str = "clear";

/// Another word that clears the screen.
pub const WORD_CLS: &'static str = "cls";

/// The word that ends the program.
pub const WORD_EXIT: &'static str = "exit";

/// The address that the shell offers to listen on.
pub const LOCAL_ADDRESS: &'static str = "127.0.0.1";

/// What a line of input asks the shell to do.
#[derive(Debug)]
pub enum ShellInput {
    /// Run this command of the table with these arguments.
    Command { kind: CommandKind, args: Vec<String> },
    /// A command of this name was asked for and the table holds none.
    UnknownCommand(String),
    /// A slash with no name behind it: nothing is done.
    Nothing,
    /// Clear the screen.
    Clear,
    /// End the program.
    Exit,
    /// Neither a command nor a known word.
    Unrecognized,
}

/// What a line of input asks for, as plain text.
pub enum ShellInputView {
    Command { kind: CommandKind, args: Seq<Seq<char>> },
    UnknownCommand(Seq<char>),
    Nothing,
    Clear,
    Exit,
    Unrecognized,
}

impl View for ShellInput {
    type V = ShellInputView;

    open spec fn view(&self) -> ShellInputView {
        match self {
            ShellInput::Command { kind, args } => ShellInputView::Command {
                kind: *kind,
                args: string_views(args@),
            },
            ShellInput::UnknownCommand(name) => ShellInputView::UnknownCommand(name@),
            ShellInput::Nothing => ShellInputView::Nothing,
            ShellInput::Clear => ShellInputView::Clear,
            ShellInput::Exit => ShellInputView::Exit,
            ShellInput::Unrecognized => ShellInputView::Unrecognized,
        }
    }
}

/// What the line `line` asks for. A trimmed line that starts with a slash
/// names a command by the first word behind the slash, and the words that
/// follow are its arguments. Any other line is one of the words `clear`,
/// `cls` and `exit`, or is not recognized.
pub open spec fn shell_input(line: Seq<char>) -> ShellInputView {
    let command = trimmed(line);
    if command.len() > 0 && command[0] == '/' {
        let parts = words(command.skip(1));
        if parts.len() == 0 {
            ShellInputView::Nothing
        } else {
            match lookup(command_table(), parts[0]) {
                Some(kind) => ShellInputView::Command { kind, args: parts.skip(1) },
                None => ShellInputView::UnknownCommand(parts[0]),
            }
        }
    } else if command == WORD_CLEAR@ || command == WORD_CLS@ {
        ShellInputView::Clear
    } else if command == WORD_EXIT@ {
        ShellInputView::Exit
    } else {
        ShellInputView::Unrecognized
    }
}

/// The strings of `parts[from..]`.
fn strings_from(parts: &Vec<Vec<char>>, from: usize) -> (out: Vec<String>)
    requires
        from <= parts@.len(),
    ensures
        string_views(out@) == texts(parts@).skip(from as int),
{
    let mut out: Vec<String> = Vec::new();
    let mut i: usize = from;
    while i < parts.len()
        invariant
            from <= i <= parts@.len(),
            string_views(out@) == texts(parts@).subrange(from as int, i as int),
        decreases parts@.len() - i,
    {
        let part = &parts[i];
        let ghost before = string_views(out@);
        assert(part@.subrange(0, part@.len() as int) == part@);
        out.push(string_of_range(part, 0, part.len()));
        i += 1;
        assert(string_views(out@) =~= before.push(parts@[i - 1]@));
        assert(texts(parts@).subrange(from as int, i as int) =~= before.push(parts@[i - 1]@));
    }
    assert(texts(parts@).subrange(from as int, i as int) =~= texts(parts@).skip(from as int));
    out
}

/// Reads a line of input.
pub fn parse_input(line: &str) -> (input: ShellInput)
    ensures
        input@ == shell_input(line@),
{
    let command = trim(&chars_of(line));
    if command.len() > 0 && command[0] == '/' {
        let rest = sub_vec(&command, 1, command.len());
        assert(rest@ == command@.skip(1));
        let parts = split_words(&rest);
        if parts.len() == 0 {
            return ShellInput::Nothing;
        }
        assert(texts(parts@)[0] == parts@[0]@);
        let first = &parts[0];
        assert(first@.subrange(0, first@.len() as int) == first@);
        let name = string_of_range(first, 0, first.len());
        match find_command(name.as_str()) {
            Some(kind) => ShellInput::Command { kind, args: strings_from(&parts, 1) },
            None => ShellInput::UnknownCommand(name),
        }
    } else if same_text(&command, WORD_CLEAR) || same_text(&command, WORD_CLS) {
        ShellInput::Clear
    } else if same_text(&command, WORD_EXIT) {
        ShellInput::Exit
    } else {
        ShellInput::Unrecognized
    }
}

/// Why a reply names no privacy choices.
#[derive(Clone, Copy, Debug, PartialEq, Eq, Structural)]
pub enum ChoiceError {
    /// The reply holds no comma: fewer than two choices.
    TooFew,
    /// The reply holds both letters of a pair of opposites: `a` and `c`, or
    /// `b` and `d`.
    Opposed,
    /// None of the pieces is one of the letters `a` to `d`.
    NoneKnown,
}

/// The privacy choice that a piece of a reply names: one letter exactly.
pub open spec fn choice_of(piece: Seq<char>) -> Option<Privacy> {
    if piece == seq!['a'] {
        Some(Privacy::ShowName)
    } else if piece == seq!['b'] {
        Some(Privacy::AcceptConnections)
    } else if piece == seq!['c'] {
        Some(Privacy::HideName)
    } else if piece == seq!['d'] {
        Some(Privacy::RefuseConnections)
    } else {
        None
    }
}

/// The choices that the pieces name, in order. A piece that names none is
/// passed over.
pub open spec fn known_choices(parts: Seq<Seq<char>>) -> Seq<Privacy>
    decreases parts.len(),
{
    if parts.len() == 0 {
        Seq::empty()
    } else {
        let before = known_choices(parts.drop_last());
        match choice_of(parts.last()) {
            Some(choice) => before.push(choice),
            None => before,
        }
    }
}

/// The privacy choices that the reply `reply` names. The reply is trimmed
/// and cut at its commas.
pub open spec fn privacy_choices(reply: Seq<char>) -> Result<Seq<Privacy>, ChoiceError> {
    let text = trimmed(reply);
    let parts = pieces(text, ',');
    if parts.len() < 2 {
        Err(ChoiceError::TooFew)
    } else if text.contains('a') && text.contains('c') {
        Err(ChoiceError::Opposed)
    } else if text.contains('b') && text.contains('d') {
        Err(ChoiceError::Opposed)
    } else if known_choices(parts).len() == 0 {
        Err(ChoiceError::NoneKnown)
    } else {
        Ok(known_choices(parts))
    }
}

fn choice(piece: &Vec<char>) -> (c: Option<Privacy>)
    ensures
        c == choice_of(piece@),
{
    if piece.len() != 1 {
        return None;
    }
    let letter = piece[0];
    assert(piece@ =~= seq![letter]);
    if letter == 'a' {
        Some(Privacy::ShowName)
    } else if letter == 'b' {
        Some(Privacy::AcceptConnections)
    } else if letter == 'c' {
        Some(Privacy::HideName)
    } else if letter == 'd' {
        Some(Privacy::RefuseConnections)
    } else {
        None
    }
}

/// Reads the reply to the question for the privacy choices.
pub fn parse_privacy_choices(reply: &str) -> (r: Result<Vec<Privacy>, ChoiceError>)
    ensures
        match r {
            Ok(choices) => privacy_choices(reply@) == Ok::<Seq<Privacy>, ChoiceError>(choices@),
            Err(e) => privacy_choices(reply@) == Err::<Seq<Privacy>, ChoiceError>(e),
        },
{
    let text = trim(&chars_of(reply));
    let parts = split_at_char(&text, ',');
    if parts.len() < 2 {
        return Err(ChoiceError::TooFew);
    }
    let shown_and_hidden = has_char(&text, 'a') && has_char(&text, 'c');
    let accepted_and_refused = has_char(&text, 'b') && has_char(&text, 'd');
    if shown_and_hidden || accepted_and_refused {
        return Err(ChoiceError::Opposed);
    }
    let mut choices: Vec<Privacy> = Vec::new();
    let mut i: usize = 0;
    while i < parts.len()
        invariant
            i <= parts@.len(),
            choices@ == known_choices(texts(parts@).take(i as int)),
        decreases parts@.len() - i,
    {
        let found = choice(&parts[i]);
        i += 1;
        assert(texts(parts@).take(i as int).drop_last() =~= texts(parts@).take(i - 1));
        assert(texts(parts@).take(i as int).last() == parts@[i - 1]@);
        if let Some(c) = found {
            choices.push(c);
        }
    }
    assert(texts(parts@).take(i as int) =~= texts(parts@));
    if choices.len() == 0 {
        Err(ChoiceError::NoneKnown)
    } else {
        Ok(choices)
    }
}

/// Every piece of a text is a stretch of that text.
proof fn lemma_pieces_are_parts(s: Seq<char>, separator: char, from: int, k: int)
    requires
        0 <= from <= s.len(),
        0 <= k < pieces_from(s, separator, from).len(),
    ensures
        exists|a: int, b: int|
            from <= a <= b <= s.len() && pieces_from(s, separator, from)[k] == #[trigger] s.subrange(
                a,
                b,
            ),
    decreases s.len() - from,
{
    let cut = index_of(s, separator, from);
    lemma_index_of_bounds(s, separator, from);
    if cut >= s.len() {
        assert(pieces_from(s, separator, from)[k] == s.subrange(from, s.len() as int));
    } else if k == 0 {
        assert(pieces_from(s, separator, from)[k] == s.subrange(from, cut));
    } else {
        lemma_pieces_are_parts(s, separator, cut + 1, k - 1);
        let (a, b) = choose|a: int, b: int|
            cut + 1 <= a <= b <= s.len() && pieces_from(s, separator, cut + 1)[k - 1]
                == #[trigger] s.subrange(a, b);
        assert(pieces_from(s, separator, from)[k] == s.subrange(a, b));
    }
}

/// A choice that is known was named by one of the pieces.
proof fn lemma_known_choice_was_named(parts: Seq<Seq<char>>, choice: Privacy)
    requires
        known_choices(parts).contains(choice),
    ensures
        exists|k: int| 0 <= k < parts.len() && choice_of(#[trigger] parts[k]) == Some(choice),
    decreases parts.len(),
{
    if parts.len() > 0 {
        let before = known_choices(parts.drop_last());
        if choice_of(parts.last()) == Some(choice) {
            assert(parts[parts.len() - 1] == parts.last());
        } else {
            assert(before.contains(choice)) by {
                let at = choose|i: int|
                    0 <= i < known_choices(parts).len() && known_choices(parts)[i] == choice;
                if choice_of(parts.last()) is Some {
                    assert(known_choices(parts) == before.push(choice_of(parts.last())->Some_0));
                    assert(at < before.len());
                    assert(before[at] == choice);
                }
            }
            lemma_known_choice_was_named(parts.drop_last(), choice);
            let k = choose|k: int|
                0 <= k < parts.drop_last().len() && choice_of(#[trigger] parts.drop_last()[k])
                    == Some(choice);
            assert(parts[k] == parts.drop_last()[k]);
        }
    }
}

/// The letter that names a choice.
pub open spec fn letter_of(choice: Privacy) -> char {
    match choice {
        Privacy::ShowName => 'a',
        Privacy::AcceptConnections => 'b',
        Privacy::HideName => 'c',
        Privacy::RefuseConnections => 'd',
    }
}

/// The opposite of a choice: showing and hiding the name, accepting and
/// refusing connections.
pub open spec fn opposite(choice: Privacy) -> Privacy {
    match choice {
        Privacy::ShowName => Privacy::HideName,
        Privacy::HideName => Privacy::ShowName,
        Privacy::AcceptConnections => Privacy::RefuseConnections,
        Privacy::RefuseConnections => Privacy::AcceptConnections,
    }
}

/// The choices that a reply is read as are never empty, and never hold a
/// choice together with its opposite.
pub proof fn choices_are_not_opposed(reply: Seq<char>, choice: Privacy)
    requires
        privacy_choices(reply) is Ok,
    ensures
        privacy_choices(reply)->Ok_0.len() > 0,
        !(privacy_choices(reply)->Ok_0.contains(choice) && privacy_choices(reply)->Ok_0.contains(
            opposite(choice),
        )),
{
    let text = trimmed(reply);
    let parts = pieces(text, ',');
    let choices = known_choices(parts);
    if choices.contains(choice) && choices.contains(opposite(choice)) {
        lemma_choice_letter_is_in_text(text, choice);
        lemma_choice_letter_is_in_text(text, opposite(choice));
    }
}

/// The letter of a known choice stands in the text.
proof fn lemma_choice_letter_is_in_text(text: Seq<char>, choice: Privacy)
    requires
        known_choices(pieces(text, ',')).contains(choice),
    ensures
        text.contains(letter_of(choice)),
{
    let parts = pieces(text, ',');
    lemma_known_choice_was_named(parts, choice);
    let k = choose|k: int| 0 <= k < parts.len() && choice_of(#[trigger] parts[k]) == Some(choice);
    lemma_pieces_are_parts(text, ',', 0, k);
    let (a, b) = choose|a: int, b: int|
        0 <= a <= b <= text.len() && parts[k] == #[trigger] text.subrange(a, b);
    assert(parts[k] =~= seq![letter_of(choice)]);
    assert(text.subrange(a, b)[0] == text[a]);
    assert(text[a] == letter_of(choice));
}

/// Where a `join` goes: the host and the port that the first argument
/// names, cut at its first colon. `None` without an argument, and for one
/// without a colon.
pub open spec fn join_target(args: Seq<Seq<char>>) -> Option<(Seq<char>, Seq<char>)> {
    if args.len() == 0 {
        None
    } else {
        let cut = index_of(args[0], ':', 0);
        if cut >= args[0].len() {
            None
        } else {
            Some((args[0].take(cut), args[0].skip(cut + 1)))
        }
    }
}

/// Reads the arguments of a `join`.
pub fn parse_join_target(args: &Vec<String>) -> (target: Option<(String, String)>)
    ensures
        match target {
            Some(pair) => join_target(string_views(args@)) == Some((pair.0@, pair.1@)),
            None => join_target(string_views(args@)) is None,
        },
{
    if args.len() == 0 {
        return None;
    }
    let address = chars_of(args[0].as_str());
    assert(string_views(args@)[0] == address@);
    let cut = find_char(&address, ':', 0);
    if cut >= address.len() {
        None
    } else {
        Some((string_of_range(&address, 0, cut), string_of_range(&address, cut + 1, address.len())))
    }
}

/// The user name that a reply gives: the reply trimmed, `None` where
/// nothing is left.
pub fn accept_username(reply: &str) -> (name: Option<String>)
    ensures
        match name {
            Some(n) => n@ == trimmed(reply@) && n@.len() > 0,
            None => trimmed(reply@).len() == 0,
        },
{
    let text = trim(&chars_of(reply));
    if text.len() == 0 {
        None
    } else {
        assert(text@.subrange(0, text@.len() as int) == text@);
        Some(string_of_range(&text, 0, text.len()))
    }
}

/// What the shell does first.
#[derive(Clone, Copy, Debug, PartialEq, Eq, Structural)]
pub enum Startup {
    /// Write the settings file, then look again.
    CreateSettings,
    /// Remove the settings file, which names no session file, then look
    /// again.
    ResetSettings,
    /// Ask the user for a new session.
    CreateSession,
    /// Load the session from its file.
    RestoreSession,
}

/// What is done at start: with no settings file, it is written; with one
/// that names no session file, it is removed; otherwise the session is
/// loaded where its file is there and asked for where it is not.
pub fn startup_step(settings_found: bool, session_named: bool, session_found: bool) -> (step: Startup)
    ensures
        step == if !settings_found {
            Startup::CreateSettings
        } else if !session_named {
            Startup::ResetSettings
        } else if session_found {
            Startup::RestoreSession
        } else {
            Startup::CreateSession
        },
{
    if !settings_found {
        Startup::CreateSettings
    } else if !session_named {
        Startup::ResetSettings
    } else if session_found {
        Startup::RestoreSession
    } else {
        Startup::CreateSession
    }
}

/// `Rng::gen_range` of the crate `rand`, on the thread's generator and the
/// range from 1000 up to 65535, the upper end left out. Trusted: what is
/// drawn lies in that range.
#[verifier::external_body]
fn random_port() -> (port: u16)
    ensures
        1000 <= port < 65535,
{
    rand::Rng::gen_range(&mut rand::thread_rng(), 1000..65535)
}

/// The host that the shell offers to listen on: the local address, with a
/// port drawn at random.
pub fn local_host() -> (host: Host)
    ensures
        host.name@ == LOCAL_ADDRESS@,
        1000 <= host.port < 65535,
{
    Host::new(LOCAL_ADDRESS, random_port())
}

} // verus!
