//! The client's side: what it shows and sends for each line of the server,
//! and the state of its screen, a list of lines with one of them selected
//! and a line of input.
//!
//! Drawing the screen, reading the keys and the socket are the program's
//! part.

use vstd::prelude::*;
use vstd::string::*;
use crate::codec::{SEPARATOR, TAG_EVENT, TAG_GREETING, TAG_OK, TAG_TOKEN};
use crate::text::{
    chars_of, find, first_occurrence, matches_at, occurs_at, push_range, same_text,
    string_of_range, string_views, sub_vec, trim, trimmed,
};

verus! {

/// What is shown when the server's greeting came.
pub const LOG_GREETED: &'static str =
    "log: Sunucudan yanıt alındı. Kimlik doğrulama için başvuru yapılıyor.. Sunucu kimliğiniz doğrulandıktan sonra işleme devam edilecek.";

/// What is shown when the server tells that the session is there.
pub const LOG_ESTABLISHED: &'static str =
    "log: Sunucu tarafından kimlik doğrulama işlemi onaylandı. Bağlantı kuruldu, sunucu tarafından kullanıcı ID'si atanması bekleniyor.";

/// What is shown before the session token.
pub const LOG_TOKEN: &'static str = "log: Sunucu tarafından kullanıcı ID'si atandı: ";

/// What is shown before the user's name once the token came.
pub const LOG_READY: &'static str = "log: Artık mesajlaşmaya hazırsın, ";

/// What is shown behind the user's name once the token came.
pub const LOG_READY_END: &'static str = "!";

/// What is shown before a newcomer.
pub const LOG_JOIN: &'static str = "join: ";

/// What stands between a line's label and its text.
pub const LABEL_END: &'static str = ": ";

/// The label of the client's own remarks.
pub const LABEL_LOG: &'static str = "log";

/// The label of a fault.
pub const LABEL_ERROR: &'static str = "error";

/// The label of a newcomer.
pub const LABEL_JOIN: &'static str = "join";

/// The host that stands for no choice.
pub const NO_HOST: &'static str = "default";

/// The server that a client without a choice goes to.
pub const DEFAULT_HOST: &'static str = "127.0.0.1";

/// The port of the server that a client without a choice goes to.
pub const DEFAULT_PORT: u16 = 33363;

/// The words of an acknowledgement that tell that the session is there.
pub const ESTABLISHED_WORDS: &'static str = "Connection Established";

/// How a broadcast event starts that announces a newcomer.
pub const JOIN_WORD: &'static str = "JOIN";

/// What the client does for a line of the server.
#[derive(Debug)]
pub enum ClientAction {
    /// Show this line in the list.
    Show(String),
    /// Send the `Identify` frame.
    Identify,
}

/// A client's action as plain text.
pub enum ClientActionView {
    Show(Seq<char>),
    Identify,
}

impl View for ClientAction {
    type V = ClientActionView;

    open spec fn view(&self) -> ClientActionView {
        match self {
            ClientAction::Show(line) => ClientActionView::Show(line@),
            ClientAction::Identify => ClientActionView::Identify,
        }
    }
}

/// The views of `actions`, in order.
pub open spec fn client_action_views(actions: Seq<ClientAction>) -> Seq<ClientActionView> {
    Seq::new(actions.len(), |i: int| actions[i]@)
}

/// What follows the sixth character of `body`, nothing for a shorter one.
pub open spec fn newcomer(body: Seq<char>) -> Seq<char> {
    if body.len() >= 6 {
        body.skip(6)
    } else {
        Seq::empty()
    }
}

/// What the client does for the server's frame with the header `header` and
/// the trimmed body `body`.
pub open spec fn react_to_frame(
    header: Seq<char>,
    body: Seq<char>,
    username: Seq<char>,
) -> Seq<ClientActionView> {
    if header == TAG_GREETING@ {
        seq![ClientActionView::Show(LOG_GREETED@), ClientActionView::Identify]
    } else if header == TAG_OK@ {
        if first_occurrence(body, ESTABLISHED_WORDS@, 0) is Some {
            seq![ClientActionView::Show(LOG_ESTABLISHED@)]
        } else {
            Seq::empty()
        }
    } else if header == TAG_TOKEN@ {
        seq![
            ClientActionView::Show(LOG_TOKEN@ + body),
            ClientActionView::Show(LOG_READY@ + username + LOG_READY_END@),
        ]
    } else if header == TAG_EVENT@ {
        if occurs_at(body, JOIN_WORD@, 0) {
            seq![ClientActionView::Show(LOG_JOIN@ + newcomer(body))]
        } else {
            seq![ClientActionView::Show(body)]
        }
    } else {
        Seq::empty()
    }
}

/// What the client does for the line `line` of the server. The line is cut
/// at its first `::`; a line without one is passed over.
pub open spec fn react_to_server(line: Seq<char>, username: Seq<char>) -> Seq<ClientActionView> {
    match first_occurrence(line, SEPARATOR@, 0) {
        None => Seq::empty(),
        Some(cut) => react_to_frame(
            line.take(cut),
            trimmed(line.skip(cut + SEPARATOR@.len())),
            username,
        ),
    }
}

fn show(prefix: &str, text: &Vec<char>, from: usize) -> (action: ClientAction)
    requires
        from <= text@.len(),
    ensures
        action@ == ClientActionView::Show(prefix@ + text@.skip(from as int)),
{
    let mut line = String::from_str(prefix);
    push_range(&mut line, text, from, text.len());
    assert(text@.subrange(from as int, text@.len() as int) == text@.skip(from as int));
    ClientAction::Show(line)
}

/// Reads a line of the server for the user `username`.
pub fn on_server_line(line: &str, username: &str) -> (actions: Vec<ClientAction>)
    ensures
        client_action_views(actions@) == react_to_server(line@, username@),
{
    let mut actions: Vec<ClientAction> = Vec::new();
    let chars = chars_of(line);
    let separator = chars_of(SEPARATOR);
    let length = chars.len();
    match find(&chars, &separator, 0) {
        None => {},
        Some(cut) => {
            let header = sub_vec(&chars, 0, cut);
            let body = trim(&sub_vec(&chars, cut + separator.len(), length));
            if same_text(&header, TAG_GREETING) {
                actions.push(ClientAction::Show(String::from_str(LOG_GREETED)));
                actions.push(ClientAction::Identify);
            } else if same_text(&header, TAG_OK) {
                if find(&body, &chars_of(ESTABLISHED_WORDS), 0).is_some() {
                    actions.push(ClientAction::Show(String::from_str(LOG_ESTABLISHED)));
                }
            } else if same_text(&header, TAG_TOKEN) {
                actions.push(show(LOG_TOKEN, &body, 0));
                let mut ready = String::from_str(LOG_READY);
                ready.append(username);
                ready.append(LOG_READY_END);
                actions.push(ClientAction::Show(ready));
                assert(body@.skip(0) == body@);
            } else if same_text(&header, TAG_EVENT) {
                if matches_at(&body, &chars_of(JOIN_WORD), 0) {
                    if body.len() >= 6 {
                        actions.push(show(LOG_JOIN, &body, 6));
                    } else {
                        actions.push(show(LOG_JOIN, &body, body.len()));
                        assert(body@.skip(body@.len() as int) == Seq::<char>::empty());
                    }
                } else {
                    assert(body@.subrange(0, body@.len() as int) == body@);
                    actions.push(ClientAction::Show(string_of_range(&body, 0, body.len())));
                }
            }
        },
    }
    assert(client_action_views(actions@) =~= react_to_server(line@, username@));
    actions
}

/// The lines that `textwrap::wrap` of the crate `textwrap` makes of a text
/// for a width, with that crate's default options.
pub uninterp spec fn wrapped(text: Seq<char>, width: int) -> Seq<Seq<char>>;

/// `textwrap::wrap` of the crate `textwrap`, called with a width alone, its
/// lines handed on as strings of their own. Trusted: the lines depend on the
/// text and the width only; `wrapped` is the name for them.
#[verifier::external_body]
fn wrap_text(text: &str, width: usize) -> (lines: Vec<String>)
    ensures
        string_views(lines@) == wrapped(text@, width as int),
{
    textwrap::wrap(text, width).into_iter().map(|line| line.into_owned()).collect()
}

/// A key that was pressed.
#[derive(Clone, Copy, Debug, PartialEq, Eq, Structural)]
pub enum Key {
    Down,
    Up,
    Char(char),
    Backspace,
    Enter,
    Other,
}

/// The state of the client's screen.
#[derive(Debug)]
pub struct App {
    /// The index of the selected line of the list, if one is selected.
    pub selected: Option<usize>,
    /// The lines of the list.
    pub items: Vec<String>,
    /// What was typed and not yet sent.
    pub input: String,
    /// The number of lines that the input may take.
    pub max_wrap_lines: usize,
    /// The width to which lines are wrapped.
    pub width: usize,
}

/// The screen as plain text.
pub struct AppView {
    pub selected: Option<usize>,
    pub items: Seq<Seq<char>>,
    pub input: Seq<char>,
    pub max_wrap_lines: usize,
    pub width: usize,
}

impl View for App {
    type V = AppView;

    open spec fn view(&self) -> AppView {
        AppView {
            selected: self.selected,
            items: string_views(self.items@),
            input: self.input@,
            max_wrap_lines: self.max_wrap_lines,
            width: self.width,
        }
    }
}

/// The screen after the lines `lines` were put at the end of the list: the
/// last line of the list is selected, where the list has one.
pub open spec fn with_lines(app: AppView, lines: Seq<Seq<char>>) -> AppView {
    let items = app.items + lines;
    AppView {
        selected: if items.len() > 0 {
            Some((items.len() - 1) as usize)
        } else {
            app.selected
        },
        items,
        ..app
    }
}

/// The screen after the key `key`, where the input takes `input_lines`
/// lines now, and what is to be sent as a chat message.
///
/// `Down` and `Up` move the selection by one line and stay inside the list.
/// A character is put at the end of the input unless the input already takes
/// `max_wrap_lines` lines or more. `Backspace` removes the last character.
/// `Enter` sends the input and empties it, unless it is empty.
pub open spec fn after_key(app: AppView, key: Key, input_lines: int) -> (
    AppView,
    Option<Seq<char>>,
) {
    match key {
        Key::Down => match app.selected {
            Some(at) if at + 1 < app.items.len() => (
                AppView { selected: Some((at + 1) as usize), ..app },
                None,
            ),
            _ => (app, None),
        },
        Key::Up => match app.selected {
            Some(at) if at > 0 => (AppView { selected: Some((at - 1) as usize), ..app }, None),
            _ => (app, None),
        },
        Key::Char(c) => if input_lines < app.max_wrap_lines {
            (AppView { input: app.input.push(c), ..app }, None)
        } else {
            (app, None)
        },
        Key::Backspace => if app.input.len() > 0 {
            (AppView { input: app.input.drop_last(), ..app }, None)
        } else {
            (app, None)
        },
        Key::Enter => if app.input.len() > 0 {
            (AppView { input: Seq::empty(), ..app }, Some(app.input))
        } else {
            (app, None)
        },
        Key::Other => (app, None),
    }
}

/// Whether the selection, if there is one, names a line of the list.
pub open spec fn selection_in_list(app: AppView) -> bool {
    app.selected matches Some(at) ==> at < app.items.len()
}

/// No key takes the selection out of the list, and no key changes the list.
pub proof fn keys_keep_selection_in_list(app: AppView, key: Key, input_lines: int)
    requires
        selection_in_list(app),
    ensures
        selection_in_list(after_key(app, key, input_lines).0),
        after_key(app, key, input_lines).0.items == app.items,
{
}

/// After lines were put into the list, its last line is selected.
pub proof fn new_lines_select_the_last(app: AppView, lines: Seq<Seq<char>>)
    requires
        app.items.len() + lines.len() > 0,
        app.items.len() + lines.len() <= usize::MAX,
    ensures
        with_lines(app, lines).selected == Some((app.items.len() + lines.len() - 1) as usize),
        selection_in_list(with_lines(app, lines)),
{
}

impl App {
    /// A screen with the lines `items`, the first one selected, and an empty
    /// input that may take four lines.
    pub fn new(items: Vec<String>, width: usize) -> (app: App)
        ensures
            app.selected == Some(0usize),
            app.items == items,
            app.input@ == Seq::<char>::empty(),
            app.max_wrap_lines == 4,
            app.width == width,
    {
        App { selected: Some(0), items, input: String::new(), max_wrap_lines: 4, width }
    }

    /// Puts `lines` at the end of the list and selects the last line.
    pub fn append_lines(&mut self, lines: &Vec<String>)
        ensures
            final(self)@ == with_lines(old(self)@, string_views(lines@)),
    {
        let mut i: usize = 0;
        while i < lines.len()
            invariant
                i <= lines@.len(),
                string_views(self.items@) == string_views(old(self).items@) + string_views(
                    lines@,
                ).take(i as int),
                self.selected == old(self).selected,
                self.input == old(self).input,
                self.max_wrap_lines == old(self).max_wrap_lines,
                self.width == old(self).width,
            decreases lines@.len() - i,
        {
            let ghost before = string_views(self.items@);
            self.items.push(lines[i].clone());
            assert(string_views(self.items@) =~= before.push(lines@[i as int]@));
            i += 1;
            assert(string_views(lines@).take(i as int) =~= string_views(lines@).take(i - 1).push(
                lines@[i - 1]@,
            ));
        }
        assert(string_views(lines@).take(i as int) =~= string_views(lines@));
        let count = self.items.len();
        if count > 0 {
            self.selected = Some(count - 1);
        }
    }

    /// Wraps `item` to the screen's width and puts its lines at the end of
    /// the list.
    pub fn insert(&mut self, item: &str)
        ensures
            final(self)@ == with_lines(old(self)@, wrapped(item@, old(self).width as int)),
    {
        let lines = wrap_text(item, self.width);
        self.append_lines(&lines);
    }

    /// Takes the key `key` in, where the input takes `input_lines` lines
    /// now. Returns what is to be sent as a chat message.
    pub fn apply_key(&mut self, key: Key, input_lines: usize) -> (sent: Option<String>)
        ensures
            final(self)@ == after_key(old(self)@, key, input_lines as int).0,
            match sent {
                Some(text) => after_key(old(self)@, key, input_lines as int).1 == Some(text@),
                None => after_key(old(self)@, key, input_lines as int).1 is None,
            },
    {
        match key {
            Key::Down => {
                let count = self.items.len();
                if let Some(at) = self.selected {
                    if at < count && at + 1 < count {
                        self.selected = Some(at + 1);
                    }
                }
                None
            },
            Key::Up => {
                if let Some(at) = self.selected {
                    if at > 0 {
                        self.selected = Some(at - 1);
                    }
                }
                None
            },
            Key::Char(c) => {
                if input_lines < self.max_wrap_lines {
                    self.input.push(c);
                }
                None
            },
            Key::Backspace => {
                self.input.pop();
                None
            },
            Key::Enter => {
                if self.input.as_str().is_empty() {
                    None
                } else {
                    let text = self.input.clone();
                    self.input.clear();
                    Some(text)
                }
            },
            Key::Other => None,
        }
    }

    /// Takes the key `key` in. The lines that the input takes are those that
    /// it wraps to at the screen's width.
    pub fn handle_input(&mut self, key: Key) -> (sent: Option<String>)
        ensures
            final(self)@ == after_key(
                old(self)@,
                key,
                wrapped(old(self).input@, old(self).width as int).len() as int,
            ).0,
            match sent {
                Some(text) => after_key(
                    old(self)@,
                    key,
                    wrapped(old(self).input@, old(self).width as int).len() as int,
                ).1 == Some(text@),
                None => after_key(
                    old(self)@,
                    key,
                    wrapped(old(self).input@, old(self).width as int).len() as int,
                ).1 is None,
            },
    {
        let lines = wrap_text(self.input.as_str(), self.width);
        self.apply_key(key, lines.len())
    }
}

/// Where the client goes: the server that was asked for, and the default
/// server where the host is `default` or the port is 0.
pub fn resolve_server(host: &str, port: u16) -> (server: (String, u16))
    ensures
        server.0@ == if host@ == NO_HOST@ || port == 0 {
            DEFAULT_HOST@
        } else {
            host@
        },
        server.1 == if host@ == NO_HOST@ || port == 0 {
            DEFAULT_PORT
        } else {
            port
        },
{
    if port == 0 || same_text(&chars_of(host), NO_HOST) {
        (String::from_str(DEFAULT_HOST), DEFAULT_PORT)
    } else {
        (String::from_str(host), port)
    }
}

/// How the label of a line is shown.
#[derive(Clone, Copy, Debug, PartialEq, Eq, Structural)]
pub enum Tone {
    /// The client's own remarks.
    Log,
    /// A fault.
    Error,
    /// A newcomer.
    Join,
    /// A message under the user's own name.
    Own,
    /// A message under another name.
    Other,
}

/// How the label `label` is shown to the user `username`.
pub open spec fn tone_of(label: Seq<char>, username: Seq<char>) -> Tone {
    if label == LABEL_LOG@ {
        Tone::Log
    } else if label == LABEL_ERROR@ {
        Tone::Error
    } else if label == LABEL_JOIN@ {
        Tone::Join
    } else if label == username {
        Tone::Own
    } else {
        Tone::Other
    }
}

/// A line of the list that starts with a label.
#[derive(Debug)]
pub struct Labelled {
    pub label: String,
    pub text: String,
    pub tone: Tone,
}

/// Cuts the line `item` at its first `": "` into a label and a text, and
/// says how the label is shown to the user `username`. `None` for a line
/// that holds no `": "`.
pub fn label_of(item: &str, username: &str) -> (r: Option<Labelled>)
    ensures
        match r {
            Some(l) => first_occurrence(item@, LABEL_END@, 0) matches Some(cut) && l.label@
                == item@.take(cut) && l.text@ == item@.skip(cut + LABEL_END@.len()) && l.tone
                == tone_of(l.label@, username@),
            None => first_occurrence(item@, LABEL_END@, 0) is None,
        },
{
    let chars = chars_of(item);
    let end = chars_of(LABEL_END);
    let length = chars.len();
    match find(&chars, &end, 0) {
        None => None,
        Some(cut) => {
            let label = sub_vec(&chars, 0, cut);
            let tone = if same_text(&label, LABEL_LOG) {
                Tone::Log
            } else if same_text(&label, LABEL_ERROR) {
                Tone::Error
            } else if same_text(&label, LABEL_JOIN) {
                Tone::Join
            } else if same_text(&label, username) {
                Tone::Own
            } else {
                Tone::Other
            };
            assert(label@.subrange(0, label@.len() as int) == label@);
            assert(chars@.subrange(cut + end@.len(), length as int) == item@.skip(
                cut + LABEL_END@.len(),
            ));
            Some(
                Labelled {
                    label: string_of_range(&label, 0, label.len()),
                    text: string_of_range(&chars, cut + end.len(), length),
                    tone,
                },
            )
        },
    }
}

} // verus!
