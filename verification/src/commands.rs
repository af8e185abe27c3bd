//! The shell's command table: what each command is called, how it is used,
//! and what it stands for. Running a command is left to the program.

use vstd::prelude::*;
use vstd::string::*;
use crate::text::{chars_of, same_text};

verus! {

/// What a command of the table does when it is run.
#[derive(Clone, Copy, Debug, PartialEq, Eq, Structural)]
pub enum CommandKind {
    /// Lists the commands.
    Help,
    /// Ends the program.
    Exit,
    /// Joins a server as a client.
    Join,
    /// Starts a server on the shell's host.
    Listen,
}

/// A command of the shell.
pub struct Command {
    pub name: &'static str,
    pub usage: &'static str,
    pub description: &'static str,
    pub args: &'static [&'static str],
    pub kind: CommandKind,
}

/// A command as plain text.
pub struct CommandView {
    pub name: Seq<char>,
    pub usage: Seq<char>,
    pub description: Seq<char>,
    pub args: Seq<Seq<char>>,
    pub kind: CommandKind,
}

impl View for Command {
    type V = CommandView;

    open spec fn view(&self) -> CommandView {
        CommandView {
            name: self.name@,
            usage: self.usage@,
            description: self.description@,
            args: Seq::new(self.args@.len(), |i: int| self.args@[i]@),
            kind: self.kind,
        }
    }
}

/// The arguments of a command that takes none.
pub const NO_ARGS: [&'static str; 1] = [""];

/// The arguments of `join`.
pub const JOIN_ARGS: [&'static str; 1] = ["addr"];

/// The views of the commands of `table`, in order.
pub open spec fn table_view(table: Seq<Command>) -> Seq<CommandView> {
    Seq::new(table.len(), |i: int| table[i]@)
}

/// The command table: `help`, `exit`, `join` and `listen`, in this order.
pub open spec fn command_table() -> Seq<CommandView> {
    seq![
        CommandView {
            name: "help"@,
            usage: "/help"@,
            description: "Mevcut komutları listeler."@,
            args: seq![""@],
            kind: CommandKind::Help,
        },
        CommandView {
            name: "exit"@,
            usage: "/exit"@,
            description: "Programı sonlandırır."@,
            args: seq![""@],
            kind: CommandKind::Exit,
        },
        CommandView {
            name: "join"@,
            usage: "/join <addr>"@,
            description: "Belirli bir sunucuya katılıp sohbet etmek için kullanılır."@,
            args: seq!["addr"@],
            kind: CommandKind::Join,
        },
        CommandView {
            name: "listen"@,
            usage: "/listen"@,
            description: "Bir sunucu oluşturup yeni bağlantılar için bekler."@,
            args: seq![""@],
            kind: CommandKind::Listen,
        },
    ]
}

/// The command table.
pub fn get_commands() -> (table: Vec<Command>)
    ensures
        table_view(table@) == command_table(),
{
    let mut table: Vec<Command> = Vec::new();
    table.push(
        Command {
            name: "help",
            usage: "/help",
            description: "Mevcut komutları listeler.",
            args: &NO_ARGS,
            kind: CommandKind::Help,
        },
    );
    table.push(
        Command {
            name: "exit",
            usage: "/exit",
            description: "Programı sonlandırır.",
            args: &NO_ARGS,
            kind: CommandKind::Exit,
        },
    );
    table.push(
        Command {
            name: "join",
            usage: "/join <addr>",
            description: "Belirli bir sunucuya katılıp sohbet etmek için kullanılır.",
            args: &JOIN_ARGS,
            kind: CommandKind::Join,
        },
    );
    table.push(
        Command {
            name: "listen",
            usage: "/listen",
            description: "Bir sunucu oluşturup yeni bağlantılar için bekler.",
            args: &NO_ARGS,
            kind: CommandKind::Listen,
        },
    );
    proof {
        let views = table_view(table@);
        let want = command_table();
        assert(views.len() == want.len());
        assert forall|i: int| 0 <= i < views.len() implies views[i] == want[i] by {
            assert(views[i].args =~= want[i].args);
        }
        assert(views =~= want);
    }
    table
}

/// What the first command of `table` that is called `name` stands for.
pub open spec fn lookup(table: Seq<CommandView>, name: Seq<char>) -> Option<CommandKind>
    decreases table.len(),
{
    if table.len() == 0 {
        None
    } else if table[0].name == name {
        Some(table[0].kind)
    } else {
        lookup(table.drop_first(), name)
    }
}

/// What the command called `name` stands for, `None` where the table holds
/// no such command.
pub fn find_command(name: &str) -> (kind: Option<CommandKind>)
    ensures
        kind == lookup(command_table(), name@),
{
    let table = get_commands();
    let wanted = chars_of(name);
    let mut i: usize = 0;
    assert(command_table().skip(0) =~= command_table());
    while i < table.len()
        invariant
            i <= table@.len(),
            wanted@ == name@,
            table_view(table@) == command_table(),
            lookup(command_table(), name@) == lookup(command_table().skip(i as int), name@),
        decreases table@.len() - i,
    {
        let ghost rest = command_table().skip(i as int);
        assert(rest[0] == table@[i as int]@);
        assert(rest.drop_first() =~= command_table().skip(i + 1));
        if same_text(&wanted, table[i].name) {
            return Some(table[i].kind);
        }
        i += 1;
    }
    assert(command_table().skip(i as int).len() == 0);
    None
}

} // verus!
