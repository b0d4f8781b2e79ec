//! The commands of the prompt, by name.

use crate::text::collect_chars;
use vstd::prelude::*;

verus! {

/// Quits the editor.
pub const QUIT: &'static str = "q";

/// Quits the editor and gives up what is unsaved.
pub const FORCE_QUIT: &'static str = "q!";

/// Shows or hides the line numbers.
pub const LINE_NUMBERS: &'static str = "ln";

/// Shows or hides the numbers of lines and words.
pub const STATS: &'static str = "stats";

/// Shows the help screen.
pub const HELP: &'static str = "help";

/// Opens a file.
pub const OPEN: &'static str = "open";

/// Opens a file, for short.
pub const OPEN_SHORT: &'static str = "o";

/// Begins a new file.
pub const NEW: &'static str = "new";

/// Saves the document.
pub const SAVE: &'static str = "w";

/// Saves the document and quits the editor.
pub const SAVE_AND_QUIT: &'static str = "wq";

/// Writes the state of the editor to the log.
pub const DEBUG: &'static str = "debug";

/// The names that the prompt completes to, in the order in which it offers
/// them.
pub fn all_commands() -> (r: Vec<&'static str>)
    ensures
        r@.len() == 11,
        r@[0]@ == QUIT@,
        r@[1]@ == FORCE_QUIT@,
        r@[2]@ == LINE_NUMBERS@,
        r@[3]@ == STATS@,
        r@[4]@ == HELP@,
        r@[5]@ == OPEN@,
        r@[6]@ == OPEN_SHORT@,
        r@[7]@ == NEW@,
        r@[8]@ == SAVE@,
        r@[9]@ == SAVE_AND_QUIT@,
        r@[10]@ == DEBUG@,
{
    let mut all: Vec<&'static str> = Vec::new();
    all.push(QUIT);
    all.push(FORCE_QUIT);
    all.push(LINE_NUMBERS);
    all.push(STATS);
    all.push(HELP);
    all.push(OPEN);
    all.push(OPEN_SHORT);
    all.push(NEW);
    all.push(SAVE);
    all.push(SAVE_AND_QUIT);
    all.push(DEBUG);
    all
}

/// A command of the prompt.
#[derive(Debug, PartialEq, Eq, Structural, Clone, Copy)]
pub enum Commands {
    Quit,
    ForceQuit,
    LineNumbers,
    Stats,
    Help,
    Open,
    OpenShort,
    New,
    Save,
    SaveAnQuit,
    Debug,
    Unknown,
}

/// The command that `s` names. Quitting without saving goes by two names,
/// `q!` and `wq!`.
pub open spec fn parse_spec(s: Seq<char>) -> Commands {
    if s == "q"@ {
        Commands::Quit
    } else if s == "q!"@ || s == "wq!"@ {
        Commands::ForceQuit
    } else if s == "ln"@ {
        Commands::LineNumbers
    } else if s == "stats"@ {
        Commands::Stats
    } else if s == "help"@ {
        Commands::Help
    } else if s == "open"@ {
        Commands::Open
    } else if s == "o"@ {
        Commands::OpenShort
    } else if s == "new"@ {
        Commands::New
    } else if s == "w"@ {
        Commands::Save
    } else if s == "wq"@ {
        Commands::SaveAnQuit
    } else if s == "debug"@ {
        Commands::Debug
    } else {
        Commands::Unknown
    }
}

/// The name of `command`; the empty text for the unknown command.
pub open spec fn name_spec(command: Commands) -> Seq<char> {
    match command {
        Commands::Quit => "q"@,
        Commands::ForceQuit => "wq!"@,
        Commands::LineNumbers => "ln"@,
        Commands::Stats => "stats"@,
        Commands::Help => "help"@,
        Commands::Open => "open"@,
        Commands::OpenShort => "o"@,
        Commands::New => "new"@,
        Commands::Save => "w"@,
        Commands::SaveAnQuit => "wq"@,
        Commands::Debug => "debug"@,
        Commands::Unknown => ""@,
    }
}

/// Whether `a` and `b` hold the same text.
pub fn same_text(a: &str, b: &str) -> (r: bool)
    ensures
        r == (a@ == b@),
{
    let left = collect_chars(a);
    let right = collect_chars(b);
    if left.len() != right.len() {
        return false;
    }
    let mut i: usize = 0;
    while i < left.len()
        invariant
            i <= left.len(),
            left.len() == right.len(),
            left@ == a@,
            right@ == b@,
            forall|j: int| 0 <= j < i ==> left@[j] == right@[j],
        decreases left.len() - i,
    {
        if left[i] != right[i] {
            return false;
        }
        i += 1;
    }
    assert(a@ =~= b@);
    true
}

impl Commands {
    /// The command that `s` names.
    pub fn parse(s: &str) -> (r: Commands)
        ensures
            r == parse_spec(s@),
    {
        if same_text(s, "q") {
            Commands::Quit
        } else if same_text(s, "q!") || same_text(s, "wq!") {
            Commands::ForceQuit
        } else if same_text(s, "ln") {
            Commands::LineNumbers
        } else if same_text(s, "stats") {
            Commands::Stats
        } else if same_text(s, "help") {
            Commands::Help
        } else if same_text(s, "open") {
            Commands::Open
        } else if same_text(s, "o") {
            Commands::OpenShort
        } else if same_text(s, "new") {
            Commands::New
        } else if same_text(s, "w") {
            Commands::Save
        } else if same_text(s, "wq") {
            Commands::SaveAnQuit
        } else if same_text(s, "debug") {
            Commands::Debug
        } else {
            Commands::Unknown
        }
    }

    /// The name of the command.
    pub fn as_str(&self) -> (r: &'static str)
        ensures
            r@ == name_spec(*self),
    {
        match *self {
            Commands::Quit => "q",
            Commands::ForceQuit => "wq!",
            Commands::LineNumbers => "ln",
            Commands::Stats => "stats",
            Commands::Help => "help",
            Commands::Open => "open",
            Commands::OpenShort => "o",
            Commands::New => "new",
            Commands::Save => "w",
            Commands::SaveAnQuit => "wq",
            Commands::Debug => "debug",
            Commands::Unknown => "",
        }
    }
}

/// Every command is the one that its name names.
pub proof fn lemma_parse_name(command: Commands)
    ensures
        parse_spec(name_spec(command)) == command,
{
    reveal_strlit("q");
    reveal_strlit("q!");
    reveal_strlit("wq!");
    reveal_strlit("ln");
    reveal_strlit("stats");
    reveal_strlit("help");
    reveal_strlit("open");
    reveal_strlit("o");
    reveal_strlit("new");
    reveal_strlit("w");
    reveal_strlit("wq");
    reveal_strlit("debug");
    reveal_strlit("");
    assert("q"@.len() == 1);
    assert("q!"@.len() == 2);
    assert("wq!"@.len() == 3);
    assert("ln"@.len() == 2);
    assert("stats"@.len() == 5);
    assert("help"@.len() == 4);
    assert("open"@.len() == 4);
    assert("o"@.len() == 1);
    assert("new"@.len() == 3);
    assert("w"@.len() == 1);
    assert("wq"@.len() == 2);
    assert("debug"@.len() == 5);
    assert(""@.len() == 0);
    assert("q"@[0] == 'q');
    assert("o"@[0] == 'o');
    assert("w"@[0] == 'w');
    assert("q!"@[0] == 'q');
    assert("ln"@[0] == 'l');
    assert("wq"@[0] == 'w');
    assert("wq!"@[0] == 'w');
    assert("new"@[0] == 'n');
    assert("stats"@[0] == 's');
    assert("debug"@[0] == 'd');
    assert("help"@[0] == 'h');
    assert("open"@[0] == 'o');
}

} // verus!
