//! The commands of the program, as given on its command line.

use vstd::prelude::*;
use crate::session::{
    asking, finish, finished, minimize_window, restore_all_windows, restore_last_window,
    restore_window, restoring, show_status, window_query, AfterCommandView, AfterStoreView,
    NextView, Step, StepView,
};

verus! {

/// What the program is asked to do.
#[derive(Clone, Debug, PartialEq, Eq)]
pub enum Command {
    /// Hide the active window.
    Minimize,
    /// Bring back the window with this key, or one that the picker chooses.
    Restore(Option<String>),
    /// Bring back the window that was hidden last.
    RestoreLast,
    /// Bring back all hidden windows, oldest first.
    RestoreAll,
    /// Print the status.
    Show,
    /// Say how the program is used.
    Usage,
}

/// The mathematical value of a `Command`.
pub enum CommandView {
    Minimize,
    Restore(Option<Seq<char>>),
    RestoreLast,
    RestoreAll,
    Show,
    Usage,
}

impl View for Command {
    type V = CommandView;

    open spec fn view(&self) -> CommandView {
        match self {
            Command::Minimize => CommandView::Minimize,
            Command::Restore(key) => CommandView::Restore(key.deep_view()),
            Command::RestoreLast => CommandView::RestoreLast,
            Command::RestoreAll => CommandView::RestoreAll,
            Command::Show => CommandView::Show,
            Command::Usage => CommandView::Usage,
        }
    }
}

/// The command that a command line asks for. Its first word is the name of
/// the program, its second the command, and for `restore` its third, where
/// it has one, the key of a window. A command line without a command, or
/// with an unknown one, asks for the usage.
pub open spec fn command_of(arguments: Seq<Seq<char>>) -> CommandView {
    if arguments.len() < 2 {
        CommandView::Usage
    } else if arguments[1] == "minimize"@ {
        CommandView::Minimize
    } else if arguments[1] == "restore"@ {
        CommandView::Restore(
            if arguments.len() > 2 {
                Some(arguments[2])
            } else {
                None
            },
        )
    } else if arguments[1] == "restore-all"@ {
        CommandView::RestoreAll
    } else if arguments[1] == "restore-last"@ {
        CommandView::RestoreLast
    } else if arguments[1] == "show"@ {
        CommandView::Show
    } else {
        CommandView::Usage
    }
}

/// Whether `given` is the word `word`.
fn is_word(given: &String, word: &str) -> (same: bool)
    ensures
        same == (given@ == word@),
{
    let wanted = word.to_owned();
    *given == wanted
}

/// The command that a command line asks for.
pub fn parse_command(arguments: &Vec<String>) -> (command: Command)
    ensures
        command@ == command_of(arguments.deep_view()),
{
    if arguments.len() < 2 {
        return Command::Usage;
    }
    let word = &arguments[1];
    if is_word(word, "minimize") {
        Command::Minimize
    } else if is_word(word, "restore") {
        if arguments.len() > 2 {
            Command::Restore(Some(arguments[2].clone()))
        } else {
            Command::Restore(None)
        }
    } else if is_word(word, "restore-all") {
        Command::RestoreAll
    } else if is_word(word, "restore-last") {
        Command::RestoreLast
    } else if is_word(word, "show") {
        Command::Show
    } else {
        Command::Usage
    }
}

/// The first step of a command. For the usage there is nothing to ask: the
/// run is over at once.
pub open spec fn first_step(command: CommandView) -> StepView {
    match command {
        CommandView::Minimize => asking(
            NextView::Run { arguments: window_query(), then: AfterCommandView::ActiveWindow },
        ),
        CommandView::Restore(Some(key)) => asking(restoring(seq![key])),
        CommandView::Restore(None) => asking(NextView::ReadStore { then: AfterStoreView::Menu }),
        CommandView::RestoreLast => asking(NextView::ReadStore { then: AfterStoreView::Last }),
        CommandView::RestoreAll => asking(NextView::ReadStore { then: AfterStoreView::All }),
        CommandView::Show => asking(NextView::ReadStore { then: AfterStoreView::Status }),
        CommandView::Usage => finished(),
    }
}

/// The first step of a command.
pub fn begin(command: &Command) -> (step: Step)
    ensures
        step@ == first_step(command@),
{
    match command {
        Command::Minimize => minimize_window(),
        Command::Restore(Some(key)) => restore_window(Some(key.as_str())),
        Command::Restore(None) => restore_window(None),
        Command::RestoreLast => restore_last_window(),
        Command::RestoreAll => restore_all_windows(),
        Command::Show => show_status(),
        Command::Usage => finish(),
    }
}

} // verus!
