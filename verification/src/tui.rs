//! What a key asks of the client: the command behind each key, and which
//! repository is the current one after a switch or a close.

use vstd::prelude::*;
use crate::action::Action;

verus! {

/// What an action needs from the user before it can start.
#[derive(Clone, Copy, Debug)]
pub enum Request {
    /// Nothing: the action starts at once.
    Nothing,
    /// A line of text, asked for with this prompt.
    Line(&'static str),
    /// A selection among the changed files.
    Selection,
    /// A selection among the changed files, then a line of text.
    SelectionThenLine(&'static str),
}

/// What a key asks for.
#[derive(Clone, Copy, Debug)]
pub enum KeyCommand {
    /// End the session.
    Quit,
    /// Make the next repository the current one.
    NextRepository,
    /// Close the current repository.
    CloseRepository,
    /// Show the keys.
    Help,
    /// Open the repository's directory in the file explorer.
    Explorer,
    /// Start an action, announced under a label, once the user has given
    /// what it needs.
    Run { action: Action, label: &'static str, request: Request },
    /// The key has no meaning.
    Ignore,
}

/// The command behind each key.
pub open spec fn command_of(key: char) -> KeyCommand {
    if key == 'q' || key == '\x03' {
        KeyCommand::Quit
    } else if key == '\x09' {
        KeyCommand::NextRepository
    } else if key == '\x1b' {
        KeyCommand::CloseRepository
    } else if key == 'h' {
        KeyCommand::Help
    } else if key == 'e' {
        KeyCommand::Explorer
    } else if key == 's' {
        KeyCommand::Run { action: Action::Status, label: "status", request: Request::Nothing }
    } else if key == 'l' {
        KeyCommand::Run { action: Action::Log, label: "log", request: Request::Nothing }
    } else if key == 'd' {
        KeyCommand::Run {
            action: Action::RevisionChanges,
            label: "revision changes",
            request: Request::Line("show changes from (ctrl+c to cancel): "),
        }
    } else if key == 'D' {
        KeyCommand::Run {
            action: Action::RevisionDiffAll,
            label: "revision diff",
            request: Request::Line("show diff from (ctrl+c to cancel): "),
        }
    } else if key == 'c' {
        KeyCommand::Run {
            action: Action::CommitAll,
            label: "commit all",
            request: Request::Line("commit message (ctrl+c to cancel): "),
        }
    } else if key == 'C' {
        KeyCommand::Run {
            action: Action::CommitSelected,
            label: "commit selected",
            request: Request::SelectionThenLine("commit message (ctrl+c to cancel): "),
        }
    } else if key == 'u' {
        KeyCommand::Run {
            action: Action::Update,
            label: "update",
            request: Request::Line("update to (ctrl+c to cancel): "),
        }
    } else if key == '\x08' {
        KeyCommand::Run { action: Action::RevertAll, label: "revert all", request: Request::Nothing }
    } else if key == '\x7f' {
        KeyCommand::Run {
            action: Action::RevertSelected,
            label: "revert selected",
            request: Request::Selection,
        }
    } else if key == 'm' {
        KeyCommand::Run {
            action: Action::Merge,
            label: "merge",
            request: Request::Line("merge with (ctrl+c to cancel): "),
        }
    } else if key == 'r' {
        KeyCommand::Run {
            action: Action::UnresolvedConflicts,
            label: "unresolved conflicts",
            request: Request::Nothing,
        }
    } else if key == 'R' {
        KeyCommand::Run {
            action: Action::MergeTakingOther,
            label: "merge taking other",
            request: Request::Nothing,
        }
    } else if key == '\x12' {
        KeyCommand::Run {
            action: Action::MergeTakingLocal,
            label: "merge taking local",
            request: Request::Nothing,
        }
    } else if key == 'f' {
        KeyCommand::Run { action: Action::Fetch, label: "fetch", request: Request::Nothing }
    } else if key == 'p' {
        KeyCommand::Run { action: Action::Pull, label: "pull", request: Request::Nothing }
    } else if key == 'P' {
        KeyCommand::Run { action: Action::Push, label: "push", request: Request::Nothing }
    } else if key == 'T' {
        KeyCommand::Run {
            action: Action::NewTag,
            label: "create tag",
            request: Request::Line("tag name (ctrl+c to cancel): "),
        }
    } else if key == 'b' {
        KeyCommand::Run {
            action: Action::ListBranches,
            label: "list branches",
            request: Request::Nothing,
        }
    } else if key == 'B' {
        KeyCommand::Run {
            action: Action::NewBranch,
            label: "create branch",
            request: Request::Line("branch name (ctrl+c to cancel): "),
        }
    } else if key == '\x02' {
        KeyCommand::Run {
            action: Action::DeleteBranch,
            label: "close branch",
            request: Request::Line("branch to close (ctrl+c to cancel): "),
        }
    } else {
        KeyCommand::Ignore
    }
}

/// The command behind a key.
pub fn handle_key(key: char) -> (command: KeyCommand)
    ensures
        command == command_of(key),
{
    match key {
        // ctrl+c
        'q' | '\x03' => KeyCommand::Quit,
        // tab
        '\x09' => KeyCommand::NextRepository,
        // esc
        '\x1b' => KeyCommand::CloseRepository,
        'h' => KeyCommand::Help,
        'e' => KeyCommand::Explorer,
        's' => KeyCommand::Run { action: Action::Status, label: "status", request: Request::Nothing },
        'l' => KeyCommand::Run { action: Action::Log, label: "log", request: Request::Nothing },
        'd' => KeyCommand::Run {
            action: Action::RevisionChanges,
            label: "revision changes",
            request: Request::Line("show changes from (ctrl+c to cancel): "),
        },
        'D' => KeyCommand::Run {
            action: Action::RevisionDiffAll,
            label: "revision diff",
            request: Request::Line("show diff from (ctrl+c to cancel): "),
        },
        'c' => KeyCommand::Run {
            action: Action::CommitAll,
            label: "commit all",
            request: Request::Line("commit message (ctrl+c to cancel): "),
        },
        'C' => KeyCommand::Run {
            action: Action::CommitSelected,
            label: "commit selected",
            request: Request::SelectionThenLine("commit message (ctrl+c to cancel): "),
        },
        'u' => KeyCommand::Run {
            action: Action::Update,
            label: "update",
            request: Request::Line("update to (ctrl+c to cancel): "),
        },
        // backspace
        '\x08' => KeyCommand::Run {
            action: Action::RevertAll,
            label: "revert all",
            request: Request::Nothing,
        },
        // ctrl+backspace
        '\x7f' => KeyCommand::Run {
            action: Action::RevertSelected,
            label: "revert selected",
            request: Request::Selection,
        },
        'm' => KeyCommand::Run {
            action: Action::Merge,
            label: "merge",
            request: Request::Line("merge with (ctrl+c to cancel): "),
        },
        'r' => KeyCommand::Run {
            action: Action::UnresolvedConflicts,
            label: "unresolved conflicts",
            request: Request::Nothing,
        },
        'R' => KeyCommand::Run {
            action: Action::MergeTakingOther,
            label: "merge taking other",
            request: Request::Nothing,
        },
        // ctrl+r
        '\x12' => KeyCommand::Run {
            action: Action::MergeTakingLocal,
            label: "merge taking local",
            request: Request::Nothing,
        },
        'f' => KeyCommand::Run { action: Action::Fetch, label: "fetch", request: Request::Nothing },
        'p' => KeyCommand::Run { action: Action::Pull, label: "pull", request: Request::Nothing },
        'P' => KeyCommand::Run { action: Action::Push, label: "push", request: Request::Nothing },
        'T' => KeyCommand::Run {
            action: Action::NewTag,
            label: "create tag",
            request: Request::Line("tag name (ctrl+c to cancel): "),
        },
        'b' => KeyCommand::Run {
            action: Action::ListBranches,
            label: "list branches",
            request: Request::Nothing,
        },
        'B' => KeyCommand::Run {
            action: Action::NewBranch,
            label: "create branch",
            request: Request::Line("branch name (ctrl+c to cancel): "),
        },
        // ctrl+b
        '\x02' => KeyCommand::Run {
            action: Action::DeleteBranch,
            label: "close branch",
            request: Request::Line("branch to close (ctrl+c to cancel): "),
        },
        _ => KeyCommand::Ignore,
    }
}

/// The current repository after a switch to the next one, where more than
/// one is open: the one after it, the first after the last.
pub fn next_repository(current: usize, count: usize) -> (next: Option<usize>)
    requires
        current < count,
    ensures
        next == if count > 1 {
            Some(((current + 1) % (count as int)) as usize)
        } else {
            None
        },
{
    if count > 1 {
        Some((current + 1) % count)
    } else {
        None
    }
}

/// Past the last repository the switch starts over at the first.
pub proof fn lemma_next_repository_wraps(current: usize, count: usize)
    requires
        current < count,
    ensures
        (current + 1) % (count as int) == if current + 1 == count {
            0
        } else {
            current + 1
        },
{
    if current + 1 == count {
        vstd::arithmetic::div_mod::lemma_mod_self_0(count as int);
    } else {
        vstd::arithmetic::div_mod::lemma_small_mod((current + 1) as nat, count as nat);
    }
}

/// The current repository after the current one of `count` was closed: the
/// one that took its place, the last one where it was the last, none where
/// it was the only one.
pub fn close_repository(current: usize, count: usize) -> (next: Option<usize>)
    requires
        current < count,
    ensures
        next == if count == 1 {
            None
        } else if current + 1 == count {
            Some((current - 1) as usize)
        } else {
            Some(current)
        },
{
    let left = count - 1;
    if left == 0 {
        None
    } else if current >= left {
        Some(left - 1)
    } else {
        Some(current)
    }
}

/// The text that the user gave when asked for a line: nothing where the
/// line is empty or could not be read, which cancels the action.
pub fn handle_input(line: Result<String, String>) -> (text: Option<String>)
    ensures
        text == match line {
            Ok(given) => if given@.len() > 0 {
                Some(given)
            } else {
                None
            },
            Err(_) => None,
        },
{
    match line {
        Ok(given) => {
            if given.as_str().is_empty() {
                None
            } else {
                Some(given)
            }
        },
        Err(_) => None,
    }
}

} // verus!
