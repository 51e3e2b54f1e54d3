//! The actions a user can ask for, the textual result of one, and the rule
//! that merges the results of several commands behind one action.

use vstd::prelude::*;
use vstd::string::*;
use crate::task::{Aggregator, Task, is_fold_trace, folds_to};

verus! {

/// The largest identity of an action.
pub const LAST_ACTION_KEY: u64 = 27;

/// What the user can ask for. An action is also the identity under which
/// its task runs: asking again supersedes the run before.
#[derive(PartialEq, Eq, Structural, Hash, Clone, Copy, Debug)]
pub enum Action {
    Quit,
    Help,
    Status,
    Log,
    LogCount,
    CurrentFullRevision,
    CurrentDiffAll,
    CurrentDiffSelected,
    RevisionChanges,
    RevisionDiffAll,
    RevisionDiffSelected,
    CommitAll,
    CommitSelected,
    Update,
    Merge,
    RevertAll,
    RevertSelected,
    UnresolvedConflicts,
    MergeTakingOther,
    MergeTakingLocal,
    Fetch,
    Pull,
    Push,
    NewTag,
    ListBranches,
    NewBranch,
    DeleteBranch,
    CustomAction,
}

impl Action {
    /// The text shown for the action.
    pub open spec fn label(self) -> Seq<char> {
        match self {
            Action::Quit => "quit"@,
            Action::Help => "help"@,
            Action::Status => "status"@,
            Action::Log => "log"@,
            Action::LogCount => "log count"@,
            Action::CurrentFullRevision => "revision full contents"@,
            Action::CurrentDiffAll => "current diff all"@,
            Action::CurrentDiffSelected => "current diff selected"@,
            Action::RevisionChanges => "revision changes"@,
            Action::RevisionDiffAll => "revision diff all"@,
            Action::RevisionDiffSelected => "revision diff selected"@,
            Action::CommitAll => "commit all"@,
            Action::CommitSelected => "commit selected"@,
            Action::Update => "update/checkout"@,
            Action::Merge => "merge"@,
            Action::RevertAll => "revert all"@,
            Action::RevertSelected => "revert selected"@,
            Action::UnresolvedConflicts => "unresolved conflicts"@,
            Action::MergeTakingOther => "merge taking other"@,
            Action::MergeTakingLocal => "merge taking local"@,
            Action::Fetch => "fetch"@,
            Action::Pull => "pull"@,
            Action::Push => "push"@,
            Action::NewTag => "new tag"@,
            Action::ListBranches => "list branches"@,
            Action::NewBranch => "new branch"@,
            Action::DeleteBranch => "delete branch"@,
            Action::CustomAction => "custom action"@,
        }
    }

    pub fn name(self) -> (s: &'static str)
        ensures
            s@ == self.label(),
    {
        match self {
            Self::Quit => "quit",
            Self::Help => "help",
            Self::Status => "status",
            Self::Log => "log",
            Self::LogCount => "log count",
            Self::CurrentFullRevision => "revision full contents",
            Self::CurrentDiffAll => "current diff all",
            Self::CurrentDiffSelected => "current diff selected",
            Self::RevisionChanges => "revision changes",
            Self::RevisionDiffAll => "revision diff all",
            Self::RevisionDiffSelected => "revision diff selected",
            Self::CommitAll => "commit all",
            Self::CommitSelected => "commit selected",
            Self::Update => "update/checkout",
            Self::Merge => "merge",
            Self::RevertAll => "revert all",
            Self::RevertSelected => "revert selected",
            Self::UnresolvedConflicts => "unresolved conflicts",
            Self::MergeTakingOther => "merge taking other",
            Self::MergeTakingLocal => "merge taking local",
            Self::Fetch => "fetch",
            Self::Pull => "pull",
            Self::Push => "push",
            Self::NewTag => "new tag",
            Self::ListBranches => "list branches",
            Self::NewBranch => "new branch",
            Self::DeleteBranch => "delete branch",
            Self::CustomAction => "custom action",
        }
    }

    /// The number that stands for the action where an identity is a number.
    pub open spec fn key(self) -> u64 {
        match self {
            Action::Quit => 0,
            Action::Help => 1,
            Action::Status => 2,
            Action::Log => 3,
            Action::LogCount => 4,
            Action::CurrentFullRevision => 5,
            Action::CurrentDiffAll => 6,
            Action::CurrentDiffSelected => 7,
            Action::RevisionChanges => 8,
            Action::RevisionDiffAll => 9,
            Action::RevisionDiffSelected => 10,
            Action::CommitAll => 11,
            Action::CommitSelected => 12,
            Action::Update => 13,
            Action::Merge => 14,
            Action::RevertAll => 15,
            Action::RevertSelected => 16,
            Action::UnresolvedConflicts => 17,
            Action::MergeTakingOther => 18,
            Action::MergeTakingLocal => 19,
            Action::Fetch => 20,
            Action::Pull => 21,
            Action::Push => 22,
            Action::NewTag => 23,
            Action::ListBranches => 24,
            Action::NewBranch => 25,
            Action::DeleteBranch => 26,
            Action::CustomAction => 27,
        }
    }

    /// The identity under which the action's task runs.
    pub fn id(self) -> (k: u64)
        ensures
            k == self.key(),
    {
        match self {
            Self::Quit => 0,
            Self::Help => 1,
            Self::Status => 2,
            Self::Log => 3,
            Self::LogCount => 4,
            Self::CurrentFullRevision => 5,
            Self::CurrentDiffAll => 6,
            Self::CurrentDiffSelected => 7,
            Self::RevisionChanges => 8,
            Self::RevisionDiffAll => 9,
            Self::RevisionDiffSelected => 10,
            Self::CommitAll => 11,
            Self::CommitSelected => 12,
            Self::Update => 13,
            Self::Merge => 14,
            Self::RevertAll => 15,
            Self::RevertSelected => 16,
            Self::UnresolvedConflicts => 17,
            Self::MergeTakingOther => 18,
            Self::MergeTakingLocal => 19,
            Self::Fetch => 20,
            Self::Pull => 21,
            Self::Push => 22,
            Self::NewTag => 23,
            Self::ListBranches => 24,
            Self::NewBranch => 25,
            Self::DeleteBranch => 26,
            Self::CustomAction => 27,
        }
    }

    /// The action that runs under the identity `k`, if there is one.
    pub fn from_id(k: u64) -> (a: Option<Action>)
        ensures
            match a {
                Some(action) => action.key() == k,
                None => k > LAST_ACTION_KEY,
            },
    {
        match k {
            0 => Some(Self::Quit),
            1 => Some(Self::Help),
            2 => Some(Self::Status),
            3 => Some(Self::Log),
            4 => Some(Self::LogCount),
            5 => Some(Self::CurrentFullRevision),
            6 => Some(Self::CurrentDiffAll),
            7 => Some(Self::CurrentDiffSelected),
            8 => Some(Self::RevisionChanges),
            9 => Some(Self::RevisionDiffAll),
            10 => Some(Self::RevisionDiffSelected),
            11 => Some(Self::CommitAll),
            12 => Some(Self::CommitSelected),
            13 => Some(Self::Update),
            14 => Some(Self::Merge),
            15 => Some(Self::RevertAll),
            16 => Some(Self::RevertSelected),
            17 => Some(Self::UnresolvedConflicts),
            18 => Some(Self::MergeTakingOther),
            19 => Some(Self::MergeTakingLocal),
            20 => Some(Self::Fetch),
            21 => Some(Self::Pull),
            22 => Some(Self::Push),
            23 => Some(Self::NewTag),
            24 => Some(Self::ListBranches),
            25 => Some(Self::NewBranch),
            26 => Some(Self::DeleteBranch),
            27 => Some(Self::CustomAction),
            _ => None,
        }
    }

    /// The identities of the actions are the numbers up to the last one.
    pub proof fn lemma_key_range(self)
        ensures
            self.key() <= LAST_ACTION_KEY,
    {
    }

    /// No two actions share a name: the names differ in their length, or
    /// in their first, third or last character.
    pub proof fn lemma_names_distinct(a: Action, b: Action)
        requires
            a.label() == b.label(),
        ensures
            a == b,
    {
        reveal_strlit("quit");
        assert("quit"@.len() == 4 && "quit"@[0] == 'q' && "quit"@[2] == 'i' && "quit"@[3] == 't');
        reveal_strlit("help");
        assert("help"@.len() == 4 && "help"@[0] == 'h' && "help"@[2] == 'l' && "help"@[3] == 'p');
        reveal_strlit("status");
        assert("status"@.len() == 6 && "status"@[0] == 's' && "status"@[2] == 'a' && "status"@[5] == 's');
        reveal_strlit("log");
        assert("log"@.len() == 3 && "log"@[0] == 'l' && "log"@[2] == 'g' && "log"@[2] == 'g');
        reveal_strlit("log count");
        assert("log count"@.len() == 9 && "log count"@[0] == 'l' && "log count"@[2] == 'g' && "log count"@[8] == 't');
        reveal_strlit("revision full contents");
        assert("revision full contents"@.len() == 22 && "revision full contents"@[0] == 'r' && "revision full contents"@[2] == 'v' && "revision full contents"@[21] == 's');
        reveal_strlit("current diff all");
        assert("current diff all"@.len() == 16 && "current diff all"@[0] == 'c' && "current diff all"@[2] == 'r' && "current diff all"@[15] == 'l');
        reveal_strlit("current diff selected");
        assert("current diff selected"@.len() == 21 && "current diff selected"@[0] == 'c' && "current diff selected"@[2] == 'r' && "current diff selected"@[20] == 'd');
        reveal_strlit("revision changes");
        assert("revision changes"@.len() == 16 && "revision changes"@[0] == 'r' && "revision changes"@[2] == 'v' && "revision changes"@[15] == 's');
        reveal_strlit("revision diff all");
        assert("revision diff all"@.len() == 17 && "revision diff all"@[0] == 'r' && "revision diff all"@[2] == 'v' && "revision diff all"@[16] == 'l');
        reveal_strlit("revision diff selected");
        assert("revision diff selected"@.len() == 22 && "revision diff selected"@[0] == 'r' && "revision diff selected"@[2] == 'v' && "revision diff selected"@[21] == 'd');
        reveal_strlit("commit all");
        assert("commit all"@.len() == 10 && "commit all"@[0] == 'c' && "commit all"@[2] == 'm' && "commit all"@[9] == 'l');
        reveal_strlit("commit selected");
        assert("commit selected"@.len() == 15 && "commit selected"@[0] == 'c' && "commit selected"@[2] == 'm' && "commit selected"@[14] == 'd');
        reveal_strlit("update/checkout");
        assert("update/checkout"@.len() == 15 && "update/checkout"@[0] == 'u' && "update/checkout"@[2] == 'd' && "update/checkout"@[14] == 't');
        reveal_strlit("merge");
        assert("merge"@.len() == 5 && "merge"@[0] == 'm' && "merge"@[2] == 'r' && "merge"@[4] == 'e');
        reveal_strlit("revert all");
        assert("revert all"@.len() == 10 && "revert all"@[0] == 'r' && "revert all"@[2] == 'v' && "revert all"@[9] == 'l');
        reveal_strlit("revert selected");
        assert("revert selected"@.len() == 15 && "revert selected"@[0] == 'r' && "revert selected"@[2] == 'v' && "revert selected"@[14] == 'd');
        reveal_strlit("unresolved conflicts");
        assert("unresolved conflicts"@.len() == 20 && "unresolved conflicts"@[0] == 'u' && "unresolved conflicts"@[2] == 'r' && "unresolved conflicts"@[19] == 's');
        reveal_strlit("merge taking other");
        assert("merge taking other"@.len() == 18 && "merge taking other"@[0] == 'm' && "merge taking other"@[2] == 'r' && "merge taking other"@[17] == 'r');
        reveal_strlit("merge taking local");
        assert("merge taking local"@.len() == 18 && "merge taking local"@[0] == 'm' && "merge taking local"@[2] == 'r' && "merge taking local"@[17] == 'l');
        reveal_strlit("fetch");
        assert("fetch"@.len() == 5 && "fetch"@[0] == 'f' && "fetch"@[2] == 't' && "fetch"@[4] == 'h');
        reveal_strlit("pull");
        assert("pull"@.len() == 4 && "pull"@[0] == 'p' && "pull"@[2] == 'l' && "pull"@[3] == 'l');
        reveal_strlit("push");
        assert("push"@.len() == 4 && "push"@[0] == 'p' && "push"@[2] == 's' && "push"@[3] == 'h');
        reveal_strlit("new tag");
        assert("new tag"@.len() == 7 && "new tag"@[0] == 'n' && "new tag"@[2] == 'w' && "new tag"@[6] == 'g');
        reveal_strlit("list branches");
        assert("list branches"@.len() == 13 && "list branches"@[0] == 'l' && "list branches"@[2] == 's' && "list branches"@[12] == 's');
        reveal_strlit("new branch");
        assert("new branch"@.len() == 10 && "new branch"@[0] == 'n' && "new branch"@[2] == 'w' && "new branch"@[9] == 'h');
        reveal_strlit("delete branch");
        assert("delete branch"@.len() == 13 && "delete branch"@[0] == 'd' && "delete branch"@[2] == 'l' && "delete branch"@[12] == 'h');
        reveal_strlit("custom action");
        assert("custom action"@.len() == 13 && "custom action"@[0] == 'c' && "custom action"@[2] == 's' && "custom action"@[12] == 'n');
    }

    /// Two actions that share an identity are one action.
    pub proof fn lemma_key_injective(a: Action, b: Action)
        requires
            a.key() == b.key(),
        ensures
            a == b,
    {
    }
}

/// The outcome of an action: the captured text, tagged as success or failure.
#[derive(Debug)]
pub struct ActionResult(pub Result<String, String>);

impl View for ActionResult {
    type V = Result<Seq<char>, Seq<char>>;

    open spec fn view(&self) -> Result<Seq<char>, Seq<char>> {
        match self.0 {
            Ok(text) => Ok(text@),
            Err(text) => Err(text@),
        }
    }
}

impl Clone for ActionResult {
    fn clone(&self) -> (r: Self)
        ensures
            r@ == self@,
    {
        match &self.0 {
            Ok(text) => ActionResult(Ok(text.clone())),
            Err(text) => ActionResult(Err(text.clone())),
        }
    }
}

/// An action together with the task that carries it out.
pub struct ActionFuture<K: Task<Output = ActionResult>> {
    pub action: Action,
    pub task: K,
}

/// The text that an outcome carries, whatever its tag.
pub open spec fn text_of(r: Result<Seq<char>, Seq<char>>) -> Seq<char> {
    match r {
        Ok(text) => text,
        Err(text) => text,
    }
}

/// Two outcomes as one: the texts joined by a line break, a success only
/// where both are.
pub open spec fn merged(first: Result<Seq<char>, Seq<char>>, second: Result<Seq<char>, Seq<char>>) -> Result<
    Seq<char>,
    Seq<char>,
> {
    let text = text_of(first) + seq!['\n'] + text_of(second);
    if first is Ok && second is Ok {
        Ok(text)
    } else {
        Err(text)
    }
}

/// The outcomes `s` merged from the left, the first as the seed.
pub open spec fn merged_all(s: Seq<Result<Seq<char>, Seq<char>>>) -> Result<Seq<char>, Seq<char>>
    recommends
        s.len() > 0,
    decreases s.len(),
{
    if s.len() <= 1 {
        s[0]
    } else {
        merged(merged_all(s.drop_last()), s.last())
    }
}

/// Folds `second` into `first`: failure dominates, the texts are joined by a
/// line break.
pub fn action_aggregator(first: &mut ActionResult, second: &ActionResult)
    ensures
        final(first)@ == merged(old(first)@, second@),
{
    let mut temp: Result<String, String> = Err(String::new());
    core::mem::swap(&mut first.0, &mut temp);
    let ok: bool;
    let mut text = match temp {
        Ok(text) => {
            ok = true;
            text
        },
        Err(text) => {
            ok = false;
            text
        },
    };
    proof {
        reveal_strlit("\n");
        assert("\n"@ =~= seq!['\n']);
    }
    text.append("\n");
    match &second.0 {
        Ok(b) => {
            text.append(b.as_str());
            if ok {
                first.0 = Ok(text);
            } else {
                first.0 = Err(text);
            }
        },
        Err(b) => {
            text.append(b.as_str());
            first.0 = Err(text);
        },
    }
}

/// The rule `action_aggregator`, as a value that a combinator can hold.
#[derive(Clone, Copy, Debug)]
pub struct ActionAggregator;

impl Aggregator<ActionResult> for ActionAggregator {
    open spec fn combines(&self, acc: ActionResult, next: ActionResult, out: ActionResult) -> bool {
        out@ == merged(acc@, next@)
    }

    fn aggregate(&self, acc: &mut ActionResult, next: &ActionResult) {
        action_aggregator(acc, next);
    }
}

/// The views of the outcomes `s`.
pub open spec fn views(s: Seq<ActionResult>) -> Seq<Result<Seq<char>, Seq<char>>> {
    Seq::new(s.len(), |i: int| s[i]@)
}

/// Whatever `ActionAggregator` folds out of `s` is the outcomes of `s`
/// merged from the left.
pub proof fn lemma_action_fold(s: Seq<ActionResult>, out: ActionResult)
    requires
        folds_to(ActionAggregator, s, out),
    ensures
        s.len() > 0,
        out@ == merged_all(views(s)),
{
    let accs = choose|accs: Seq<ActionResult>| #[trigger]
        is_fold_trace(ActionAggregator, s, accs) && accs.last() == out;
    lemma_action_trace(s, accs, s.len() as int);
    assert(views(s).take(s.len() as int) =~= views(s));
}

proof fn lemma_action_trace(s: Seq<ActionResult>, accs: Seq<ActionResult>, k: int)
    requires
        is_fold_trace(ActionAggregator, s, accs),
        1 <= k <= s.len(),
    ensures
        accs[k - 1]@ == merged_all(views(s).take(k)),
    decreases k,
{
    let v = views(s).take(k);
    if k == 1 {
        assert(v[0] == s[0]@);
    } else {
        lemma_action_trace(s, accs, k - 1);
        assert(v.drop_last() =~= views(s).take(k - 1));
        assert(v.last() == s[k - 1]@);
        assert(ActionAggregator.combines(accs[k - 2], s[k - 1], accs[k - 1]));
    }
}

} // verus!
