//! The selection and checkout controller: the branch list, the cursor over it,
//! the outcome of the last checkout attempt, and the transitions between them.

use vstd::prelude::*;
use crate::names::{is_branch_list, views};

verus! {

/// A discrete input of the interactive session.
#[derive(Clone, Copy, Debug, PartialEq, Eq, Structural)]
pub enum InputEvent {
    NavigateUp,
    NavigateDown,
    Confirm,
    Quit,
}

/// A key press, as far as the session tells keys apart.
#[derive(Clone, Copy, Debug, PartialEq, Eq, Structural)]
pub enum Key {
    Up,
    Down,
    Enter,
    Esc,
    Char(char),
    Other,
}

/// Why a checkout attempt failed; each carries the repository's own message.
#[derive(Clone, Debug, PartialEq, Eq)]
pub enum CheckoutError {
    /// The branch name no longer resolves to a commit.
    UnresolvedBranch(String),
    /// The tree checkout would overwrite local changes; nothing was touched.
    WorkingTreeConflict(String),
    /// The tree was switched but the head could not be moved.
    HeadUpdateFailed(String),
}

/// Why the session could not start.
#[derive(Clone, Debug, PartialEq, Eq)]
pub enum StartupError {
    RepositoryNotFound(String),
    BranchEnumerationError(String),
}

/// The outcome of the most recent checkout attempt.
#[derive(Clone, Debug, PartialEq, Eq)]
pub enum SessionStatus {
    NoAttemptYet,
    /// The head now points at this branch.
    Success(String),
    Failure(String, CheckoutError),
}

#[derive(Clone, Copy, Debug, PartialEq, Eq, Structural)]
pub enum Phase {
    Browsing,
    Terminated,
}

/// What the caller has to do after an event.
#[derive(Clone, Debug, PartialEq, Eq)]
pub enum Action {
    Nothing,
    /// Run the checkout protocol on this branch and report its result.
    Checkout(String),
    /// End the session.
    Exit,
}

/// The event a key stands for, if any.
pub open spec fn key_event(key: Key) -> Option<InputEvent> {
    match key {
        Key::Char('q') | Key::Esc => Some(InputEvent::Quit),
        Key::Down | Key::Char('j') => Some(InputEvent::NavigateDown),
        Key::Up | Key::Char('k') => Some(InputEvent::NavigateUp),
        Key::Enter => Some(InputEvent::Confirm),
        _ => None,
    }
}

/// Maps a key press to the event it stands for.
pub fn event_for_key(key: Key) -> (r: Option<InputEvent>)
    ensures
        r == key_event(key),
{
    match key {
        Key::Char('q') | Key::Esc => Some(InputEvent::Quit),
        Key::Down | Key::Char('j') => Some(InputEvent::NavigateDown),
        Key::Up | Key::Char('k') => Some(InputEvent::NavigateUp),
        Key::Enter => Some(InputEvent::Confirm),
        _ => None,
    }
}

/// The index after `i` in a list of `len` entries, wrapping to the first.
pub open spec fn next_index(len: nat, i: nat) -> nat {
    if i + 1 >= len {
        0
    } else {
        i + 1
    }
}

/// The index before `i` in a list of `len` entries, wrapping to the last.
pub open spec fn prev_index(len: nat, i: nat) -> nat {
    if i == 0 {
        (len - 1) as nat
    } else {
        (i - 1) as nat
    }
}

/// A cursor is absent exactly on an empty list, and in range otherwise.
pub open spec fn cursor_ok(len: nat, cursor: Option<usize>) -> bool {
    if len == 0 {
        cursor is None
    } else {
        cursor is Some && cursor->0 < len
    }
}

pub open spec fn moved_cursor(len: nat, cursor: Option<usize>, down: bool) -> Option<usize> {
    match cursor {
        None => None,
        Some(i) => Some(
            (if down {
                next_index(len, i as nat)
            } else {
                prev_index(len, i as nat)
            }) as usize,
        ),
    }
}

/// The cursor a session starts with: on the current branch if the list holds
/// it, else on the first entry; absent on an empty list.
pub open spec fn is_initial_cursor(
    names: Seq<Seq<char>>,
    current: Option<Seq<char>>,
    cursor: Option<usize>,
) -> bool {
    if names.len() == 0 {
        cursor is None
    } else if current is Some && names.contains(current->0) {
        cursor is Some && cursor->0 < names.len() && names[cursor->0 as int] == current->0
    } else {
        cursor == Some(0usize)
    }
}

pub open spec fn view_option(s: Option<String>) -> Option<Seq<char>> {
    match s {
        Some(x) => Some(x@),
        None => None,
    }
}

/// The cursor after navigating `n` times in one direction.
pub open spec fn navigate_times(len: nat, cursor: Option<usize>, down: bool, n: nat) -> Option<usize>
    decreases n,
{
    if n == 0 {
        cursor
    } else {
        navigate_times(len, moved_cursor(len, cursor, down), down, (n - 1) as nat)
    }
}

proof fn lemma_navigate_split(len: nat, cursor: Option<usize>, down: bool, a: nat, b: nat)
    ensures
        navigate_times(len, cursor, down, a + b) == navigate_times(
            len,
            navigate_times(len, cursor, down, a),
            down,
            b,
        ),
    decreases a,
{
    if a > 0 {
        lemma_navigate_split(len, moved_cursor(len, cursor, down), down, (a - 1) as nat, b);
        assert((a + b - 1) as nat == (a - 1) as nat + b);
    }
}

proof fn lemma_navigate_down_in_range(len: nat, i: usize, n: nat)
    requires
        i + n < len,
        len <= usize::MAX,
    ensures
        navigate_times(len, Some(i), true, n) == Some((i + n) as usize),
    decreases n,
{
    if n > 0 {
        assert(moved_cursor(len, Some(i), true) == Some((i + 1) as usize));
        lemma_navigate_down_in_range(len, (i + 1) as usize, (n - 1) as nat);
    }
}

proof fn lemma_navigate_up_in_range(len: nat, i: usize, n: nat)
    requires
        n <= i < len,
    ensures
        navigate_times(len, Some(i), false, n) == Some((i - n) as usize),
    decreases n,
{
    if n > 0 {
        assert(moved_cursor(len, Some(i), false) == Some((i - 1) as usize));
        lemma_navigate_up_in_range(len, (i - 1) as usize, (n - 1) as nat);
    }
}

/// Navigating as many times as the list has entries, in either direction,
/// brings the cursor back to where it started.
pub proof fn lemma_navigation_cycles(len: nat, cursor: Option<usize>, down: bool)
    requires
        cursor_ok(len, cursor),
        len <= usize::MAX,
    ensures
        navigate_times(len, cursor, down, len) == cursor,
{
    if len > 0 {
        let i = cursor->0;
        if down {
            let a = (len - 1 - i) as nat;
            lemma_navigate_split(len, cursor, true, a, (i + 1) as nat);
            assert(a + (i + 1) as nat == len);
            lemma_navigate_down_in_range(len, i, a);
            let last = (len - 1) as usize;
            assert(moved_cursor(len, Some(last), true) == Some(0usize));
            assert(navigate_times(len, Some(last), true, (i + 1) as nat) == navigate_times(
                len,
                Some(0usize),
                true,
                i as nat,
            ));
            lemma_navigate_down_in_range(len, 0usize, i as nat);
        } else {
            let b = (len - i) as nat;
            lemma_navigate_split(len, cursor, false, i as nat, b);
            lemma_navigate_up_in_range(len, i, i as nat);
            let last = (len - 1) as usize;
            assert(moved_cursor(len, Some(0usize), false) == Some(last));
            assert(navigate_times(len, Some(0usize), false, b) == navigate_times(
                len,
                Some(last),
                false,
                (b - 1) as nat,
            ));
            lemma_navigate_up_in_range(len, last, (b - 1) as nat);
        }
    }
}

/// Navigating on an empty branch list leaves the cursor absent.
pub proof fn lemma_navigation_on_empty_list(app: App, ev: InputEvent)
    requires
        app.wf(),
        app.phase == Phase::Browsing,
        app.names().len() == 0,
        ev == InputEvent::NavigateUp || ev == InputEvent::NavigateDown,
    ensures
        app.step(ev).0.cursor is None,
        app.step(ev).0.wf(),
        app.step(ev).1 is Nothing,
{
}

/// A checkout that stopped at a working-tree conflict is recorded as such;
/// browsing goes on with the list, the cursor and the current branch as they were.
pub proof fn lemma_conflict_keeps_browsing(app: App, branch: String, message: String)
    requires
        app.wf(),
    ensures
        ({
            let after = app.after_checkout(branch, Err(CheckoutError::WorkingTreeConflict(message)));
            &&& after.wf()
            &&& after.phase == Phase::Browsing
            &&& after.status == SessionStatus::Failure(branch, CheckoutError::WorkingTreeConflict(message))
            &&& after.branches == app.branches
            &&& after.cursor == app.cursor
            &&& after.current == app.current
        }),
{
}

/// After a successful checkout the current branch is the one checked out,
/// and the session ends with success.
pub proof fn lemma_switch_updates_current(app: App, branch: String)
    requires
        app.wf(),
    ensures
        ({
            let after = app.after_checkout(branch, Ok(()));
            &&& after.current == Some(branch)
            &&& after.status == SessionStatus::Success(branch)
            &&& after.phase == Phase::Terminated
        }),
{
}

/// Quitting while browsing, before any checkout, ends the session with no
/// status to report and asks for no checkout.
pub proof fn lemma_quit_without_attempt(app: App)
    requires
        app.wf(),
        app.phase == Phase::Browsing,
        app.status is NoAttemptYet,
    ensures
        app.step(InputEvent::Quit).1 is Exit,
        app.step(InputEvent::Quit).0.phase == Phase::Terminated,
        app.step(InputEvent::Quit).0.status is NoAttemptYet,
        app.step(InputEvent::Quit).0.branches == app.branches,
        app.step(InputEvent::Quit).0.current == app.current,
{
}

/// The session after a sequence of input events, one step at a time.
pub open spec fn run_events(app: App, events: Seq<InputEvent>) -> App
    decreases events.len(),
{
    if events.len() == 0 {
        app
    } else {
        run_events(app.step(events[0]).0, events.drop_first())
    }
}

/// Whether every event of a sequence only moves the cursor.
pub open spec fn only_navigation(events: Seq<InputEvent>) -> bool {
    forall|i: int|
        0 <= i < events.len() ==> (#[trigger] events[i] == InputEvent::NavigateUp || events[i]
            == InputEvent::NavigateDown)
}

/// Navigation leaves the session browsing, its status, list and current
/// branch untouched.
pub proof fn lemma_navigation_keeps_status(app: App, events: Seq<InputEvent>)
    requires
        app.phase == Phase::Browsing,
        only_navigation(events),
    ensures
        run_events(app, events).phase == Phase::Browsing,
        run_events(app, events).status == app.status,
        run_events(app, events).branches == app.branches,
        run_events(app, events).current == app.current,
    decreases events.len(),
{
    if events.len() > 0 {
        let next = app.step(events[0]).0;
        assert(only_navigation(events.drop_first())) by {
            assert forall|i: int| 0 <= i < events.drop_first().len() implies (#[trigger] events.drop_first()[i]
                == InputEvent::NavigateUp || events.drop_first()[i] == InputEvent::NavigateDown) by {
                assert(events.drop_first()[i] == events[i + 1]);
            }
        }
        lemma_navigation_keeps_status(next, events.drop_first());
    }
}

/// A session that only navigates and then quits, before any checkout, ends
/// with no status to report and asks for no checkout on the way.
pub proof fn lemma_quit_after_navigation(app: App, events: Seq<InputEvent>)
    requires
        app.phase == Phase::Browsing,
        app.status is NoAttemptYet,
        only_navigation(events),
    ensures
        forall|i: int| 0 <= i < events.len() ==> (#[trigger] run_events(app, events.take(i)).step(
            events[i],
        ).1) is Nothing,
        run_events(app, events).step(InputEvent::Quit).1 is Exit,
        run_events(app, events.push(InputEvent::Quit)).phase == Phase::Terminated,
        run_events(app, events.push(InputEvent::Quit)).status is NoAttemptYet,
{
    lemma_navigation_keeps_status(app, events);
    assert forall|i: int| 0 <= i < events.len() implies (#[trigger] run_events(app, events.take(i)).step(
        events[i],
    ).1) is Nothing by {
        assert(only_navigation(events.take(i))) by {
            assert forall|j: int| 0 <= j < events.take(i).len() implies (#[trigger] events.take(i)[j]
                == InputEvent::NavigateUp || events.take(i)[j] == InputEvent::NavigateDown) by {
                assert(events.take(i)[j] == events[j]);
            }
        }
        lemma_navigation_keeps_status(app, events.take(i));
    }
    lemma_run_events_push(app, events, InputEvent::Quit);
}

proof fn lemma_run_events_push(app: App, events: Seq<InputEvent>, last: InputEvent)
    ensures
        run_events(app, events.push(last)) == run_events(app, events).step(last).0,
    decreases events.len(),
{
    if events.len() == 0 {
        assert(events.push(last).drop_first() =~= Seq::<InputEvent>::empty());
        assert(events.push(last)[0] == last);
        assert(run_events(app.step(last).0, Seq::<InputEvent>::empty()) == app.step(last).0);
    } else {
        assert(events.push(last).drop_first() =~= events.drop_first().push(last));
        assert(events.push(last)[0] == events[0]);
        lemma_run_events_push(app.step(events[0]).0, events.drop_first(), last);
    }
}

/// The state of an interactive session.
pub struct App {
    /// The local branches, sorted; fixed for the session.
    pub branches: Vec<String>,
    /// Index of the selected branch; absent only on an empty list.
    pub cursor: Option<usize>,
    /// The branch the head points at, as last read or set by a checkout.
    pub current: Option<String>,
    pub status: SessionStatus,
    pub phase: Phase,
    /// The directory of the working tree, for display.
    pub repo_path: String,
}

impl App {
    pub open spec fn names(&self) -> Seq<Seq<char>> {
        views(self.branches@)
    }

    pub open spec fn wf(&self) -> bool {
        is_branch_list(self.names()) && cursor_ok(self.names().len(), self.cursor)
    }

    pub open spec fn with_cursor(self, cursor: Option<usize>) -> App {
        App {
            branches: self.branches,
            cursor,
            current: self.current,
            status: self.status,
            phase: self.phase,
            repo_path: self.repo_path,
        }
    }

    pub open spec fn with_phase(self, phase: Phase) -> App {
        App {
            branches: self.branches,
            cursor: self.cursor,
            current: self.current,
            status: self.status,
            phase,
            repo_path: self.repo_path,
        }
    }

    /// The session after a checkout of `branch` that came back with `result`:
    /// success ends the session and makes `branch` the current branch; failure is recorded and browsing goes on.
    pub open spec fn after_checkout(
        self,
        branch: String,
        result: Result<(), CheckoutError>,
    ) -> App {
        match result {
            Ok(()) => App {
                branches: self.branches,
                cursor: self.cursor,
                current: Some(branch),
                status: SessionStatus::Success(branch),
                phase: Phase::Terminated,
                repo_path: self.repo_path,
            },
            Err(e) => App {
                branches: self.branches,
                cursor: self.cursor,
                current: self.current,
                status: SessionStatus::Failure(branch, e),
                phase: Phase::Browsing,
                repo_path: self.repo_path,
            },
        }
    }

    /// One transition of the session on an input event.
    pub open spec fn step(self, ev: InputEvent) -> (App, Action) {
        match self.phase {
            Phase::Terminated => (self, Action::Exit),
            Phase::Browsing => match ev {
                InputEvent::NavigateDown => (
                    self.with_cursor(moved_cursor(self.names().len(), self.cursor, true)),
                    Action::Nothing,
                ),
                InputEvent::NavigateUp => (
                    self.with_cursor(moved_cursor(self.names().len(), self.cursor, false)),
                    Action::Nothing,
                ),
                InputEvent::Quit => (self.with_phase(Phase::Terminated), Action::Exit),
                InputEvent::Confirm => match self.cursor {
                    Some(i) => (self, Action::Checkout(self.branches@[i as int])),
                    None => (self, Action::Nothing),
                },
            },
        }
    }

    /// Starts a session on a sorted branch list, with the cursor on the current
    /// branch where the list holds it.
    pub fn from_parts(branches: Vec<String>, current: Option<String>, repo_path: String) -> (r: App)
        requires
            is_branch_list(views(branches@)),
        ensures
            r.wf(),
            r.branches == branches,
            r.current == current,
            r.repo_path == repo_path,
            r.status is NoAttemptYet,
            r.phase == Phase::Browsing,
            is_initial_cursor(views(branches@), view_option(current), r.cursor),
    {
        let ghost names = views(branches@);
        let cursor: Option<usize> = if branches.len() == 0 {
            None
        } else {
            match &current {
                None => Some(0),
                Some(c) => {
                    let mut i: usize = 0;
                    let mut found = false;
                    while !found && i < branches.len()
                        invariant
                            i <= branches@.len(),
                            names == views(branches@),
                            found ==> i < branches@.len() && names[i as int] == c@,
                            !found ==> forall|k: int| 0 <= k < i ==> names[k] != c@,
                        decreases branches@.len() - i, (if found { 0int } else { 1int }),
                    {
                        if branches[i] == *c {
                            found = true;
                        } else {
                            i = i + 1;
                        }
                    }
                    if found {
                        Some(i)
                    } else {
                        assert(!names.contains(c@));
                        Some(0)
                    }
                },
            }
        };
        App {
            branches,
            cursor,
            current,
            status: SessionStatus::NoAttemptYet,
            phase: Phase::Browsing,
            repo_path,
        }
    }

    /// Moves the cursor down one entry, from the last to the first.
    pub fn next(&mut self)
        requires
            old(self).wf(),
        ensures
            final(self).wf(),
            *final(self) == old(self).with_cursor(
                moved_cursor(old(self).names().len(), old(self).cursor, true),
            ),
    {
        if let Some(i) = self.cursor {
            let n = if i >= self.branches.len() - 1 {
                0
            } else {
                i + 1
            };
            self.cursor = Some(n);
        }
    }

    /// Moves the cursor up one entry, from the first to the last.
    pub fn previous(&mut self)
        requires
            old(self).wf(),
        ensures
            final(self).wf(),
            *final(self) == old(self).with_cursor(
                moved_cursor(old(self).names().len(), old(self).cursor, false),
            ),
    {
        if let Some(i) = self.cursor {
            let n = if i == 0 {
                self.branches.len() - 1
            } else {
                i - 1
            };
            self.cursor = Some(n);
        }
    }

    /// Applies one input event and says what the caller must do next.
    pub fn handle_event(&mut self, ev: InputEvent) -> (a: Action)
        requires
            old(self).wf(),
        ensures
            final(self).wf(),
            (*final(self), a) == old(self).step(ev),
    {
        if self.phase == Phase::Terminated {
            return Action::Exit;
        }
        match ev {
            InputEvent::NavigateDown => {
                self.next();
                Action::Nothing
            },
            InputEvent::NavigateUp => {
                self.previous();
                Action::Nothing
            },
            InputEvent::Quit => {
                self.phase = Phase::Terminated;
                Action::Exit
            },
            InputEvent::Confirm => match self.cursor {
                Some(i) => Action::Checkout(self.branches[i].clone()),
                None => Action::Nothing,
            },
        }
    }

    /// Records what a checkout of `branch` came back with.
    pub fn record_checkout(&mut self, branch: String, result: Result<(), CheckoutError>)
        requires
            old(self).wf(),
        ensures
            final(self).wf(),
            *final(self) == old(self).after_checkout(branch, result),
    {
        match result {
            Ok(()) => {
                self.current = Some(branch.clone());
                self.status = SessionStatus::Success(branch);
                self.phase = Phase::Terminated;
            },
            Err(e) => {
                self.status = SessionStatus::Failure(branch, e);
                self.phase = Phase::Browsing;
            },
        }
    }
}

} // verus!
