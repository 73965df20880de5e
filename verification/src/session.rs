//! The dispatcher and the session loop's transition function.
//!
//! The loop itself belongs to the caller: it renders the prompt, reads a line,
//! hands the outcome to `Session::step`, and carries out the action that comes
//! back. Which action that is, and how the session's state changes, is decided
//! here.

use vstd::prelude::*;
use vstd::string::*;
use crate::errors::{ErrorView, ShellError};
use crate::history::{is_entry, History};
use crate::registry::{is_registry_name, lemma_names_distinct, registry_kind, Registry};
use crate::runner::{tail_of, InvocationRequest, RequestView};
use crate::split::{
    lemma_no_runs_iff_only_separators, only_separators, runs_of, split_runs, Separator,
};
use crate::text::{same_text, views};

verus! {

/// What one input line asks for.
#[derive(Clone, Debug, PartialEq, Eq)]
pub enum Dispatch {
    /// The line holds no token: nothing is dispatched.
    Nothing,
    /// End the session.
    Exit,
    /// List the registry.
    Help,
    /// Switch the current database label to this one.
    UseDb(String),
    /// Run this command through the process runner.
    Run(InvocationRequest),
    /// Report this error; nothing else happens.
    Error(ShellError),
}

/// A `Dispatch` as plain values.
pub enum DispatchView {
    Nothing,
    Exit,
    Help,
    UseDb(Seq<char>),
    Run(RequestView),
    Error(ErrorView),
}

impl View for Dispatch {
    type V = DispatchView;

    open spec fn view(&self) -> DispatchView {
        match self {
            Dispatch::Nothing => DispatchView::Nothing,
            Dispatch::Exit => DispatchView::Exit,
            Dispatch::Help => DispatchView::Help,
            Dispatch::UseDb(name) => DispatchView::UseDb(name@),
            Dispatch::Run(request) => DispatchView::Run(request@),
            Dispatch::Error(error) => DispatchView::Error(error@),
        }
    }
}

/// The tokens of a line: its maximal runs of characters that are not ASCII
/// whitespace. There is no quoting and no escaping.
pub open spec fn tokens_of(line: Seq<char>) -> Seq<Seq<char>> {
    runs_of(Separator::Whitespace, line)
}

/// What the tokens of a line ask for. The first token is the command's name.
/// `exit` and `help` come first, then `use_db`, which takes exactly one
/// argument, then the registry; any other name is unknown.
pub open spec fn dispatch_of_tokens(tokens: Seq<Seq<char>>) -> DispatchView {
    if tokens.len() == 0 {
        DispatchView::Nothing
    } else if tokens[0] == "exit"@ {
        DispatchView::Exit
    } else if tokens[0] == "help"@ {
        DispatchView::Help
    } else if tokens[0] == "use_db"@ {
        if tokens.len() == 2 {
            DispatchView::UseDb(tokens[1])
        } else {
            DispatchView::Error(ErrorView::UserInputError)
        }
    } else if is_registry_name(tokens[0]) {
        DispatchView::Run(RequestView { command: tokens[0], arguments: tokens.skip(1) })
    } else {
        DispatchView::Error(ErrorView::UnknownCommand(tokens[0]))
    }
}

/// What a line asks for.
pub open spec fn dispatch_of(line: Seq<char>) -> DispatchView {
    dispatch_of_tokens(tokens_of(line))
}

/// Splits a line into its tokens.
pub fn tokenize(line: &str) -> (tokens: Vec<String>)
    ensures
        views(tokens@) == tokens_of(line@),
{
    split_runs(line, Separator::Whitespace)
}

/// Resolves the tokens of one line.
pub fn dispatch_tokens(registry: &Registry, tokens: &Vec<String>) -> (dispatch: Dispatch)
    ensures
        dispatch@ == dispatch_of_tokens(views(tokens@)),
{
    if tokens.len() == 0 {
        return Dispatch::Nothing;
    }
    let name: &str = tokens[0].as_str();
    assert(views(tokens@)[0] == name@);
    if same_text(name, "exit") {
        Dispatch::Exit
    } else if same_text(name, "help") {
        Dispatch::Help
    } else if same_text(name, "use_db") {
        if tokens.len() == 2 {
            assert(views(tokens@)[1] == tokens@[1]@);
            Dispatch::UseDb(tokens[1].clone())
        } else {
            Dispatch::Error(ShellError::UserInputError)
        }
    } else {
        match registry.resolve(name) {
            Some(_) => {
                let command: String = tokens[0].clone();
                let arguments: Vec<String> = tail_of(tokens, 1);
                Dispatch::Run(InvocationRequest { command, arguments })
            },
            None => Dispatch::Error(ShellError::UnknownCommand(tokens[0].clone())),
        }
    }
}

/// Resolves one input line.
pub fn dispatch(registry: &Registry, line: &str) -> (dispatch: Dispatch)
    ensures
        dispatch@ == dispatch_of(line@),
{
    let tokens: Vec<String> = tokenize(line);
    dispatch_tokens(registry, &tokens)
}

/// Where the session loop stands.
#[derive(Clone, Copy, Debug, PartialEq, Eq, Structural)]
pub enum LoopState {
    Running,
    ExitedByUser,
    ExitedByInterrupt,
    ExitedByEndOfInput,
    ExitedByFatalIoError,
}

/// What the line source handed back.
#[derive(Clone, Debug, PartialEq, Eq)]
pub enum LineEvent {
    /// One line of input, without its line ending.
    Line(String),
    /// The user sent the break signal.
    Interrupted,
    /// The input is at its end.
    EndOfInput,
    /// The input stream is broken; the reason.
    IoError(String),
}

/// A `LineEvent` as plain values.
pub enum EventView {
    Line(Seq<char>),
    Interrupted,
    EndOfInput,
    IoError(Seq<char>),
}

impl View for LineEvent {
    type V = EventView;

    open spec fn view(&self) -> EventView {
        match self {
            LineEvent::Line(line) => EventView::Line(line@),
            LineEvent::Interrupted => EventView::Interrupted,
            LineEvent::EndOfInput => EventView::EndOfInput,
            LineEvent::IoError(reason) => EventView::IoError(reason@),
        }
    }
}

/// What the loop has to do after a step.
#[derive(Clone, Debug, PartialEq, Eq)]
pub enum Action {
    /// Nothing: read the next line.
    Nothing,
    /// List the registry, then read the next line.
    ShowHelp,
    /// Tell the user that the current database is now this one.
    Switched(String),
    /// Report this error, then read the next line.
    Report(ShellError),
    /// Time and run this command, report how it ended, then read the next line.
    Run(InvocationRequest),
    /// Leave the loop in this state and persist the history.
    Stop(LoopState),
    /// Report this error, leave the loop and persist the history.
    Abort(ShellError),
}

/// An `Action` as plain values.
pub enum ActionView {
    Nothing,
    ShowHelp,
    Switched(Seq<char>),
    Report(ErrorView),
    Run(RequestView),
    Stop(LoopState),
    Abort(ErrorView),
}

impl View for Action {
    type V = ActionView;

    open spec fn view(&self) -> ActionView {
        match self {
            Action::Nothing => ActionView::Nothing,
            Action::ShowHelp => ActionView::ShowHelp,
            Action::Switched(name) => ActionView::Switched(name@),
            Action::Report(error) => ActionView::Report(error@),
            Action::Run(request) => ActionView::Run(request@),
            Action::Stop(state) => ActionView::Stop(*state),
            Action::Abort(error) => ActionView::Abort(error@),
        }
    }
}

/// The shell's own context, as plain values.
pub struct SessionView {
    pub current_db: Seq<char>,
    pub username: Seq<char>,
    pub working_dir: Seq<char>,
    pub history: Seq<Seq<char>>,
    pub state: LoopState,
}

/// The history after the line source handed back `line`: a line that is a valid
/// entry is appended, any other leaves the history as it is.
pub open spec fn history_after(history: Seq<Seq<char>>, line: Seq<char>) -> Seq<Seq<char>> {
    if is_entry(line) {
        history.push(line)
    } else {
        history
    }
}

/// The session after a step.
pub open spec fn session_after(s: SessionView, event: EventView) -> SessionView {
    if s.state != LoopState::Running {
        s
    } else {
        match event {
            EventView::Line(line) => SessionView {
                current_db: match dispatch_of(line) {
                    DispatchView::UseDb(name) => name,
                    _ => s.current_db,
                },
                history: history_after(s.history, line),
                state: match dispatch_of(line) {
                    DispatchView::Exit => LoopState::ExitedByUser,
                    _ => LoopState::Running,
                },
                ..s
            },
            EventView::Interrupted => SessionView { state: LoopState::ExitedByInterrupt, ..s },
            EventView::EndOfInput => SessionView { state: LoopState::ExitedByEndOfInput, ..s },
            EventView::IoError(_) => SessionView { state: LoopState::ExitedByFatalIoError, ..s },
        }
    }
}

/// What the loop has to do after a step.
pub open spec fn action_of(s: SessionView, event: EventView) -> ActionView {
    if s.state != LoopState::Running {
        ActionView::Stop(s.state)
    } else {
        match event {
            EventView::Line(line) => match dispatch_of(line) {
                DispatchView::Nothing => ActionView::Nothing,
                DispatchView::Exit => ActionView::Stop(LoopState::ExitedByUser),
                DispatchView::Help => ActionView::ShowHelp,
                DispatchView::UseDb(name) => ActionView::Switched(name),
                DispatchView::Run(request) => ActionView::Run(request),
                DispatchView::Error(error) => ActionView::Report(error),
            },
            EventView::Interrupted => ActionView::Stop(LoopState::ExitedByInterrupt),
            EventView::EndOfInput => ActionView::Stop(LoopState::ExitedByEndOfInput),
            EventView::IoError(reason) => ActionView::Abort(ErrorView::FatalIoError(reason)),
        }
    }
}

/// A line whose first token is a name of the registry is never answered with
/// `UnknownCommand`.
pub proof fn lemma_registry_names_are_known(line: Seq<char>)
    requires
        tokens_of(line).len() > 0,
        is_registry_name(tokens_of(line)[0]),
    ensures
        !(dispatch_of(line) matches DispatchView::Error(ErrorView::UnknownCommand(_))),
        registry_kind(tokens_of(line)[0]) is Some,
{
}

/// A line whose first token is neither a name of the registry nor `exit` nor
/// `help` is answered with `UnknownCommand` for that token, and the step
/// changes nothing of the session but the history, which takes the line as the
/// line source recorded it.
pub proof fn lemma_unknown_names_change_nothing(s: SessionView, line: Seq<char>)
    requires
        s.state == LoopState::Running,
        tokens_of(line).len() > 0,
        !is_registry_name(tokens_of(line)[0]),
        tokens_of(line)[0] != "exit"@,
        tokens_of(line)[0] != "help"@,
    ensures
        dispatch_of(line) == DispatchView::Error(ErrorView::UnknownCommand(tokens_of(line)[0])),
        action_of(s, EventView::Line(line)) == ActionView::Report(
            ErrorView::UnknownCommand(tokens_of(line)[0]),
        ),
        session_after(s, EventView::Line(line)) == (SessionView {
            history: history_after(s.history, line),
            ..s
        }),
{
}

/// `use_db` without an argument is a user input error and leaves the current
/// database label as it is; with exactly one argument the label becomes that
/// argument.
pub proof fn lemma_use_db(s: SessionView, line: Seq<char>)
    requires
        s.state == LoopState::Running,
        tokens_of(line).len() > 0,
        tokens_of(line)[0] == "use_db"@,
    ensures
        tokens_of(line).len() == 1 ==> {
            &&& action_of(s, EventView::Line(line)) == ActionView::Report(
                ErrorView::UserInputError,
            )
            &&& session_after(s, EventView::Line(line)).current_db == s.current_db
        },
        tokens_of(line).len() == 2 ==> {
            &&& action_of(s, EventView::Line(line)) == ActionView::Switched(tokens_of(line)[1])
            &&& session_after(s, EventView::Line(line)).current_db == tokens_of(line)[1]
        },
        tokens_of(line).len() != 2 ==> session_after(s, EventView::Line(line)).current_db
            == s.current_db,
{
    lemma_names_distinct();
}

/// A line without a token, the empty line among them, dispatches nothing and
/// changes nothing but what the line source recorded; the empty line is not
/// recorded, so it leaves the whole session as it is.
pub proof fn lemma_blank_line_is_no_op(s: SessionView, line: Seq<char>)
    requires
        s.state == LoopState::Running,
        only_separators(Separator::Whitespace, line),
    ensures
        dispatch_of(line) == DispatchView::Nothing,
        action_of(s, EventView::Line(line)) == ActionView::Nothing,
        session_after(s, EventView::Line(line)) == (SessionView {
            history: history_after(s.history, line),
            ..s
        }),
        line.len() == 0 ==> session_after(s, EventView::Line(line)) == s,
{
    lemma_no_runs_iff_only_separators(Separator::Whitespace, line);
}

/// The command's name is handed on as the first token stood, and the arguments
/// are the remaining tokens in their order: none is dropped, joined or split.
pub proof fn lemma_run_forwards_tokens(line: Seq<char>)
    requires
        dispatch_of(line) is Run,
    ensures
        seq![dispatch_of(line)->Run_0.command] + dispatch_of(line)->Run_0.arguments
            == tokens_of(line),
{
    let t = tokens_of(line);
    assert(seq![t[0]] + t.skip(1) =~= t);
}

/// A session that has left the loop stays as it is, whatever comes.
pub proof fn lemma_exited_is_final(s: SessionView, event: EventView)
    requires
        s.state != LoopState::Running,
    ensures
        session_after(s, event) == s,
        action_of(s, event) == ActionView::Stop(s.state),
{
}

/// The views of a sequence of events.
pub open spec fn event_views(events: Seq<LineEvent>) -> Seq<EventView> {
    Seq::new(events.len(), |i: int| events[i]@)
}

/// The views of a sequence of actions.
pub open spec fn action_views(actions: Seq<Action>) -> Seq<ActionView> {
    Seq::new(actions.len(), |i: int| actions[i]@)
}

/// The session after the steps for `events`, one after the other.
pub open spec fn session_after_all(s: SessionView, events: Seq<EventView>) -> SessionView
    decreases events.len(),
{
    if events.len() == 0 {
        s
    } else {
        session_after_all(session_after(s, events[0]), events.drop_first())
    }
}

/// The actions of the steps for `events`, up to and with the one that ends the
/// session.
pub open spec fn actions_of_all(s: SessionView, events: Seq<EventView>) -> Seq<ActionView>
    decreases events.len(),
{
    if events.len() == 0 || s.state != LoopState::Running {
        Seq::empty()
    } else {
        seq![action_of(s, events[0])] + actions_of_all(
            session_after(s, events[0]),
            events.drop_first(),
        )
    }
}

/// The entries among `lines`, in their order.
pub open spec fn entries_among(lines: Seq<Seq<char>>) -> Seq<Seq<char>>
    decreases lines.len(),
{
    if lines.len() == 0 {
        Seq::empty()
    } else if is_entry(lines[0]) {
        seq![lines[0]] + entries_among(lines.drop_first())
    } else {
        entries_among(lines.drop_first())
    }
}

/// The events for the lines `lines`.
pub open spec fn line_events(lines: Seq<Seq<char>>) -> Seq<EventView> {
    Seq::new(lines.len(), |i: int| EventView::Line(lines[i]))
}

/// A session that has left the loop stays as it is over any further events.
pub proof fn lemma_exited_stays(s: SessionView, events: Seq<EventView>)
    requires
        s.state != LoopState::Running,
    ensures
        session_after_all(s, events) == s,
        actions_of_all(s, events) == Seq::<ActionView>::empty(),
    decreases events.len(),
{
    if events.len() > 0 {
        lemma_exited_stays(s, events.drop_first());
    }
}

/// Whatever comes, the history only grows at its end: what was recorded stays,
/// in its place.
pub proof fn lemma_history_is_append_only(s: SessionView, events: Seq<EventView>)
    ensures
        session_after_all(s, events).history.len() >= s.history.len(),
        session_after_all(s, events).history.subrange(0, s.history.len() as int) == s.history,
    decreases events.len(),
{
    if events.len() == 0 {
        assert(s.history.subrange(0, s.history.len() as int) =~= s.history);
    } else {
        let next = session_after(s, events[0]);
        lemma_history_is_append_only(next, events.drop_first());
        let last = session_after_all(s, events).history;
        assert(next.history.subrange(0, s.history.len() as int) =~= s.history);
        assert(last.subrange(0, s.history.len() as int) =~= last.subrange(
            0,
            next.history.len() as int,
        ).subrange(0, s.history.len() as int));
    }
}

/// While no line asks to exit, the history after the lines `lines` is the
/// history before them followed by the entries among them: each one of them, in
/// the order of entry, repetitions included.
pub proof fn lemma_history_records_entered_lines(s: SessionView, lines: Seq<Seq<char>>)
    requires
        s.state == LoopState::Running,
        forall|i: int| 0 <= i < lines.len() ==> !(#[trigger] dispatch_of(lines[i]) is Exit),
    ensures
        session_after_all(s, line_events(lines)).history == s.history + entries_among(lines),
        session_after_all(s, line_events(lines)).state == LoopState::Running,
    decreases lines.len(),
{
    let events = line_events(lines);
    if lines.len() == 0 {
        assert(s.history + entries_among(lines) =~= s.history);
    } else {
        let next = session_after(s, events[0]);
        let rest = lines.drop_first();
        assert(events[0] == EventView::Line(lines[0]));
        assert(!(dispatch_of(lines[0]) is Exit));
        assert(events.drop_first() =~= line_events(rest));
        assert forall|i: int| 0 <= i < rest.len() implies !(#[trigger] dispatch_of(rest[i])
            is Exit) by {
            assert(rest[i] == lines[i + 1]);
        }
        lemma_history_records_entered_lines(next, rest);
        if is_entry(lines[0]) {
            assert(s.history.push(lines[0]) + entries_among(rest) =~= s.history + (seq![lines[0]]
                + entries_among(rest)));
        }
    }
}

/// One session of the shell.
#[derive(Debug)]
pub struct Session {
    pub current_db: String,
    pub username: String,
    pub working_dir: String,
    pub history: History,
    pub state: LoopState,
}

impl View for Session {
    type V = SessionView;

    open spec fn view(&self) -> SessionView {
        SessionView {
            current_db: self.current_db@,
            username: self.username@,
            working_dir: self.working_dir@,
            history: self.history@,
            state: self.state,
        }
    }
}

impl Session {
    /// A running session on the database `default`, with the history loaded at
    /// startup.
    pub fn new(username: String, working_dir: String, history: History) -> (session: Session)
        ensures
            session@ == (SessionView {
                current_db: "default"@,
                username: username@,
                working_dir: working_dir@,
                history: history@,
                state: LoopState::Running,
            }),
    {
        Session {
            current_db: String::from_str("default"),
            username,
            working_dir,
            history,
            state: LoopState::Running,
        }
    }

    /// Whether the loop goes on.
    pub fn is_running(&self) -> (b: bool)
        ensures
            b == (self@.state == LoopState::Running),
    {
        match self.state {
            LoopState::Running => true,
            _ => false,
        }
    }

    /// Takes what the line source handed back, updates the session and says
    /// what the loop has to do. A session that has left the loop stays as it
    /// is.
    pub fn step(&mut self, registry: &Registry, event: &LineEvent) -> (action: Action)
        ensures
            final(self)@ == session_after(old(self)@, event@),
            action@ == action_of(old(self)@, event@),
    {
        if !self.is_running() {
            return Action::Stop(self.state);
        }
        match event {
            LineEvent::Line(line) => {
                let mut history: History = History::new();
                std::mem::swap(&mut self.history, &mut history);
                history.record(line.as_str());
                self.history = history;
                match dispatch(registry, line.as_str()) {
                    Dispatch::Nothing => Action::Nothing,
                    Dispatch::Exit => {
                        self.state = LoopState::ExitedByUser;
                        Action::Stop(LoopState::ExitedByUser)
                    },
                    Dispatch::Help => Action::ShowHelp,
                    Dispatch::UseDb(name) => {
                        self.current_db = name.clone();
                        Action::Switched(name)
                    },
                    Dispatch::Run(request) => Action::Run(request),
                    Dispatch::Error(error) => Action::Report(error),
                }
            },
            LineEvent::Interrupted => {
                self.state = LoopState::ExitedByInterrupt;
                Action::Stop(LoopState::ExitedByInterrupt)
            },
            LineEvent::EndOfInput => {
                self.state = LoopState::ExitedByEndOfInput;
                Action::Stop(LoopState::ExitedByEndOfInput)
            },
            LineEvent::IoError(reason) => {
                self.state = LoopState::ExitedByFatalIoError;
                Action::Abort(ShellError::FatalIoError(reason.clone()))
            },
        }
    }

    /// Runs the loop over a script: takes the events one by one while the
    /// loop goes on, and gives the actions in their order. What comes after the
    /// event that ends the session is not read.
    pub fn run_script(&mut self, registry: &Registry, events: &Vec<LineEvent>) -> (actions: Vec<
        Action,
    >)
        ensures
            final(self)@ == session_after_all(old(self)@, event_views(events@)),
            action_views(actions@) == actions_of_all(old(self)@, event_views(events@)),
    {
        let ghost all = event_views(events@);
        let mut actions: Vec<Action> = Vec::new();
        let mut i: usize = 0;
        assert(all.skip(0) =~= all);
        assert(action_views(actions@) =~= Seq::<ActionView>::empty());
        assert(Seq::<ActionView>::empty() + actions_of_all(self@, all) =~= actions_of_all(
            self@,
            all,
        ));
        while i < events.len() && self.is_running()
            invariant
                i <= events@.len(),
                all == event_views(events@),
                session_after_all(self@, all.skip(i as int)) == session_after_all(old(self)@, all),
                action_views(actions@) + actions_of_all(self@, all.skip(i as int))
                    == actions_of_all(old(self)@, all),
            decreases events@.len() - i,
        {
            let ghost before = self@;
            let ghost rest = all.skip(i as int);
            let action: Action = self.step(registry, &events[i]);
            proof {
                assert(rest[0] == events@[i as int]@);
                assert(rest.drop_first() =~= all.skip(i + 1));
                assert(action_views(actions@.push(action)) =~= action_views(actions@).push(
                    action@,
                ));
                assert(action_views(actions@).push(action@) + actions_of_all(
                    self@,
                    all.skip(i + 1),
                ) =~= action_views(actions@) + (seq![action@] + actions_of_all(
                    self@,
                    all.skip(i + 1),
                )));
            }
            actions.push(action);
            i += 1;
        }
        proof {
            let rest = all.skip(i as int);
            if i < events@.len() {
                lemma_exited_stays(self@, rest);
            }
            assert(actions_of_all(self@, rest) =~= Seq::<ActionView>::empty());
            assert(action_views(actions@) + Seq::<ActionView>::empty() =~= action_views(
                actions@,
            ));
        }
        actions
    }
}

} // verus!
