//! Sessions: a child shell behind a pseudo-terminal, its screen and its
//! place in the session life cycle.

use vstd::prelude::*;
use crate::buffer::{Buffer, Screen};
use crate::decoder::{DecoderState, EscapeDecoder};
use crate::event::{Action, PtyIndex};
use crate::surface::Coord;

verus! {

/// `std::io::Error`: the error of an operation on a transport, as the
/// operating system reports it. The library hands these on and never looks
/// inside, so nothing is claimed of what one holds.
#[verifier::external_type_specification]
#[verifier::external_body]
pub struct ExIoError(std::io::Error);

/// A liveness probe for the child process of one session. It can be held
/// and asked from any thread.
pub trait KeepAlive: Send + Sync + Clone {
    /// Whether the child process has exited. Does not block.
    fn dead(&self) -> bool;
}

/// A pseudo-terminal with a child shell to attach to it: the transport of
/// one session.
pub trait PseudoConsole<T>: Send + Sync where T: 'static {
    /// The half of the transport that the shell's output is read from.
    type Reader: Send + Sync + Clone + 'static;

    /// The half of the transport that the shell's input is written to.
    type Writer: Send + Sync + 'static;

    /// The liveness probe of the shell.
    type KeepAlive: KeepAlive + 'static;

    /// The dimensions the pseudo-terminal has now.
    fn dimensions(&self) -> &Coord;

    /// Gives the pseudo-terminal new dimensions and returns the ones it
    /// has afterwards.
    fn resize(&mut self, coord: &Coord) -> Result<&Coord, std::io::Error>;

    /// Starts the shell and attaches it to the pseudo-terminal.
    fn start_shell(&mut self) -> Result<(), std::io::Error>;

    /// The write half of the transport.
    fn writer(&mut self) -> &mut Self::Writer;

    /// The read half of the transport.
    fn reader(&self) -> &Self::Reader;

    /// A liveness probe for the shell.
    fn keep_alive(&self) -> Self::KeepAlive;
}

/// Where a session stands in its life cycle.
#[derive(Clone, Copy, Debug, PartialEq, Eq, Structural)]
pub enum SessionState {
    /// Registered; its shell has not been started.
    Created,
    /// Its shell runs; it has been neither chosen nor passed over yet.
    ShellStarted,
    /// The session that the local terminal talks to.
    Active,
    /// Running in the background.
    Inactive,
    /// Its shell has exited. A dead session stays dead.
    Dead,
}

/// What can happen to a session.
#[derive(Clone, Copy, Debug, PartialEq, Eq, Structural)]
pub enum SessionEvent {
    /// Its shell was started.
    ShellStarted,
    /// It was made the active session.
    Activated,
    /// Another session was made the active one.
    Deactivated,
    /// Its shell exited, or could not be started.
    Exited,
}

impl SessionState {
    /// The state after `event`. Nothing leaves `Dead` and an exit leads
    /// there from anywhere; a session can become active or inactive only
    /// once its shell runs.
    pub open spec fn after(self, event: SessionEvent) -> SessionState {
        match (self, event) {
            (SessionState::Dead, _) => SessionState::Dead,
            (_, SessionEvent::Exited) => SessionState::Dead,
            (SessionState::Created, SessionEvent::ShellStarted) => SessionState::ShellStarted,
            (SessionState::Created, _) => SessionState::Created,
            (state, SessionEvent::ShellStarted) => state,
            (_, SessionEvent::Activated) => SessionState::Active,
            (_, SessionEvent::Deactivated) => SessionState::Inactive,
        }
    }

    /// The state after a list of events, in order.
    pub open spec fn after_all(self, events: Seq<SessionEvent>) -> SessionState
        decreases events.len(),
    {
        if events.len() == 0 {
            self
        } else {
            self.after_all(events.drop_last()).after(events.last())
        }
    }

    /// The state after `event`.
    pub fn on(self, event: SessionEvent) -> (next: SessionState)
        ensures
            next == self.after(event),
    {
        match (self, event) {
            (SessionState::Dead, _) => SessionState::Dead,
            (_, SessionEvent::Exited) => SessionState::Dead,
            (SessionState::Created, SessionEvent::ShellStarted) => SessionState::ShellStarted,
            (SessionState::Created, _) => SessionState::Created,
            (state, SessionEvent::ShellStarted) => state,
            (_, SessionEvent::Activated) => SessionState::Active,
            (_, SessionEvent::Deactivated) => SessionState::Inactive,
        }
    }

    /// Whether the shell of the session may still run.
    pub fn is_live(self) -> (live: bool)
        ensures
            live == !(self is Dead),
    {
        match self {
            SessionState::Dead => false,
            _ => true,
        }
    }
}

/// No list of events leads out of `Dead`.
pub proof fn lemma_dead_is_final(events: Seq<SessionEvent>)
    ensures
        SessionState::Dead.after_all(events) == SessionState::Dead,
    decreases events.len(),
{
    if events.len() > 0 {
        lemma_dead_is_final(events.drop_last());
    }
}

/// Once its shell has exited a session is dead, whatever state it was in
/// and whatever happens afterwards.
pub proof fn lemma_exit_is_final(state: SessionState, before: Seq<SessionEvent>, after: Seq<SessionEvent>)
    ensures
        state.after_all(before.push(SessionEvent::Exited) + after) == SessionState::Dead,
    decreases after.len(),
{
    let events = before.push(SessionEvent::Exited) + after;
    if after.len() == 0 {
        assert(events =~= before.push(SessionEvent::Exited));
        assert(events.drop_last() =~= before);
    } else {
        assert(events.drop_last() =~= before.push(SessionEvent::Exited) + after.drop_last());
        lemma_exit_is_final(state, before, after.drop_last());
    }
}

/// The watch on the liveness of one session: it turns what the probe says
/// into the one event that reports the session dead.
#[derive(Clone, Copy, Debug, PartialEq, Eq, Structural)]
pub struct LivenessWatch {
    index: usize,
    reported: bool,
}

/// Whether some answer of the probe says that the shell has exited.
pub open spec fn some_dead(answers: Seq<bool>) -> bool {
    exists|i: int| 0 <= i < answers.len() && answers[i]
}

/// The events that a watch on session `index` gives, in order, while it
/// takes a list of probe answers one by one, as `observe_all` does: an
/// answer gives the event that reports the session dead when it says that
/// the shell has exited and neither the watch had reported before nor an
/// earlier answer said so.
pub open spec fn watch_reports(index: usize, reported: bool, answers: Seq<bool>) -> Seq<Action>
    decreases answers.len(),
{
    if answers.len() == 0 {
        Seq::empty()
    } else {
        watch_reports(index, reported, answers.drop_last()) + if answers.last() && !reported && !some_dead(
            answers.drop_last(),
        ) {
            seq![Action::PtyDead(index)]
        } else {
            Seq::empty()
        }
    }
}

impl LivenessWatch {
    /// The session the watch is on.
    pub closed spec fn spec_index(&self) -> usize {
        self.index
    }

    /// Whether the watch has reported the session dead.
    pub closed spec fn spec_reported(&self) -> bool {
        self.reported
    }

    /// A watch on session `index` that has reported nothing.
    pub fn new(index: usize) -> (watch: LivenessWatch)
        ensures
            watch.spec_index() == index,
            !watch.spec_reported(),
    {
        LivenessWatch { index, reported: false }
    }

    /// Whether the watch has reported the session dead, after which it
    /// has nothing more to say.
    pub fn reported(&self) -> (done: bool)
        ensures
            done == self.spec_reported(),
    {
        self.reported
    }

    /// Takes one answer of the probe. The first answer that says the shell
    /// has exited gives the event that reports the session dead; every
    /// other answer gives nothing.
    pub fn observe(&mut self, dead: bool) -> (report: Option<Action>)
        ensures
            report == if dead && !old(self).spec_reported() {
                Some(Action::PtyDead(old(self).spec_index()))
            } else {
                None::<Action>
            },
            final(self).spec_index() == old(self).spec_index(),
            final(self).spec_reported() == (old(self).spec_reported() || dead),
    {
        if dead && !self.reported {
            self.reported = true;
            Some(Action::PtyDead(self.index))
        } else {
            None
        }
    }

    /// Takes a list of answers of the probe, one after the other, and
    /// returns the events they give, in order.
    pub fn observe_all(&mut self, answers: &[bool]) -> (reports: Vec<Action>)
        ensures
            reports@ == watch_reports(old(self).spec_index(), old(self).spec_reported(), answers@),
            final(self).spec_index() == old(self).spec_index(),
            final(self).spec_reported() == (old(self).spec_reported() || some_dead(answers@)),
    {
        let mut reports: Vec<Action> = Vec::new();
        let mut i: usize = 0;
        while i < answers.len()
            invariant
                i <= answers@.len(),
                self.spec_index() == old(self).spec_index(),
                self.spec_reported() == (old(self).spec_reported() || some_dead(answers@.take(i as int))),
                reports@ == watch_reports(old(self).spec_index(), old(self).spec_reported(), answers@.take(i as int)),
            decreases answers@.len() - i,
        {
            let ghost seen = answers@.take(i as int);
            let ghost more = answers@.take(i + 1);
            let report = self.observe(answers[i]);
            proof {
                assert(more.drop_last() =~= seen);
                assert(more.last() == answers@[i as int]);
                if some_dead(seen) {
                    let k = choose|k: int| 0 <= k < seen.len() && seen[k];
                    assert(more[k]);
                }
                if answers@[i as int] {
                    assert(more[i as int]);
                }
                if some_dead(more) {
                    let k = choose|k: int| 0 <= k < more.len() && more[k];
                    if k < i {
                        assert(seen[k]);
                    }
                }
            }
            match report {
                Some(action) => {
                    reports.push(action);
                    assert(reports@ =~= watch_reports(old(self).spec_index(), old(self).spec_reported(), more));
                },
                None => {
                    assert(reports@ =~= watch_reports(old(self).spec_index(), old(self).spec_reported(), more));
                },
            }
            i += 1;
        }
        assert(answers@.take(i as int) =~= answers@);
        reports
    }

    /// Asks the probe once and takes its answer. A watch that has reported
    /// gives nothing, whatever the probe says, and a report always names
    /// the session of the watch.
    pub fn poll<K: KeepAlive>(&mut self, probe: &K) -> (report: Option<Action>)
        ensures
            report is Some ==> !old(self).spec_reported() && final(self).spec_reported() && report == Some(
                Action::PtyDead(old(self).spec_index()),
            ),
            report is None ==> final(self).spec_reported() == old(self).spec_reported(),
            final(self).spec_index() == old(self).spec_index(),
    {
        if self.reported {
            None
        } else {
            let dead = probe.dead();
            self.observe(dead)
        }
    }
}

/// Over any list of probe answers a fresh watch reports the session dead
/// exactly once if some answer says that the shell has exited, and not at
/// all while every answer says that it runs. The report is never doubled,
/// however many answers follow.
pub proof fn lemma_watch_reports_once(index: usize, answers: Seq<bool>)
    ensures
        watch_reports(index, false, answers) == if some_dead(answers) {
            seq![Action::PtyDead(index)]
        } else {
            Seq::<Action>::empty()
        },
    decreases answers.len(),
{
    if answers.len() > 0 {
        let shorter = answers.drop_last();
        lemma_watch_reports_once(index, shorter);
        let n = answers.len() - 1;
        if some_dead(shorter) {
            let i = choose|i: int| 0 <= i < shorter.len() && shorter[i];
            assert(answers[i]);
            assert(watch_reports(index, false, answers) =~= seq![Action::PtyDead(index)]);
        } else if answers[n] {
            assert(watch_reports(index, false, answers) =~= seq![Action::PtyDead(index)]);
        } else {
            assert forall|i: int| 0 <= i < answers.len() implies !answers[i] by {
                if i < n {
                    assert(shorter[i] == answers[i]);
                }
            }
            assert(watch_reports(index, false, answers) =~= Seq::<Action>::empty());
        }
    }
}

/// A watch that has reported gives nothing more, whatever the probe says.
pub proof fn lemma_watch_reports_nothing_more(index: usize, answers: Seq<bool>)
    ensures
        watch_reports(index, true, answers) == Seq::<Action>::empty(),
    decreases answers.len(),
{
    if answers.len() > 0 {
        lemma_watch_reports_nothing_more(index, answers.drop_last());
        assert(watch_reports(index, true, answers) =~= Seq::<Action>::empty());
    }
}

/// The events that stand for a chunk of the output of session `index`:
/// one for each byte, in order.
pub open spec fn output_events(index: usize, bytes: Seq<u8>) -> Seq<Action> {
    Seq::new(bytes.len(), |i: int| Action::PtyOutReceived(index, bytes[i]))
}

/// What the worker that forwards the output of session `index` does with
/// the outcome of one read into `buffer`: the events to emit, and whether
/// to read again.
///
/// Bytes that were read are forwarded one event each and the worker reads
/// on. At the end of the stream the worker stops without a word. A read
/// that failed reports the session dead, and the worker stops.
pub open spec fn forwarded(index: usize, read: Result<usize, std::io::Error>, buffer: Seq<u8>) -> (Seq<Action>, bool) {
    match read {
        Ok(n) => if n == 0 {
            (Seq::empty(), false)
        } else if n <= buffer.len() {
            (output_events(index, buffer.take(n as int)), true)
        } else {
            (output_events(index, buffer), true)
        },
        Err(_) => (seq![Action::PtyDead(index)], false),
    }
}

/// Decides what the worker that forwards the output of session `index`
/// does with the outcome of one read into `buffer`.
pub fn forward_output(index: usize, read: &Result<usize, std::io::Error>, buffer: &[u8]) -> (step: (
    Vec<Action>,
    bool,
))
    ensures
        step.0@ == forwarded(index, *read, buffer@).0,
        step.1 == forwarded(index, *read, buffer@).1,
{
    let mut actions: Vec<Action> = Vec::new();
    match read {
        Ok(n) => {
            let count = if *n <= buffer.len() {
                *n
            } else {
                buffer.len()
            };
            let mut i: usize = 0;
            while i < count
                invariant
                    i <= count <= buffer@.len(),
                    actions@ == output_events(index, buffer@.take(i as int)),
                decreases count - i,
            {
                actions.push(Action::PtyOutReceived(index, buffer[i]));
                assert(actions@ =~= output_events(index, buffer@.take(i + 1)));
                i += 1;
            }
            assert(buffer@.take(buffer@.len() as int) =~= buffer@);
            assert(count == 0 ==> actions@ =~= Seq::<Action>::empty());
            (actions, *n != 0)
        },
        Err(_) => {
            actions.push(Action::PtyDead(index));
            assert(actions@ =~= seq![Action::PtyDead(index)]);
            (actions, false)
        },
    }
}

/// What the output of session `index` does to its screen: each decoded
/// event, read as an event of that session.
pub open spec fn screen_events(decoded: Seq<Action>, index: PtyIndex) -> Seq<Action> {
    decoded.map_values(|action: Action| action.for_session_spec(index))
}

/// What a session holds beside its pseudo-terminal: the screen that the
/// shell's output has drawn, where the decoder of that output stands, and
/// the session's place in its life cycle.
pub struct Session {
    pub screen: Screen,
    pub decoding: DecoderState,
    pub state: SessionState,
}

impl Session {
    /// The screen and the decoder state are well formed.
    pub open spec fn wf(self) -> bool {
        &&& self.screen.wf()
        &&& self.decoding.wf()
    }

    /// A newly registered session with a blank screen of `dimensions`.
    pub open spec fn fresh(dimensions: Coord) -> Session {
        Session { screen: Screen::blank(dimensions), decoding: DecoderState::Ground, state: SessionState::Created }
    }

    /// The session after `event` happened to it.
    pub open spec fn recorded(self, event: SessionEvent) -> Session {
        Session { state: self.state.after(event), ..self }
    }

    /// The session after `action` was applied to its screen.
    pub open spec fn applied(self, action: Action) -> Session {
        Session { screen: self.screen.applied(action), ..self }
    }

    /// The session after its screen was resized to `dimensions`.
    pub open spec fn resized(self, dimensions: Coord) -> Session {
        Session { screen: self.screen.resized(dimensions), ..self }
    }

    /// The session after one byte of its shell's output: the decoder has
    /// read the byte, and the events it completed have been applied to the
    /// screen as events of session `index`.
    pub open spec fn received(self, index: PtyIndex, byte: u8) -> Session {
        Session {
            screen: self.screen.applied_all(screen_events(self.decoding.step(byte).1, index)),
            decoding: self.decoding.step(byte).0,
            state: self.state,
        }
    }

    /// The session after a run of bytes of its shell's output, in order.
    pub open spec fn received_all(self, index: PtyIndex, bytes: Seq<u8>) -> Session
        decreases bytes.len(),
    {
        if bytes.len() == 0 {
            self
        } else {
            self.received_all(index, bytes.drop_last()).received(index, bytes.last())
        }
    }
}

/// Applying two lists of events one after the other is applying them as
/// one list.
pub proof fn lemma_applied_all_concat(screen: Screen, first: Seq<Action>, second: Seq<Action>)
    ensures
        screen.applied_all(first + second) == screen.applied_all(first).applied_all(second),
    decreases second.len(),
{
    if second.len() == 0 {
        assert(first + second =~= first);
    } else {
        lemma_applied_all_concat(screen, first, second.drop_last());
        assert((first + second).drop_last() =~= first + second.drop_last());
    }
}

/// The screen of a session shows its whole output, however the output
/// arrived: after a run of bytes the decoder stands where it stands after
/// decoding the run at once, and the screen is the one that the events of
/// the whole run draw. The state of the session is untouched.
pub proof fn lemma_received_all(session: Session, index: PtyIndex, bytes: Seq<u8>)
    ensures
        session.received_all(index, bytes).decoding == session.decoding.run(bytes).0,
        session.received_all(index, bytes).screen == session.screen.applied_all(
            screen_events(session.decoding.run(bytes).1, index),
        ),
        session.received_all(index, bytes).state == session.state,
    decreases bytes.len(),
{
    if bytes.len() == 0 {
        assert(screen_events(session.decoding.run(bytes).1, index) =~= Seq::<Action>::empty());
    } else {
        lemma_received_all(session, index, bytes.drop_last());
        let (mid, first) = session.decoding.run(bytes.drop_last());
        let more = mid.step(bytes.last()).1;
        lemma_applied_all_concat(session.screen, screen_events(first, index), screen_events(more, index));
        assert(screen_events(first + more, index) =~= screen_events(first, index) + screen_events(more, index));
    }
}

/// Output that arrives in two chunks draws what it draws in one.
pub proof fn lemma_received_all_concat(session: Session, index: PtyIndex, first: Seq<u8>, second: Seq<u8>)
    ensures
        session.received_all(index, first + second) == session.received_all(index, first).received_all(
            index,
            second,
        ),
    decreases second.len(),
{
    if second.len() == 0 {
        assert(first + second =~= first);
    } else {
        lemma_received_all_concat(session, index, first, second.drop_last());
        assert((first + second).drop_last() =~= first + second.drop_last());
    }
}

/// Whatever byte its shell prints, a well-formed session stays well formed.
pub proof fn lemma_received_wf(session: Session, index: PtyIndex, byte: u8)
    requires
        session.wf(),
    ensures
        session.received(index, byte).wf(),
{
    crate::decoder::lemma_step_wf(session.decoding, byte);
    lemma_applied_all_wf(session.screen, screen_events(session.decoding.step(byte).1, index));
}

/// Whatever events are applied, a well-formed screen stays well formed.
pub proof fn lemma_applied_all_wf(screen: Screen, actions: Seq<Action>)
    requires
        screen.wf(),
    ensures
        screen.applied_all(actions).wf(),
    decreases actions.len(),
{
    if actions.len() > 0 {
        lemma_applied_all_wf(screen, actions.drop_last());
        crate::buffer::lemma_applied_wf(screen.applied_all(actions.drop_last()), actions.last());
    }
}

/// A session: a pseudo-terminal with its shell, the screen that the
/// shell's output has drawn, the decoder that reads that output, and the
/// session's place in its life cycle.
pub struct BufferedPseudoConsole<T> where T: PseudoConsole<T> + 'static, T: 'static {
    console: T,
    buffer: Buffer,
    decoder: EscapeDecoder,
    state: SessionState,
}

impl<T> View for BufferedPseudoConsole<T> where T: PseudoConsole<T> + 'static, T: 'static {
    type V = Session;

    closed spec fn view(&self) -> Session {
        Session { screen: self.buffer@, decoding: self.decoder@, state: self.state }
    }
}

impl<T> BufferedPseudoConsole<T> where T: PseudoConsole<T> + 'static, T: 'static {
    /// The pseudo-terminal of the session.
    pub closed spec fn spec_console(&self) -> T {
        self.console
    }

    /// The screen buffer and the decoder are well formed.
    pub closed spec fn wf(&self) -> bool {
        &&& self.buffer.wf()
        &&& self.decoder.wf()
    }

    /// What a well-formed session holds is well formed.
    pub proof fn lemma_wf(&self)
        requires
            self.wf(),
        ensures
            self@.screen.wf(),
            self@.decoding.wf(),
    {
    }

    /// A newly registered session around `console`, with a blank screen of
    /// the given dimensions.
    pub fn with_dimensions(console: T, dimensions: Coord) -> (session: BufferedPseudoConsole<T>)
        ensures
            session.spec_console() == console,
            session@ == Session::fresh(dimensions),
            session.wf(),
    {
        BufferedPseudoConsole {
            console,
            buffer: Buffer::new(dimensions),
            decoder: EscapeDecoder::new(),
            state: SessionState::Created,
        }
    }

    /// A newly registered session around `console`, with a blank screen of
    /// the dimensions that the pseudo-terminal reports.
    pub fn new(console: T) -> (session: BufferedPseudoConsole<T>)
        ensures
            session.spec_console() == console,
            session@ == Session::fresh(session@.screen.dimensions),
            session.wf(),
    {
        let dimensions = *console.dimensions();
        BufferedPseudoConsole::with_dimensions(console, dimensions)
    }

    /// The screen buffer of the session.
    pub fn buffer(&self) -> (buffer: &Buffer)
        ensures
            buffer@ == self@.screen,
            self.wf() ==> buffer.wf(),
    {
        &self.buffer
    }

    /// Where the session stands in its life cycle.
    pub fn state(&self) -> (state: SessionState)
        ensures
            state == self@.state,
    {
        self.state
    }

    /// Records what happened to the session.
    pub fn record(&mut self, event: SessionEvent)
        ensures
            final(self)@ == old(self)@.recorded(event),
            final(self).spec_console() == old(self).spec_console(),
            old(self).wf() ==> final(self).wf(),
    {
        self.state = self.state.on(event);
    }

    /// Takes one byte of the shell's output: the decoder reads it and the
    /// events it completes are applied to the screen as events of session
    /// `index`. Returns those events.
    pub fn receive(&mut self, index: PtyIndex, byte: u8) -> (events: Vec<Action>)
        requires
            old(self).wf(),
        ensures
            final(self).wf(),
            final(self)@ == old(self)@.received(index, byte),
            events@ == screen_events(old(self)@.decoding.step(byte).1, index),
            final(self).spec_console() == old(self).spec_console(),
    {
        let decoded = self.decoder.advance(byte);
        let mut events: Vec<Action> = Vec::new();
        let mut i: usize = 0;
        while i < decoded.len()
            invariant
                i <= decoded@.len(),
                self.buffer.wf(),
                self.decoder.wf(),
                self.decoder@ == old(self).decoder@.step(byte).0,
                self.console == old(self).console,
                self.state == old(self).state,
                events@ == screen_events(decoded@.take(i as int), index),
                self.buffer@ == old(self).buffer@.applied_all(events@),
            decreases decoded@.len() - i,
        {
            let event = decoded[i].for_session(index);
            let ghost before = events@;
            self.buffer.apply(event);
            events.push(event);
            proof {
                assert(events@.drop_last() =~= before);
                assert(events@ =~= screen_events(decoded@.take(i + 1), index));
            }
            i += 1;
        }
        assert(decoded@.take(i as int) =~= decoded@);
        events
    }

    /// Applies an event to the screen of the session.
    pub fn apply(&mut self, action: Action)
        requires
            old(self).wf(),
        ensures
            final(self).wf(),
            final(self)@ == old(self)@.applied(action),
            final(self).spec_console() == old(self).spec_console(),
    {
        self.buffer.apply(action);
    }

    /// Starts the shell of the session. A session whose shell runs is
    /// `ShellStarted`; one whose shell could not be started is `Dead`, and
    /// the error is handed on. The screen stays as it is.
    pub fn start(&mut self) -> (started: Result<(), std::io::Error>)
        ensures
            final(self)@ == old(self)@.recorded(
                if started is Ok {
                    SessionEvent::ShellStarted
                } else {
                    SessionEvent::Exited
                },
            ),
            old(self).wf() ==> final(self).wf(),
    {
        let started = self.console.start_shell();
        match started {
            Ok(()) => {
                self.state = self.state.on(SessionEvent::ShellStarted);
                Ok(())
            },
            Err(error) => {
                self.state = self.state.on(SessionEvent::Exited);
                Err(error)
            },
        }
    }

    /// Asks the pseudo-terminal to take on new dimensions and resizes the
    /// screen to the dimensions it has afterwards. Where it refuses, the
    /// screen stays as it is and the error is handed on.
    pub fn resize(&mut self, dimensions: &Coord) -> (resized: Result<Coord, std::io::Error>)
        requires
            old(self).wf(),
        ensures
            final(self).wf(),
            final(self)@ == match resized {
                Ok(now) => old(self)@.resized(now),
                Err(_) => old(self)@,
            },
    {
        let outcome = match self.console.resize(dimensions) {
            Ok(now) => Ok(*now),
            Err(error) => Err(error),
        };
        self.settle_resize(outcome)
    }

    /// Takes what the pseudo-terminal answered when it was asked for new
    /// dimensions, and hands the answer on. Dimensions that it gave are
    /// the ones the screen is resized to; an error leaves the screen as it
    /// is. The pseudo-terminal, the decoder and the state stay.
    pub fn settle_resize(&mut self, outcome: Result<Coord, std::io::Error>) -> (resized: Result<
        Coord,
        std::io::Error,
    >)
        requires
            old(self).wf(),
        ensures
            final(self).wf(),
            resized == outcome,
            final(self)@ == match outcome {
                Ok(now) => old(self)@.resized(now),
                Err(_) => old(self)@,
            },
            final(self).spec_console() == old(self).spec_console(),
    {
        match outcome {
            Ok(now) => {
                self.buffer.resize(now);
                Ok(now)
            },
            Err(error) => Err(error),
        }
    }
}

impl<T> std::ops::Deref for BufferedPseudoConsole<T> where T: PseudoConsole<T> + 'static, T: 'static {
    type Target = T;

    /// The pseudo-terminal of the session.
    fn deref(&self) -> (console: &T)
        ensures
            *console == self.spec_console(),
    {
        &self.console
    }
}

impl<T> std::convert::AsRef<T> for BufferedPseudoConsole<T> where T: PseudoConsole<T> + 'static, T: 'static {
    /// The pseudo-terminal of the session.
    fn as_ref(&self) -> (console: &T)
        ensures
            *console == self.spec_console(),
    {
        &self.console
    }
}

impl<T> std::convert::AsMut<T> for BufferedPseudoConsole<T> where T: PseudoConsole<T> + 'static, T: 'static {
    /// The pseudo-terminal of the session, to work on.
    fn as_mut(&mut self) -> (console: &mut T)
        ensures
            *console == old(self).spec_console(),
            final(self).spec_console() == *final(console),
            final(self)@ == old(self)@,
            old(self).wf() ==> final(self).wf(),
    {
        &mut self.console
    }
}

impl<T> std::ops::DerefMut for BufferedPseudoConsole<T> where T: PseudoConsole<T> + 'static, T: 'static {
    /// The pseudo-terminal of the session, to work on.
    fn deref_mut(&mut self) -> (console: &mut T)
        ensures
            *console == old(self).spec_console(),
            final(self).spec_console() == *final(console),
            final(self)@ == old(self)@,
            old(self).wf() ==> final(self).wf(),
    {
        &mut self.console
    }
}

} // verus!
