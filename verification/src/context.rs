//! The session registry: the sessions of one terminal, which of them is
//! active, and what each event of the event loop does to them.
//!
//! The registry is owned by the event loop alone. Whatever touches the
//! outside world is left to the loop: the registry says which bytes are
//! owed to the active session and to the local display, and whether the
//! loop is to go on.

use vstd::prelude::*;
use std::marker::PhantomData;
use crate::encoder::{console_input, console_input_spec};
use crate::event::{Action, PtyIndex};
use crate::pty::{BufferedPseudoConsole, PseudoConsole, Session, SessionEvent, SessionState};
use crate::surface::Coord;
use crate::wincon::ConsoleEnabledToken;

verus! {

/// Why the registry could not do what it was asked.
#[derive(Clone, Copy, Debug, PartialEq, Eq, Structural)]
pub enum ContextError {
    /// No session has the index that was named.
    NotFound,
}

/// Why an operation on a session failed.
#[derive(Debug)]
pub enum SessionError {
    /// No session has the index that was named.
    NotFound,
    /// The transport of the session reported an error.
    Io(std::io::Error),
}

/// Whether the event loop is to go on.
#[derive(Clone, Copy, Debug, PartialEq, Eq, Structural)]
pub enum LoopControl {
    /// Wait for the next event.
    Continue,
    /// No session is alive any more: leave the loop.
    Stop,
}

/// What the event loop owes the outside world after an event.
#[derive(Debug, PartialEq, Eq)]
pub struct Reaction {
    /// Bytes to write to the transport of the active session.
    pub input: Vec<u8>,
    /// Bytes to write to the local display.
    pub display: Vec<u8>,
    /// Whether the loop is to go on.
    pub control: LoopControl,
}

/// The active index after the session at `removed` has left a registry
/// that is `remaining` sessions long afterwards. The index follows the
/// active session when an earlier one leaves. When the active session
/// itself leaves, the session that took its place becomes active, or the
/// last one if there is none there.
pub open spec fn active_after_removal(active: usize, removed: usize, remaining: nat) -> usize {
    if active > removed {
        (active - 1) as usize
    } else if active < removed {
        active
    } else if removed < remaining {
        removed
    } else if remaining > 0 {
        (remaining - 1) as usize
    } else {
        0
    }
}

/// The index of the first state that is not `Dead`, or the number of
/// states if all are.
pub open spec fn first_live(states: Seq<SessionState>) -> int
    decreases states.len(),
{
    if states.len() == 0 {
        0
    } else if !(states[0] is Dead) {
        0
    } else {
        1 + first_live(states.drop_first())
    }
}

/// `first_live` is the one index that is not dead and has only dead
/// states before it, or the number of states if all are dead.
pub proof fn lemma_first_live(states: Seq<SessionState>, j: int)
    requires
        0 <= j <= states.len(),
        forall|k: int| 0 <= k < j ==> (#[trigger] states[k]) is Dead,
        j < states.len() ==> !(states[j] is Dead),
    ensures
        first_live(states) == j,
    decreases states.len(),
{
    if states.len() > 0 && j > 0 {
        assert(states[0] is Dead);
        let rest = states.drop_first();
        assert forall|k: int| 0 <= k < j - 1 implies (#[trigger] rest[k]) is Dead by {
            assert(rest[k] == states[k + 1]);
        }
        lemma_first_live(rest, j - 1);
    }
}

/// What a registry holds beside the pseudo-terminals: every session, in
/// the order they were registered, and the index of the active one.
pub struct Registry {
    pub sessions: Seq<Session>,
    pub active: usize,
}

impl Registry {
    /// The active index names a session whenever there is one and is zero
    /// otherwise, and only the session at the active index can be in the
    /// state `Active`.
    pub open spec fn coherent(self) -> bool {
        &&& self.sessions.len() > 0 ==> self.active < self.sessions.len()
        &&& self.sessions.len() == 0 ==> self.active == 0
        &&& forall|i: int|
            0 <= i < self.sessions.len() && (#[trigger] self.sessions[i]).state is Active ==> i == self.active
    }

    /// The registry is coherent and every session is well formed.
    pub open spec fn wf(self) -> bool {
        &&& self.coherent()
        &&& forall|i: int| 0 <= i < self.sessions.len() ==> (#[trigger] self.sessions[i]).wf()
    }

    /// The state of every session, in order.
    pub open spec fn states(self) -> Seq<SessionState> {
        Seq::new(self.sessions.len(), |i: int| self.sessions[i].state)
    }

    /// The registry with one more session behind the others: a new one
    /// with a blank screen of `dimensions`. The active index stays.
    pub open spec fn added(self, dimensions: Coord) -> Registry {
        Registry { sessions: self.sessions.push(Session::fresh(dimensions)), active: self.active }
    }

    /// The registry after the session at `idx` was made the active one:
    /// that session is activated, the one that was active is deactivated,
    /// and nothing else changes.
    pub open spec fn activated(self, idx: usize) -> Registry {
        Registry {
            sessions: Seq::new(
                self.sessions.len(),
                |i: int|
                    if i == idx {
                        self.sessions[i].recorded(SessionEvent::Activated)
                    } else if i == self.active {
                        self.sessions[i].recorded(SessionEvent::Deactivated)
                    } else {
                        self.sessions[i]
                    },
            ),
            active: idx,
        }
    }

    /// The registry after the session at `idx` was removed: the sessions
    /// behind it move up by one and the active index follows the active
    /// session. When the active session itself is removed, the session
    /// that takes its place, or the last one, is activated.
    pub open spec fn removed(self, idx: usize) -> Registry {
        let rest = self.sessions.remove(idx as int);
        let active = active_after_removal(self.active, idx, rest.len());
        Registry {
            sessions: Seq::new(
                rest.len(),
                |i: int|
                    if self.active == idx && i == active {
                        rest[i].recorded(SessionEvent::Activated)
                    } else {
                        rest[i]
                    },
            ),
            active,
        }
    }

    /// The registry after one byte of output from the session at `idx`:
    /// that session has received the byte, and nothing else changes.
    pub open spec fn received(self, idx: usize, byte: u8) -> Registry {
        Registry {
            sessions: self.sessions.update(idx as int, self.sessions[idx as int].received(PtyIndex(idx), byte)),
            active: self.active,
        }
    }

    /// The registry after a run of bytes of output from the session at
    /// `idx`, in order.
    pub open spec fn received_all(self, idx: usize, bytes: Seq<u8>) -> Registry
        decreases bytes.len(),
    {
        if bytes.len() == 0 {
            self
        } else {
            self.received_all(idx, bytes.drop_last()).received(idx, bytes.last())
        }
    }

    /// The registry after `action` was applied to the screen of the
    /// session at `idx`. Nothing else changes.
    pub open spec fn applied(self, idx: usize, action: Action) -> Registry {
        Registry {
            sessions: self.sessions.update(idx as int, self.sessions[idx as int].applied(action)),
            active: self.active,
        }
    }

    /// The registry after `event` happened to the session at `idx`.
    /// Nothing else changes.
    pub open spec fn recorded(self, idx: usize, event: SessionEvent) -> Registry {
        Registry {
            sessions: self.sessions.update(idx as int, self.sessions[idx as int].recorded(event)),
            active: self.active,
        }
    }

    /// The registry after the screen of the session at `idx` was resized
    /// to `dimensions`. Nothing else changes.
    pub open spec fn resized(self, idx: usize, dimensions: Coord) -> Registry {
        Registry {
            sessions: self.sessions.update(idx as int, self.sessions[idx as int].resized(dimensions)),
            active: self.active,
        }
    }

    /// The registry after the shell of the session at `idx` has exited.
    ///
    /// The session is dead. When it was the active one, the first session
    /// that is not dead becomes the active one and is activated. When
    /// every session is dead the active index stays. Nothing but states
    /// and the active index changes.
    pub open spec fn exited(self, idx: usize) -> Registry {
        let dead = self.recorded(idx, SessionEvent::Exited);
        let heir = first_live(dead.states());
        if idx == self.active && heir < self.sessions.len() {
            Registry {
                sessions: dead.sessions.update(heir, dead.sessions[heir].recorded(SessionEvent::Activated)),
                active: heir as usize,
            }
        } else {
            dead
        }
    }

    /// How the loop is to go on after the shell of the session at `idx`
    /// has exited: it stops when no session is alive any more.
    pub open spec fn control_after_exit(self, idx: usize) -> LoopControl {
        if first_live(self.recorded(idx, SessionEvent::Exited).states()) < self.sessions.len() {
            LoopControl::Continue
        } else {
            LoopControl::Stop
        }
    }

    /// Whether `action` names a session that is not there.
    pub open spec fn misses(self, action: Action) -> bool {
        match action {
            Action::Startup => self.sessions.len() == 0,
            Action::PtyActiveChange(idx) => idx >= self.sessions.len(),
            Action::PtyOutReceived(idx, _) => idx >= self.sessions.len(),
            Action::PtyDead(idx) => idx >= self.sessions.len(),
            Action::PtyResize(idx, _) => idx >= self.sessions.len(),
            _ => match action.screen_of_spec() {
                Some(idx) => idx >= self.sessions.len(),
                None => false,
            },
        }
    }

    /// The registry after the event loop has handled `action`, for every
    /// event but a resize, whose outcome lies with the pseudo-terminal.
    ///
    /// * `Startup` makes session 0 the active one, and `PtyActiveChange`
    ///   the session it names.
    /// * `PtyOutReceived` hands the byte to the session it names.
    /// * `PtyDead` records the exit of the session it names.
    /// * An event on the screen of a session is applied to that screen.
    /// * Any other event, and an event that names a session that is not
    ///   there, leaves the registry as it is.
    pub open spec fn handled(self, action: Action) -> Registry {
        if self.misses(action) {
            self
        } else {
            match action {
                Action::Startup => self.activated(0),
                Action::PtyActiveChange(idx) => self.activated(idx),
                Action::PtyOutReceived(idx, byte) => self.received(idx, byte),
                Action::PtyDead(idx) => self.exited(idx),
                _ => match action.screen_of_spec() {
                    Some(idx) => self.applied(idx, action),
                    None => self,
                },
            }
        }
    }

    /// The bytes that are owed to the active session for `action`: what an
    /// event of the local terminal asks for, as long as there is an active
    /// session and it is not dead.
    pub open spec fn input_for(self, action: Action) -> Seq<u8> {
        if action.is_host_spec() && self.sessions.len() > 0 && !(self.sessions[self.active as int].state is Dead) {
            console_input_spec(action)
        } else {
            Seq::empty()
        }
    }

    /// The bytes that are owed to the local display for `action`: a byte
    /// of output from the active session, and nothing else.
    pub open spec fn display_for(self, action: Action) -> Seq<u8> {
        match action {
            Action::PtyOutReceived(idx, byte) => if idx == self.active && idx < self.sessions.len() {
                seq![byte]
            } else {
                Seq::empty()
            },
            _ => Seq::empty(),
        }
    }

    /// How the loop is to go on after `action`: it stops when the exit of
    /// a session leaves no session alive.
    pub open spec fn control_for(self, action: Action) -> LoopControl {
        match action {
            Action::PtyDead(idx) => if idx < self.sessions.len() {
                self.control_after_exit(idx)
            } else {
                LoopControl::Continue
            },
            _ => LoopControl::Continue,
        }
    }
}

/// Session isolation: output from one session leaves every other session
/// as it was, its screen included, and leaves the active index alone,
/// whichever session is active and however much output there is.
pub proof fn lemma_session_isolation(registry: Registry, idx: usize, bytes: Seq<u8>, other: int)
    requires
        idx < registry.sessions.len(),
        0 <= other < registry.sessions.len(),
        other != idx,
    ensures
        registry.received_all(idx, bytes).sessions.len() == registry.sessions.len(),
        registry.received_all(idx, bytes).sessions[other] == registry.sessions[other],
        registry.received_all(idx, bytes).active == registry.active,
    decreases bytes.len(),
{
    if bytes.len() > 0 {
        lemma_session_isolation(registry, idx, bytes.drop_last(), other);
    }
}

/// The session that prints is the session that is drawn: after a run of
/// output from the session at `idx`, that session is what it becomes by
/// receiving the run.
pub proof fn lemma_received_all(registry: Registry, idx: usize, bytes: Seq<u8>)
    requires
        idx < registry.sessions.len(),
    ensures
        registry.received_all(idx, bytes).sessions.len() == registry.sessions.len(),
        registry.received_all(idx, bytes).sessions[idx as int] == registry.sessions[idx as int].received_all(
            PtyIndex(idx),
            bytes,
        ),
    decreases bytes.len(),
{
    if bytes.len() > 0 {
        lemma_received_all(registry, idx, bytes.drop_last());
    }
}

/// A dead session stays dead whatever the loop handles afterwards, as long
/// as it is not removed.
pub proof fn lemma_dead_stays_dead(registry: Registry, action: Action, idx: int)
    requires
        0 <= idx < registry.sessions.len(),
        registry.sessions[idx].state is Dead,
    ensures
        registry.handled(action).sessions.len() == registry.sessions.len(),
        registry.handled(action).sessions[idx].state is Dead,
{
    if !registry.misses(action) {
        match action {
            Action::PtyDead(exit) => {
                let dead = registry.recorded(exit, SessionEvent::Exited);
                lemma_first_live_bounds(dead.states());
                assert(dead.states()[idx] is Dead);
            },
            _ => {},
        }
    }
}

/// Whatever the loop handles, a well-formed registry stays well formed.
pub proof fn lemma_handled_wf(registry: Registry, action: Action)
    requires
        registry.wf(),
        registry.sessions.len() <= usize::MAX,
    ensures
        registry.handled(action).wf(),
        registry.handled(action).sessions.len() == registry.sessions.len(),
{
    if !registry.misses(action) {
        match action {
            Action::Startup => {},
            Action::PtyActiveChange(idx) => {},
            Action::PtyOutReceived(idx, byte) => {
                crate::pty::lemma_received_wf(registry.sessions[idx as int], PtyIndex(idx), byte);
            },
            Action::PtyDead(idx) => {
                lemma_exited_coherent(registry, idx);
            },
            _ => match action.screen_of_spec() {
                Some(idx) => {
                    crate::buffer::lemma_applied_wf(registry.sessions[idx as int].screen, action);
                },
                None => {},
            },
        }
    }
}

/// After an exit the registry is coherent: the active index names either
/// the session it named or the first session that is alive, and the loop
/// stops exactly when every session is dead.
pub proof fn lemma_exited_coherent(registry: Registry, idx: usize)
    requires
        registry.coherent(),
        registry.sessions.len() <= usize::MAX,
        idx < registry.sessions.len(),
    ensures
        registry.exited(idx).coherent(),
        registry.exited(idx).sessions.len() == registry.sessions.len(),
        registry.exited(idx).sessions[idx as int].state is Dead,
        forall|i: int|
            0 <= i < registry.sessions.len() ==> (#[trigger] registry.exited(idx).sessions[i]).screen
                == registry.sessions[i].screen && registry.exited(idx).sessions[i].decoding
                == registry.sessions[i].decoding,
        registry.control_after_exit(idx) is Stop <==> forall|i: int|
            0 <= i < registry.sessions.len() ==> (#[trigger] registry.exited(idx).sessions[i]).state is Dead,
{
    let dead = registry.recorded(idx, SessionEvent::Exited);
    let states = dead.states();
    let after = registry.exited(idx);
    lemma_first_live_bounds(states);
    let heir = first_live(states);
    assert forall|i: int| 0 <= i < registry.sessions.len() implies (#[trigger] dead.sessions[i]).state == states[i]
        && (dead.sessions[i].state is Active ==> i == registry.active && i != idx) by {
        if i != idx {
            assert(dead.sessions[i] == registry.sessions[i]);
        }
    }
    if idx == registry.active && heir < registry.sessions.len() {
        assert(!(states[heir] is Dead));
        assert(!(after.sessions[heir].state is Dead));
        assert forall|i: int| 0 <= i < after.sessions.len() && (#[trigger] after.sessions[i]).state is Active implies i
            == after.active by {
            if i != heir {
                assert(after.sessions[i] == dead.sessions[i]);
            }
        }
    } else {
        assert(after == dead);
        if heir < registry.sessions.len() {
            assert(!(after.sessions[heir].state is Dead));
        } else {
            assert forall|i: int| 0 <= i < registry.sessions.len() implies (#[trigger] after.sessions[i]).state
                is Dead by {
                assert(states[i] is Dead);
            }
        }
    }
}

/// `first_live` lies within the states, names a state that is not dead if
/// it names one, and has only dead states before it.
pub proof fn lemma_first_live_bounds(states: Seq<SessionState>)
    ensures
        0 <= first_live(states) <= states.len(),
        first_live(states) < states.len() ==> !(states[first_live(states)] is Dead),
        forall|k: int| 0 <= k < first_live(states) ==> (#[trigger] states[k]) is Dead,
    decreases states.len(),
{
    if states.len() > 0 && states[0] is Dead {
        let rest = states.drop_first();
        lemma_first_live_bounds(rest);
        assert forall|k: int| 0 <= k < first_live(states) implies (#[trigger] states[k]) is Dead by {
            if k > 0 {
                assert(rest[k - 1] == states[k]);
            }
        }
    }
}

/// The sessions of one terminal, in the order they were registered, and
/// the index of the active one.
pub struct Context<'a, T> where T: PseudoConsole<T>, T: 'static {
    consoles: Vec<BufferedPseudoConsole<T>>,
    active_console: usize,
    _pd: PhantomData<&'a T>,
}

impl<'a, T> View for Context<'a, T> where T: PseudoConsole<T>, T: 'static {
    type V = Registry;

    closed spec fn view(&self) -> Registry {
        Registry {
            sessions: Seq::new(self.consoles@.len(), |i: int| self.consoles@[i]@),
            active: self.active_console,
        }
    }
}

impl<'a, T> Context<'a, T> where T: PseudoConsole<T>, T: 'static {
    /// The pseudo-terminal of every session, in order.
    pub closed spec fn consoles(&self) -> Seq<T> {
        Seq::new(self.consoles@.len(), |i: int| self.consoles@[i].spec_console())
    }

    /// The buffer and the decoder of every session are well formed.
    pub closed spec fn sessions_wf(&self) -> bool {
        forall|i: int| 0 <= i < self.consoles@.len() ==> (#[trigger] self.consoles@[i]).wf()
    }

    /// The registry is coherent, it holds one pseudo-terminal for each
    /// session, and every session is well formed.
    pub open spec fn wf(&self) -> bool {
        &&& self@.coherent()
        &&& self.consoles().len() == self@.sessions.len()
        &&& self.sessions_wf()
    }

    /// What a well-formed registry holds is well formed.
    pub proof fn lemma_wf(&self)
        requires
            self.wf(),
        ensures
            self@.wf(),
    {
        assert forall|i: int| 0 <= i < self@.sessions.len() implies (#[trigger] self@.sessions[i]).wf() by {
            self.consoles@[i].lemma_wf();
        }
    }

    /// A registry without sessions, for a terminal that is ready.
    pub fn new(token: ConsoleEnabledToken) -> (context: Context<'a, T>)
        ensures
            context@ == (Registry { sessions: Seq::empty(), active: 0 }),
            context.consoles() == Seq::<T>::empty(),
            context.wf(),
    {
        let context = Context { consoles: Vec::new(), active_console: 0, _pd: PhantomData };
        assert(context@.sessions =~= Seq::<Session>::empty());
        assert(context.consoles() =~= Seq::<T>::empty());
        context
    }

    /// The number of sessions.
    pub fn len(&self) -> (n: usize)
        ensures
            n == self@.sessions.len(),
    {
        self.consoles.len()
    }

    /// The index of the active session.
    pub fn active_index(&self) -> (index: usize)
        ensures
            index == self@.active,
    {
        self.active_console
    }

    /// Registers a session around `console` behind the ones there are and
    /// returns its index. The new session has a blank screen and its shell
    /// is not started; no other session changes and the active index stays.
    pub fn add_console(&mut self, console: T) -> (index: usize)
        requires
            old(self).wf(),
        ensures
            final(self).wf(),
            index == old(self)@.sessions.len(),
            final(self)@ == old(self)@.added(final(self)@.sessions[index as int].screen.dimensions),
            final(self).consoles() == old(self).consoles().push(console),
    {
        let index = self.consoles.len();
        self.consoles.push(BufferedPseudoConsole::new(console));
        proof {
            let dimensions = self@.sessions[index as int].screen.dimensions;
            assert(self@.sessions =~= old(self)@.added(dimensions).sessions);
            assert(self.consoles() =~= old(self).consoles().push(console));
        }
        index
    }

    /// Makes the session at `idx` the active one. The session that was
    /// active is deactivated. No session has that index: nothing changes.
    pub fn set_active_console(&mut self, idx: usize) -> (result: Result<(), ContextError>)
        requires
            old(self).wf(),
        ensures
            final(self).wf(),
            final(self).consoles() == old(self).consoles(),
            match result {
                Ok(_) => idx < old(self)@.sessions.len() && final(self)@ == old(self)@.activated(idx),
                Err(error) => error == ContextError::NotFound && idx >= old(self)@.sessions.len() && *final(self)
                    == *old(self),
            },
    {
        if idx < self.consoles.len() {
            let before = self.active_console;
            if before != idx {
                self.consoles[before].record(SessionEvent::Deactivated);
            }
            self.consoles[idx].record(SessionEvent::Activated);
            self.active_console = idx;
            proof {
                assert(self@.sessions =~= old(self)@.activated(idx).sessions);
                assert(self.consoles() =~= old(self).consoles());
            }
            Ok(())
        } else {
            Err(ContextError::NotFound)
        }
    }

    /// Removes the session at `idx`. The sessions behind it move up by
    /// one. The active index follows the active session; when the active
    /// session itself is removed, the session that takes its place (or the
    /// last one) is made active. No session has that index: nothing
    /// changes.
    pub fn delete_console(&mut self, idx: usize) -> (result: Result<(), ContextError>)
        requires
            old(self).wf(),
        ensures
            final(self).wf(),
            match result {
                Ok(_) => {
                    &&& idx < old(self)@.sessions.len()
                    &&& final(self)@ == old(self)@.removed(idx)
                    &&& final(self).consoles() == old(self).consoles().remove(idx as int)
                },
                Err(error) => error == ContextError::NotFound && idx >= old(self)@.sessions.len() && *final(self)
                    == *old(self),
            },
    {
        if idx < self.consoles.len() {
            let was_active = self.active_console == idx;
            self.consoles.remove(idx);
            let remaining = self.consoles.len();
            if self.active_console > idx {
                self.active_console = self.active_console - 1;
            } else if was_active {
                if idx >= remaining {
                    self.active_console = if remaining > 0 {
                        remaining - 1
                    } else {
                        0
                    };
                }
                if remaining > 0 {
                    let now = self.active_console;
                    self.consoles[now].record(SessionEvent::Activated);
                }
            }
            proof {
                assert(self@.sessions =~= old(self)@.removed(idx).sessions);
                assert(self.consoles() =~= old(self).consoles().remove(idx as int));
            }
            Ok(())
        } else {
            Err(ContextError::NotFound)
        }
    }

    /// The session at index `i`, if there is one.
    pub fn session(&self, i: usize) -> (session: Option<&BufferedPseudoConsole<T>>)
        ensures
            match session {
                Some(s) => i < self@.sessions.len() && s@ == self@.sessions[i as int] && s.spec_console()
                    == self.consoles()[i as int] && (self.wf() ==> s.wf()),
                None => i >= self@.sessions.len(),
            },
    {
        if i < self.consoles.len() {
            Some(&self.consoles[i])
        } else {
            None
        }
    }

    /// The pseudo-terminal of the session at index `i`, if there is one.
    pub fn console(&self, i: usize) -> (console: Option<&T>)
        ensures
            match console {
                Some(c) => i < self@.sessions.len() && *c == self.consoles()[i as int],
                None => i >= self@.sessions.len(),
            },
    {
        if i < self.consoles.len() {
            Some(self.consoles[i].as_ref())
        } else {
            None
        }
    }

    /// The pseudo-terminal of the session at index `i`, to work on, if
    /// there is such a session. Nothing else in the registry changes.
    pub fn console_mut(&mut self, i: usize) -> (console: Option<&mut T>)
        requires
            old(self).wf(),
        ensures
            final(self).wf(),
            final(self)@ == old(self)@,
            match console {
                Some(c) => {
                    &&& i < old(self)@.sessions.len()
                    &&& *c == old(self).consoles()[i as int]
                    &&& final(self).consoles() == old(self).consoles().update(i as int, *final(c))
                },
                None => i >= old(self)@.sessions.len() && *final(self) == *old(self),
            },
    {
        if i < self.consoles.len() {
            let console = self.consoles[i].as_mut();
            proof {
                assert(after_borrow(*self)@.sessions =~= old(self)@.sessions);
                assert(after_borrow(*self).consoles() =~= old(self).consoles().update(i as int, *final(console)));
            }
            Some(console)
        } else {
            None
        }
    }

    /// The pseudo-terminal of the active session.
    pub fn active_console(&self) -> (console: &T)
        requires
            self.wf(),
            self@.sessions.len() > 0,
        ensures
            *console == self.consoles()[self@.active as int],
    {
        self.consoles[self.active_console].as_ref()
    }

    /// The pseudo-terminal of the active session, to work on. Nothing else
    /// in the registry changes.
    pub fn active_console_mut(&mut self) -> (console: &mut T)
        requires
            old(self).wf(),
            old(self)@.sessions.len() > 0,
        ensures
            final(self).wf(),
            final(self)@ == old(self)@,
            *console == old(self).consoles()[old(self)@.active as int],
            final(self).consoles() == old(self).consoles().update(old(self)@.active as int, *final(console)),
    {
        let active = self.active_console;
        let console = self.consoles[active].as_mut();
        proof {
            assert(after_borrow(*self)@.sessions =~= old(self)@.sessions);
            assert(after_borrow(*self).consoles() =~= old(self).consoles().update(active as int, *final(console)));
        }
        console
    }

    /// Takes one byte of output from the session at `idx` and tells
    /// whether the byte is owed to the local display, which shows the
    /// output of the active session alone. No other session changes. No
    /// session has that index: nothing changes.
    pub fn receive(&mut self, idx: usize, byte: u8) -> (result: Result<bool, ContextError>)
        requires
            old(self).wf(),
        ensures
            final(self).wf(),
            final(self).consoles() == old(self).consoles(),
            match result {
                Ok(display) => {
                    &&& idx < old(self)@.sessions.len()
                    &&& final(self)@ == old(self)@.received(idx, byte)
                    &&& display == (idx == old(self)@.active)
                },
                Err(error) => error == ContextError::NotFound && idx >= old(self)@.sessions.len() && *final(self)
                    == *old(self),
            },
    {
        if idx < self.consoles.len() {
            self.consoles[idx].receive(PtyIndex(idx), byte);
            proof {
                assert(self@.sessions =~= old(self)@.received(idx, byte).sessions);
                assert(self.consoles() =~= old(self).consoles());
            }
            Ok(idx == self.active_console)
        } else {
            Err(ContextError::NotFound)
        }
    }

    /// Applies an event that changes the screen of the session at `idx` to
    /// that screen. No session has that index: nothing changes.
    pub fn apply(&mut self, idx: usize, action: Action) -> (result: Result<(), ContextError>)
        requires
            old(self).wf(),
        ensures
            final(self).wf(),
            final(self).consoles() == old(self).consoles(),
            match result {
                Ok(_) => idx < old(self)@.sessions.len() && final(self)@ == old(self)@.applied(idx, action),
                Err(error) => error == ContextError::NotFound && idx >= old(self)@.sessions.len() && *final(self)
                    == *old(self),
            },
    {
        if idx < self.consoles.len() {
            self.consoles[idx].apply(action);
            proof {
                assert(self@.sessions =~= old(self)@.applied(idx, action).sessions);
                assert(self.consoles() =~= old(self).consoles());
            }
            Ok(())
        } else {
            Err(ContextError::NotFound)
        }
    }

    /// Records that the shell of the session at `idx` has exited and tells
    /// the loop how to go on: when the active session dies, the first
    /// session that is still alive becomes active, and when none is alive
    /// the loop is to stop. No session has that index: nothing changes.
    pub fn mark_dead(&mut self, idx: usize) -> (result: Result<LoopControl, ContextError>)
        requires
            old(self).wf(),
        ensures
            final(self).wf(),
            final(self).consoles() == old(self).consoles(),
            match result {
                Ok(control) => {
                    &&& idx < old(self)@.sessions.len()
                    &&& final(self)@ == old(self)@.exited(idx)
                    &&& control == old(self)@.control_after_exit(idx)
                },
                Err(error) => error == ContextError::NotFound && idx >= old(self)@.sessions.len() && *final(self)
                    == *old(self),
            },
    {
        if idx >= self.consoles.len() {
            return Err(ContextError::NotFound);
        }
        self.consoles[idx].record(SessionEvent::Exited);
        let ghost dead = old(self)@.recorded(idx, SessionEvent::Exited);
        let ghost states = dead.states();
        assert(self@.sessions =~= dead.sessions);
        let mut j: usize = 0;
        while j < self.consoles.len() && !self.consoles[j].state().is_live()
            invariant
                j <= self.consoles@.len(),
                self.consoles@.len() == states.len(),
                forall|k: int| 0 <= k < states.len() ==> (#[trigger] self.consoles@[k])@.state == states[k],
                forall|k: int| 0 <= k < j ==> (#[trigger] states[k]) is Dead,
            decreases self.consoles@.len() - j,
        {
            j += 1;
        }
        proof {
            lemma_first_live(states, j as int);
        }
        let control = if j == self.consoles.len() {
            LoopControl::Stop
        } else {
            if idx == self.active_console {
                self.consoles[j].record(SessionEvent::Activated);
                self.active_console = j;
            }
            LoopControl::Continue
        };
        proof {
            assert(self@.sessions =~= old(self)@.exited(idx).sessions);
            assert(self.consoles() =~= old(self).consoles());
        }
        Ok(control)
    }

    /// Takes the outcome of writing to the transport of the session at
    /// `idx` and tells the loop how to go on. A write that went through
    /// changes nothing. A session that cannot be written to is taken for
    /// dead: its exit is recorded as `mark_dead` records it. No session
    /// has that index: nothing changes.
    pub fn settle_write(&mut self, idx: usize, outcome: Result<(), std::io::Error>) -> (result: Result<
        LoopControl,
        ContextError,
    >)
        requires
            old(self).wf(),
        ensures
            final(self).wf(),
            final(self).consoles() == old(self).consoles(),
            match outcome {
                Ok(_) => result == Ok::<LoopControl, ContextError>(LoopControl::Continue) && *final(self) == *old(
                    self,
                ),
                Err(_) => match result {
                    Ok(control) => {
                        &&& idx < old(self)@.sessions.len()
                        &&& final(self)@ == old(self)@.exited(idx)
                        &&& control == old(self)@.control_after_exit(idx)
                    },
                    Err(error) => error == ContextError::NotFound && idx >= old(self)@.sessions.len()
                        && *final(self) == *old(self),
                },
            },
    {
        match outcome {
            Ok(_) => Ok(LoopControl::Continue),
            Err(_) => self.mark_dead(idx),
        }
    }

    /// Starts the shell of the session at `idx`. A session whose shell
    /// runs is `ShellStarted`; one whose shell could not be started is
    /// `Dead`, and the error is handed on. Nothing else in the registry
    /// changes but the pseudo-terminal that was asked. No session has that
    /// index: nothing changes.
    pub fn start_console(&mut self, idx: usize) -> (result: Result<(), SessionError>)
        requires
            old(self).wf(),
        ensures
            final(self).wf(),
            match result {
                Ok(_) => idx < old(self)@.sessions.len() && final(self)@ == old(self)@.recorded(
                    idx,
                    SessionEvent::ShellStarted,
                ),
                Err(SessionError::Io(_)) => idx < old(self)@.sessions.len() && final(self)@ == old(self)@.recorded(
                    idx,
                    SessionEvent::Exited,
                ),
                Err(SessionError::NotFound) => idx >= old(self)@.sessions.len() && *final(self) == *old(self),
            },
            final(self).consoles().len() == old(self).consoles().len(),
            forall|i: int|
                0 <= i < old(self).consoles().len() && i != idx ==> final(self).consoles()[i] == old(
                    self,
                ).consoles()[i],
    {
        if idx >= self.consoles.len() {
            return Err(SessionError::NotFound);
        }
        let ghost active = self@.active;
        let started = self.consoles[idx].start();
        proof {
            let event = if started is Ok {
                SessionEvent::ShellStarted
            } else {
                SessionEvent::Exited
            };
            assert(self@.sessions =~= old(self)@.recorded(idx, event).sessions);
            assert(!(old(self)@.sessions[idx as int].state.after(event) is Active) || idx == active);
        }
        match started {
            Ok(()) => Ok(()),
            Err(error) => Err(SessionError::Io(error)),
        }
    }

    /// Asks the session at `idx` to take on new dimensions and returns the
    /// dimensions it has afterwards, to which its screen is resized. Where
    /// the pseudo-terminal refuses, the screen stays as it is and the error
    /// is handed on. Nothing else in the registry changes but the
    /// pseudo-terminal that was asked. No session has that index: nothing
    /// changes.
    pub fn resize_console(&mut self, idx: usize, dimensions: Coord) -> (result: Result<Coord, SessionError>)
        requires
            old(self).wf(),
        ensures
            final(self).wf(),
            match result {
                Ok(now) => idx < old(self)@.sessions.len() && final(self)@ == old(self)@.resized(idx, now),
                Err(SessionError::Io(_)) => idx < old(self)@.sessions.len() && final(self)@ == old(self)@,
                Err(SessionError::NotFound) => idx >= old(self)@.sessions.len() && *final(self) == *old(self),
            },
            final(self).consoles().len() == old(self).consoles().len(),
            forall|i: int|
                0 <= i < old(self).consoles().len() && i != idx ==> final(self).consoles()[i] == old(
                    self,
                ).consoles()[i],
    {
        if idx >= self.consoles.len() {
            return Err(SessionError::NotFound);
        }
        let resized = self.consoles[idx].resize(&dimensions);
        proof {
            match resized {
                Ok(now) => {
                    assert(self@.sessions =~= old(self)@.resized(idx, now).sessions);
                },
                Err(_) => {
                    assert(self@.sessions =~= old(self)@.sessions);
                },
            }
        }
        match resized {
            Ok(now) => Ok(now),
            Err(error) => Err(SessionError::Io(error)),
        }
    }

    /// Handles one event of the event loop and returns what the loop owes
    /// the outside world for it.
    ///
    /// An event that names a session that is not there fails with
    /// `NotFound` and changes nothing. A resize asks the pseudo-terminal
    /// of the session it names: where that gives dimensions the screen of
    /// the session is resized to them, and where it refuses its error is
    /// handed on and nothing changes. Every other event succeeds: the
    /// registry handles it, an event of the local terminal owes its bytes
    /// to the active session, a byte of output from the active session is
    /// owed to the local display, and the loop is to stop when an exit has
    /// left no session alive.
    pub fn dispatch(&mut self, action: Action) -> (result: Result<Reaction, SessionError>)
        requires
            old(self).wf(),
        ensures
            final(self).wf(),
            (result matches Err(SessionError::NotFound)) <==> old(self)@.misses(action),
            old(self)@.misses(action) ==> *final(self) == *old(self),
            match action {
                Action::PtyResize(idx, dimensions) => !old(self)@.misses(action) ==> match result {
                    Ok(reaction) => {
                        &&& exists|now: Coord| final(self)@ == #[trigger] old(self)@.resized(idx, now)
                        &&& reaction.input@ == Seq::<u8>::empty()
                        &&& reaction.display@ == Seq::<u8>::empty()
                        &&& reaction.control == LoopControl::Continue
                    },
                    Err(_) => final(self)@ == old(self)@,
                },
                _ => !old(self)@.misses(action) ==> match result {
                    Ok(reaction) => {
                        &&& final(self)@ == old(self)@.handled(action)
                        &&& final(self).consoles() == old(self).consoles()
                        &&& reaction.input@ == old(self)@.input_for(action)
                        &&& reaction.display@ == old(self)@.display_for(action)
                        &&& reaction.control == old(self)@.control_for(action)
                    },
                    Err(_) => false,
                },
            },
    {
        let mut reaction = Reaction { input: Vec::new(), display: Vec::new(), control: LoopControl::Continue };
        match action {
            Action::Startup => match self.set_active_console(0) {
                Ok(()) => Ok(reaction),
                Err(_) => Err(SessionError::NotFound),
            },
            Action::PtyActiveChange(idx) => match self.set_active_console(idx) {
                Ok(()) => Ok(reaction),
                Err(_) => Err(SessionError::NotFound),
            },
            Action::PtyOutReceived(idx, byte) => match self.receive(idx, byte) {
                Ok(display) => {
                    if display {
                        reaction.display.push(byte);
                        assert(reaction.display@ =~= seq![byte]);
                    }
                    Ok(reaction)
                },
                Err(_) => Err(SessionError::NotFound),
            },
            Action::PtyDead(idx) => match self.mark_dead(idx) {
                Ok(control) => {
                    reaction.control = control;
                    Ok(reaction)
                },
                Err(_) => Err(SessionError::NotFound),
            },
            Action::PtyResize(idx, dimensions) => match self.resize_console(idx, dimensions) {
                Ok(now) => {
                    assert(self@ == old(self)@.resized(idx, now));
                    Ok(reaction)
                },
                Err(error) => Err(error),
            },
            _ => {
                if action.is_host() {
                    if self.consoles.len() > 0 && self.consoles[self.active_console].state().is_live() {
                        reaction.input = console_input(action);
                    }
                    Ok(reaction)
                } else {
                    match action.screen_of() {
                        Some(idx) => match self.apply(idx, action) {
                            Ok(()) => Ok(reaction),
                            Err(_) => Err(SessionError::NotFound),
                        },
                        None => Ok(reaction),
                    }
                }
            },
        }
    }
}

} // verus!
