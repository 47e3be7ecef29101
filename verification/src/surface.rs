//! Terminal dimensions and the local display surface.

use vstd::prelude::*;
use vstd::std_specs::convert::FromSpecImpl;
use crate::event::Action;

verus! {

/// A column/row pair: `x` counts columns, `y` counts rows.
///
/// Used both as a size (terminal dimensions) and as a position (cursor).
#[derive(Clone, Copy, Debug, PartialEq, Eq, Structural)]
pub struct Coord {
    pub x: usize,
    pub y: usize,
}

/// A signed console coordinate read as an unsigned one: itself where it is
/// not negative, and counted down from one past the largest `usize` where
/// it is.
pub open spec fn unsigned(n: i16) -> usize {
    if n >= 0 {
        n as usize
    } else {
        (usize::MAX + 1 + n) as usize
    }
}

impl From<(i16, i16)> for Coord {
    /// Reads a signed console coordinate pair as unsigned dimensions.
    fn from(tuple: (i16, i16)) -> (c: Coord) {
        let x: usize = if tuple.0 >= 0 {
            tuple.0 as usize
        } else {
            usize::MAX - ((-(tuple.0 as i32)) as usize - 1)
        };
        let y: usize = if tuple.1 >= 0 {
            tuple.1 as usize
        } else {
            usize::MAX - ((-(tuple.1 as i32)) as usize - 1)
        };
        Coord { x, y }
    }
}

impl FromSpecImpl<(i16, i16)> for Coord {
    open spec fn obeys_from_spec() -> bool {
        true
    }

    open spec fn from_spec(tuple: (i16, i16)) -> Coord {
        Coord { x: unsigned(tuple.0), y: unsigned(tuple.1) }
    }
}

impl<'a> From<&'a Coord> for Coord {
    fn from(c: &'a Coord) -> (r: Coord) {
        *c
    }
}

impl<'a> FromSpecImpl<&'a Coord> for Coord {
    open spec fn obeys_from_spec() -> bool {
        true
    }

    open spec fn from_spec(c: &'a Coord) -> Coord {
        *c
    }
}

/// The local display: the dimensions of the terminal the program runs in.
pub struct Surface {
    pub dimensions: Coord,
}

/// Asks `terminal_size::terminal_size` for the size of the attached
/// terminal and unpacks its `Width` and `Height` into a pair of columns and
/// rows. The answer depends on the terminal, so nothing is claimed of it.
#[verifier::external_body]
fn query_terminal_size() -> (size: Option<(u16, u16)>) {
    match terminal_size::terminal_size() {
        Some((terminal_size::Width(w), terminal_size::Height(h))) => Some((w, h)),
        None => None,
    }
}

impl Surface {
    /// The surface for a terminal size query: the reported columns and rows,
    /// or an empty surface when no terminal answered.
    pub open spec fn spec_from_size(size: Option<(u16, u16)>) -> Surface {
        match size {
            Some((w, h)) => Surface { dimensions: Coord { x: w as usize, y: h as usize } },
            None => Surface { dimensions: Coord { x: 0, y: 0 } },
        }
    }

    /// Builds the surface for the outcome of a terminal size query.
    pub fn from_size(size: Option<(u16, u16)>) -> (s: Surface)
        ensures
            s == Self::spec_from_size(size),
    {
        match size {
            Some((w, h)) => Surface { dimensions: Coord { x: w as usize, y: h as usize } },
            None => Surface { dimensions: Coord { x: 0, y: 0 } },
        }
    }

    /// Measures the attached terminal. Without a terminal the surface is
    /// empty; with one, each dimension is what the terminal reports.
    pub fn new() -> (s: Surface)
        ensures
            exists|size: Option<(u16, u16)>| s == Self::spec_from_size(size),
    {
        let size = query_terminal_size();
        Surface::from_size(size)
    }
}

/// The watch on the size of the local terminal for one session: it turns
/// the sizes it is shown into the events that ask the session to follow.
#[derive(Clone, Copy, Debug, PartialEq, Eq, Structural)]
pub struct ResizeWatch {
    index: usize,
    seen: Coord,
}

impl ResizeWatch {
    /// The session the watch asks to follow.
    pub closed spec fn spec_index(&self) -> usize {
        self.index
    }

    /// The dimensions the watch saw last.
    pub closed spec fn spec_seen(&self) -> Coord {
        self.seen
    }

    /// A watch for session `index` that has seen `dimensions`.
    pub fn new(index: usize, dimensions: Coord) -> (watch: ResizeWatch)
        ensures
            watch.spec_index() == index,
            watch.spec_seen() == dimensions,
    {
        ResizeWatch { index, seen: dimensions }
    }

    /// The dimensions the watch saw last.
    pub fn seen(&self) -> (dimensions: Coord)
        ensures
            dimensions == self.spec_seen(),
    {
        self.seen
    }

    /// Takes the outcome of one size query. A terminal that answers with
    /// other dimensions than the watch saw last gives the event that asks
    /// the session to take them on, and the watch remembers them. The same
    /// dimensions, or no answer, give nothing.
    pub fn observe(&mut self, size: Option<(u16, u16)>) -> (request: Option<Action>)
        ensures
            final(self).spec_index() == old(self).spec_index(),
            match size {
                Some(_) => {
                    let now = Surface::spec_from_size(size).dimensions;
                    &&& final(self).spec_seen() == now
                    &&& request == if now != old(self).spec_seen() {
                        Some(Action::PtyResize(old(self).spec_index(), now))
                    } else {
                        None::<Action>
                    }
                },
                None => final(self).spec_seen() == old(self).spec_seen() && request == None::<Action>,
            },
    {
        match size {
            Some(_) => {
                let now = Surface::from_size(size).dimensions;
                if now.x != self.seen.x || now.y != self.seen.y {
                    self.seen = now;
                    Some(Action::PtyResize(self.index, now))
                } else {
                    None
                }
            },
            None => None,
        }
    }

    /// Measures the attached terminal once and takes the outcome. An event
    /// always names the session of the watch and the dimensions that the
    /// watch has seen since.
    pub fn poll(&mut self) -> (request: Option<Action>)
        ensures
            final(self).spec_index() == old(self).spec_index(),
            match request {
                Some(action) => action == Action::PtyResize(old(self).spec_index(), final(self).spec_seen())
                    && final(self).spec_seen() != old(self).spec_seen(),
                None => final(self).spec_seen() == old(self).spec_seen(),
            },
    {
        let size = query_terminal_size();
        self.observe(size)
    }
}

} // verus!
