//! The windows that are open, and what the events of the windowing system do
//! to them.
//!
//! A window is known by a number that its owner picks when it opens the
//! window. The open windows are kept in the order in which they were opened.
//! Only a request to close a window changes them: that window leaves, the
//! others stay as they are. Drawing goes on until no window is open.

use vstd::prelude::*;

verus! {

/// What the windowing system reports.
#[derive(Clone, Copy, Debug, PartialEq, Eq, Structural)]
pub enum WindowEvent {
    /// The user asked to close this window.
    CloseRequested { window: u64 },
    /// The pointer moved over this window. It changes nothing.
    CursorMoved { window: u64 },
    /// Any other event. It changes nothing.
    Other,
}

/// The windows of `open` but `window`, in their order.
pub open spec fn without(open: Seq<u64>, window: u64) -> Seq<u64> {
    open.filter(|w: u64| w != window)
}

/// The open windows after one event.
pub open spec fn after_event(open: Seq<u64>, event: WindowEvent) -> Seq<u64> {
    match event {
        WindowEvent::CloseRequested { window } => without(open, window),
        _ => open,
    }
}

/// The open windows after a run of events, taken in order.
pub open spec fn after_events(open: Seq<u64>, events: Seq<WindowEvent>) -> Seq<u64>
    decreases events.len(),
{
    if events.len() == 0 {
        open
    } else {
        after_event(after_events(open, events.drop_last()), events.last())
    }
}

/// The window that an event closes, if it closes one of `open`.
pub open spec fn closed_by(open: Seq<u64>, event: WindowEvent) -> Option<u64> {
    match event {
        WindowEvent::CloseRequested { window } => if open.contains(window) {
            Some(window)
        } else {
            None
        },
        _ => None,
    }
}

/// Taking out a window that is not there changes nothing.
pub proof fn lemma_without_absent(open: Seq<u64>, window: u64)
    requires
        !open.contains(window),
    ensures
        without(open, window) == open,
    decreases open.len(),
{
    reveal(Seq::filter);
    if open.len() > 0 {
        let front = open.drop_last();
        assert forall|k: int| 0 <= k < front.len() implies front[k] != window by {
            assert(open[k] == front[k]);
        }
        lemma_without_absent(front, window);
        assert(open.last() != window) by {
            assert(open[open.len() - 1] == open.last());
        }
        assert(front.push(open.last()) =~= open);
    }
}

/// Taking a window out of two runs put together is taking it out of each.
pub proof fn lemma_without_concat(front: Seq<u64>, back: Seq<u64>, window: u64)
    ensures
        without(front + back, window) == without(front, window) + without(back, window),
{
    Seq::filter_distributes_over_add(front, back, |w: u64| w != window);
}

/// Where no window occurs twice, taking out the window at `at` removes that
/// one place.
pub proof fn lemma_without_present(open: Seq<u64>, at: int)
    requires
        open.no_duplicates(),
        0 <= at < open.len(),
    ensures
        without(open, open[at]) == open.remove(at),
{
    let window = open[at];
    let front = open.take(at);
    let back = open.skip(at + 1);
    assert(open =~= front + (seq![window] + back));
    assert(!front.contains(window));
    assert(!back.contains(window));
    lemma_without_absent(front, window);
    lemma_without_absent(back, window);
    assert(without(seq![window], window) =~= Seq::<u64>::empty()) by {
        reveal_with_fuel(Seq::filter, 2);
    }
    lemma_without_concat(seq![window], back, window);
    lemma_without_concat(front, seq![window] + back, window);
    assert(open.remove(at) =~= front + back);
}

/// Taking out a window leaves no window twice where none was twice before,
/// and takes out nothing else.
pub proof fn lemma_without_keeps_the_rest(open: Seq<u64>, window: u64)
    requires
        open.no_duplicates(),
    ensures
        without(open, window).no_duplicates(),
        !without(open, window).contains(window),
        forall|w: u64| w != window ==> without(open, window).contains(w) == open.contains(w),
{
    if open.contains(window) {
        let at = choose|i: int| 0 <= i < open.len() && open[i] == window;
        lemma_without_present(open, at);
        let rest = open.remove(at);
        assert forall|w: u64| w != window implies rest.contains(w) == open.contains(w) by {
            if open.contains(w) {
                let i = choose|i: int| 0 <= i < open.len() && open[i] == w;
                if i < at {
                    assert(rest[i] == w);
                } else {
                    assert(rest[i - 1] == w);
                }
            }
            if rest.contains(w) {
                let i = choose|i: int| 0 <= i < rest.len() && rest[i] == w;
                if i < at {
                    assert(open[i] == w);
                } else {
                    assert(open[i + 1] == w);
                }
            }
        }
        assert(!rest.contains(window)) by {
            if rest.contains(window) {
                let i = choose|i: int| 0 <= i < rest.len() && rest[i] == window;
                if i < at {
                    assert(open[i] == window);
                } else {
                    assert(open[i + 1] == window);
                }
            }
        }
    } else {
        lemma_without_absent(open, window);
    }
}

/// The open windows.
#[derive(Debug)]
pub struct OpenWindows {
    ids: Vec<u64>,
}

impl View for OpenWindows {
    type V = Seq<u64>;

    /// The open windows, in the order in which they were opened.
    closed spec fn view(&self) -> Seq<u64> {
        self.ids@
    }
}

impl OpenWindows {
    #[verifier::type_invariant]
    spec fn distinct(&self) -> bool {
        self.ids@.no_duplicates()
    }

    /// No window is open.
    pub fn new() -> (windows: OpenWindows)
        ensures
            windows@ == Seq::<u64>::empty(),
    {
        OpenWindows { ids: Vec::new() }
    }

    /// Whether `window` is open.
    pub fn is_open(&self, window: u64) -> (open: bool)
        ensures
            open == self@.contains(window),
    {
        let mut i: usize = 0;
        while i < self.ids.len()
            invariant
                i <= self.ids.len(),
                forall|k: int| 0 <= k < i ==> self.ids@[k] != window,
            decreases self.ids.len() - i,
        {
            if self.ids[i] == window {
                return true;
            }
            i += 1;
        }
        false
    }

    /// Takes `window` among the open ones, behind those that are open. A
    /// window that is open already stays where it is.
    pub fn open(&mut self, window: u64) -> (fresh: bool)
        ensures
            fresh == !old(self)@.contains(window),
            final(self)@ == if fresh {
                old(self)@.push(window)
            } else {
                old(self)@
            },
    {
        proof {
            use_type_invariant(&*self);
        }
        if self.is_open(window) {
            false
        } else {
            let mut ids: Vec<u64> = Vec::new();
            core::mem::swap(&mut self.ids, &mut ids);
            ids.push(window);
            core::mem::swap(&mut self.ids, &mut ids);
            true
        }
    }

    /// Takes `window` out of the open ones, if it is one of them.
    pub fn close(&mut self, window: u64) -> (was_open: bool)
        ensures
            was_open == old(self)@.contains(window),
            final(self)@ == without(old(self)@, window),
    {
        proof {
            use_type_invariant(&*self);
        }
        let mut i: usize = 0;
        while i < self.ids.len()
            invariant
                i <= self.ids.len(),
                *self == *old(self),
                self.ids@.no_duplicates(),
                forall|k: int| 0 <= k < i ==> self.ids@[k] != window,
            decreases self.ids.len() - i,
        {
            if self.ids[i] == window {
                proof {
                    lemma_without_present(self.ids@, i as int);
                    lemma_without_keeps_the_rest(self.ids@, window);
                }
                let mut ids: Vec<u64> = Vec::new();
                core::mem::swap(&mut self.ids, &mut ids);
                ids.remove(i);
                core::mem::swap(&mut self.ids, &mut ids);
                return true;
            }
            i += 1;
        }
        proof {
            lemma_without_absent(self.ids@, window);
        }
        false
    }

    /// Whether no window is open: drawing ends then.
    pub fn is_empty(&self) -> (empty: bool)
        ensures
            empty == (self@.len() == 0),
    {
        self.ids.len() == 0
    }

    /// How many windows are open.
    pub fn len(&self) -> (count: usize)
        ensures
            count == self@.len(),
    {
        self.ids.len()
    }

    /// The open windows, in the order in which they were opened: the windows
    /// to draw. None is listed twice.
    pub fn ids(&self) -> (ids: Vec<u64>)
        ensures
            ids@ == self@,
            ids@.no_duplicates(),
    {
        proof {
            use_type_invariant(self);
        }
        self.ids.clone()
    }

    /// Takes one event. Returns the window that it closed, if any: its owner
    /// lets go of that window.
    pub fn handle(&mut self, event: WindowEvent) -> (closed: Option<u64>)
        ensures
            final(self)@ == after_event(old(self)@, event),
            closed == closed_by(old(self)@, event),
    {
        match event {
            WindowEvent::CloseRequested { window } => {
                if self.close(window) {
                    Some(window)
                } else {
                    None
                }
            },
            _ => None,
        }
    }

    /// Takes a run of events in order. Returns whether no window is open
    /// after them.
    pub fn handle_all(&mut self, events: &Vec<WindowEvent>) -> (done: bool)
        ensures
            final(self)@ == after_events(old(self)@, events@),
            done == (final(self)@.len() == 0),
    {
        let mut i: usize = 0;
        while i < events.len()
            invariant
                i <= events.len(),
                self@ == after_events(old(self)@, events@.take(i as int)),
            decreases events.len() - i,
        {
            proof {
                assert(events@.take(i + 1).drop_last() =~= events@.take(i as int));
            }
            self.handle(events[i]);
            i += 1;
        }
        proof {
            assert(events@.take(i as int) =~= events@);
        }
        self.is_empty()
    }
}

/// No event opens a window: whatever is open after a run of events was open
/// before it, and no window is open twice.
pub proof fn lemma_events_only_close(open: Seq<u64>, events: Seq<WindowEvent>)
    requires
        open.no_duplicates(),
    ensures
        after_events(open, events).no_duplicates(),
        forall|w: u64| after_events(open, events).contains(w) ==> open.contains(w),
    decreases events.len(),
{
    if events.len() > 0 {
        let before = after_events(open, events.drop_last());
        lemma_events_only_close(open, events.drop_last());
        match events.last() {
            WindowEvent::CloseRequested { window } => {
                lemma_without_keeps_the_rest(before, window);
            },
            _ => {},
        }
    }
}

/// A window whose closing was requested is not open afterwards, whatever
/// else happens.
pub proof fn lemma_closed_stays_closed(
    open: Seq<u64>,
    events: Seq<WindowEvent>,
    at: int,
    window: u64,
)
    requires
        open.no_duplicates(),
        0 <= at < events.len(),
        events[at] == (WindowEvent::CloseRequested { window }),
    ensures
        !after_events(open, events).contains(window),
    decreases events.len(),
{
    let before = after_events(open, events.drop_last());
    lemma_events_only_close(open, events.drop_last());
    if at == events.len() - 1 {
        lemma_without_keeps_the_rest(before, window);
    } else {
        lemma_closed_stays_closed(open, events.drop_last(), at, window);
        match events.last() {
            WindowEvent::CloseRequested { window: other } => {
                lemma_without_keeps_the_rest(before, other);
            },
            _ => {},
        }
    }
}

} // verus!
