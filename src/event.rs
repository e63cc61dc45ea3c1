use vstd::prelude::*;
use std::collections::VecDeque;
use crate::picker::{Point, RGB};

verus! {

/// A mouse button whose press the watcher reports.
#[derive(Clone, Copy, Debug, PartialEq, Eq, Structural)]
pub enum MouseButton {
    Left,
    Right,
    Middle,
}

/// A click observed by the global mouse hook.
#[derive(Clone, Copy, Debug, PartialEq, Eq, Structural)]
pub struct MouseClickEvent {
    pub button: MouseButton,
    pub point: Point,
}

/// The notification handed to a subscriber for each click, with the color sampled
/// under the pointer, or `None` where sampling failed.
#[derive(Clone, Copy, Debug)]
pub struct EmitMouseClickEvent {
    pub x: i32,
    pub y: i32,
    pub button: MouseButton,
    pub rgb: Option<RGB>,
}

impl EmitMouseClickEvent {
    /// Builds the notification for a click and the color sampled at its point.
    pub fn from_click(event: MouseClickEvent, rgb: Option<RGB>) -> (r: EmitMouseClickEvent)
        ensures
            r.x == event.point.x,
            r.y == event.point.y,
            r.button == event.button,
            r.rgb == rgb,
    {
        EmitMouseClickEvent { x: event.point.x, y: event.point.y, button: event.button, rgb }
    }
}

/// Hook code under which a low-level hook must process the message.
pub const HC_ACTION: i32 = 0;

/// Message code of a left button press.
pub const WM_LBUTTONDOWN: u32 = 0x0201;

/// Message code of a right button press.
pub const WM_RBUTTONDOWN: u32 = 0x0204;

/// Message code of a middle button press.
pub const WM_MBUTTONDOWN: u32 = 0x0207;

/// The most clicks the queue holds; beyond it the oldest are dropped.
pub const QUEUE_CAPACITY: usize = 1000;

/// The button that a native mouse message presses, if it is a press the watcher reports.
pub open spec fn button_of(message: u32) -> Option<MouseButton> {
    if message == WM_LBUTTONDOWN {
        Some(MouseButton::Left)
    } else if message == WM_RBUTTONDOWN {
        Some(MouseButton::Right)
    } else if message == WM_MBUTTONDOWN {
        Some(MouseButton::Middle)
    } else {
        None
    }
}

/// The click that a hook notification stands for, if any.
pub open spec fn click_of(n_code: i32, message: u32, x: i32, y: i32) -> Option<MouseClickEvent> {
    if n_code >= HC_ACTION {
        match button_of(message) {
            Some(b) => Some(MouseClickEvent { button: b, point: Point { x, y } }),
            None => None,
        }
    } else {
        None
    }
}

/// Classifies a native mouse message into a button press.
pub fn classify_button(message: u32) -> (r: Option<MouseButton>)
    ensures
        r == button_of(message),
{
    if message == WM_LBUTTONDOWN {
        Some(MouseButton::Left)
    } else if message == WM_RBUTTONDOWN {
        Some(MouseButton::Right)
    } else if message == WM_MBUTTONDOWN {
        Some(MouseButton::Middle)
    } else {
        None
    }
}

/// Turns a low-level hook notification into a click event, or `None` where the
/// notification is to be passed on untouched.
pub fn click_from_hook(n_code: i32, message: u32, x: i32, y: i32) -> (r: Option<MouseClickEvent>)
    ensures
        r == click_of(n_code, message, x, y),
{
    if n_code < HC_ACTION {
        return None;
    }
    match classify_button(message) {
        Some(button) => Some(MouseClickEvent { button, point: Point { x, y } }),
        None => None,
    }
}

/// The queue contents after a click is pushed: the click goes to the back and, past
/// the capacity, the oldest entry leaves.
pub open spec fn queue_push(s: Seq<MouseClickEvent>, e: MouseClickEvent) -> Seq<MouseClickEvent> {
    if s.len() + 1 > QUEUE_CAPACITY {
        s.push(e).drop_first()
    } else {
        s.push(e)
    }
}

/// What draining a queue holding `s` returns, and what the queue holds afterwards.
pub open spec fn drained(s: Seq<MouseClickEvent>) -> (Seq<MouseClickEvent>, Seq<MouseClickEvent>) {
    (s, Seq::empty())
}

/// The clicks observed so far and not yet drained, oldest first, at most
/// `QUEUE_CAPACITY` of them.
pub struct EventQueue {
    events: VecDeque<MouseClickEvent>,
}

impl View for EventQueue {
    type V = Seq<MouseClickEvent>;

    closed spec fn view(&self) -> Seq<MouseClickEvent> {
        self.events@
    }
}

impl EventQueue {
    /// The queue never holds more than its capacity.
    pub open spec fn wf(&self) -> bool {
        self@.len() <= QUEUE_CAPACITY
    }

    /// An empty queue.
    pub fn new() -> (r: EventQueue)
        ensures
            r.wf(),
            r@ == Seq::<MouseClickEvent>::empty(),
    {
        EventQueue { events: VecDeque::new() }
    }

    /// The number of clicks waiting.
    pub fn len(&self) -> (r: usize)
        ensures
            r == self@.len(),
    {
        self.events.len()
    }

    /// Appends a click, dropping the oldest one when the queue would exceed its capacity.
    pub fn push_event(&mut self, event: MouseClickEvent)
        requires
            old(self).wf(),
        ensures
            final(self).wf(),
            final(self)@ == queue_push(old(self)@, event),
    {
        self.events.push_back(event);
        if self.events.len() > QUEUE_CAPACITY {
            let _ = self.events.pop_front();
        }
    }

    /// Empties the queue and returns what it held, oldest first.
    pub fn drain_events(&mut self) -> (r: Vec<MouseClickEvent>)
        requires
            old(self).wf(),
        ensures
            final(self).wf(),
            (r@, final(self)@) == drained(old(self)@),
    {
        let mut result: Vec<MouseClickEvent> = Vec::new();
        let ghost initial = self@;
        while self.events.len() > 0
            invariant
                initial == result@ + self@,
            decreases self@.len(),
        {
            match self.events.pop_front() {
                Some(e) => {
                    result.push(e);
                },
                None => {},
            }
        }
        assert(result@ =~= initial);
        assert(self@ =~= Seq::<MouseClickEvent>::empty());
        result
    }

    /// The hook callback's bookkeeping: queues the click that a hook notification
    /// stands for, if any, and returns it.
    pub fn record_hook_message(&mut self, n_code: i32, message: u32, x: i32, y: i32) -> (r:
        Option<MouseClickEvent>)
        requires
            old(self).wf(),
        ensures
            final(self).wf(),
            r == click_of(n_code, message, x, y),
            r is Some ==> final(self)@ == queue_push(old(self)@, r->0),
            r is None ==> final(self)@ == old(self)@,
    {
        let click = click_from_hook(n_code, message, x, y);
        match click {
            Some(e) => self.push_event(e),
            None => {},
        }
        click
    }
}

/// The hook after an installation attempt returned `handle`, zero standing for a
/// refused installation; a running hook is kept as it is.
pub open spec fn after_install(hook: Option<usize>, handle: usize) -> Option<usize> {
    if hook is None && handle != 0 {
        Some(handle)
    } else {
        hook
    }
}

/// Whether starting a watcher whose hook is `hook` installs a hook.
pub open spec fn needs_install(hook: Option<usize>) -> bool {
    hook is None
}

/// The handle that stopping a watcher whose hook is `hook` hands back for removal.
pub open spec fn stop_removes(hook: Option<usize>) -> Option<usize> {
    hook
}

/// The hook after stopping.
pub open spec fn after_stop(hook: Option<usize>) -> Option<usize> {
    None
}

/// Lifecycle of the process-wide low-level mouse hook: `Some(handle)` while the hook is
/// installed, `None` while stopped. Installing and removing the hook itself is left to
/// the caller, which this type tells what to do.
pub struct Watcher {
    hook_handle: Option<usize>,
}

impl Watcher {
    /// The installed hook's handle, if any.
    pub closed spec fn hook(&self) -> Option<usize> {
        self.hook_handle
    }

    /// A stopped watcher.
    pub fn new() -> (r: Watcher)
        ensures
            r.hook() is None,
    {
        Watcher { hook_handle: None }
    }

    /// Whether the hook is installed.
    pub fn is_running(&self) -> (r: bool)
        ensures
            r == self.hook() is Some,
    {
        self.hook_handle.is_some()
    }

    /// Asks to start watching: returns whether the hook has to be installed, which is
    /// so exactly when it is not running. The state changes only once the outcome of
    /// the installation is handed to `start_hook_mouse_click`.
    pub fn start(&self) -> (install: bool)
        ensures
            install == needs_install(self.hook()),
    {
        self.hook_handle.is_none()
    }

    /// Records the outcome of an installation: a non-zero `handle` is the installed
    /// hook, zero a refusal. Does nothing while a hook is already running. Returns
    /// whether the watcher runs afterwards.
    pub fn start_hook_mouse_click(&mut self, handle: usize) -> (running: bool)
        ensures
            final(self).hook() == after_install(old(self).hook(), handle),
            running == final(self).hook() is Some,
    {
        if self.hook_handle.is_none() && handle != 0 {
            self.hook_handle = Some(handle);
        }
        self.hook_handle.is_some()
    }

    /// Stops watching: returns the handle of the hook that the caller has to remove,
    /// or `None` when it was not running, and leaves the watcher stopped.
    pub fn stop(&mut self) -> (removed: Option<usize>)
        ensures
            removed == stop_removes(old(self).hook()),
            final(self).hook() == after_stop(old(self).hook()),
    {
        let removed = self.hook_handle;
        self.hook_handle = None;
        removed
    }
}

/// The queue after pushing each of `events` in turn onto a queue holding `s`.
pub open spec fn push_all(s: Seq<MouseClickEvent>, events: Seq<MouseClickEvent>) -> Seq<
    MouseClickEvent,
>
    decreases events.len(),
{
    if events.len() == 0 {
        s
    } else {
        queue_push(push_all(s, events.drop_last()), events.last())
    }
}

/// The last `QUEUE_CAPACITY` entries of `t`, or all of them if there are fewer.
pub open spec fn latest(t: Seq<MouseClickEvent>) -> Seq<MouseClickEvent> {
    if t.len() > QUEUE_CAPACITY {
        t.subrange(t.len() - QUEUE_CAPACITY, t.len() as int)
    } else {
        t
    }
}

/// Pushing clicks one by one onto a queue keeps the most recent `QUEUE_CAPACITY` of
/// everything it has seen, in the order they arrived.
pub proof fn lemma_push_all_keeps_latest(s: Seq<MouseClickEvent>, events: Seq<MouseClickEvent>)
    requires
        s.len() <= QUEUE_CAPACITY,
    ensures
        push_all(s, events) == latest(s + events),
    decreases events.len(),
{
    if events.len() == 0 {
        assert(s + events =~= s);
    } else {
        let prev = events.drop_last();
        let e = events.last();
        lemma_push_all_keeps_latest(s, prev);
        let t = s + prev;
        assert(s + events =~= t.push(e));
        let k = latest(t);
        if k.len() + 1 > QUEUE_CAPACITY {
            assert(k.push(e).drop_first() =~= latest(t.push(e)));
        } else {
            assert(k.push(e) =~= latest(t.push(e)));
        }
    }
}

/// When more than `QUEUE_CAPACITY` clicks arrive before a drain, the drain returns
/// exactly the most recent `QUEUE_CAPACITY` of them, in the order they arrived.
pub proof fn lemma_overflow_drains_latest(events: Seq<MouseClickEvent>)
    requires
        events.len() > QUEUE_CAPACITY,
    ensures
        drained(push_all(Seq::empty(), events)).0 == events.subrange(
            events.len() - QUEUE_CAPACITY,
            events.len() as int,
        ),
        drained(push_all(Seq::empty(), events)).0.len() == QUEUE_CAPACITY,
{
    lemma_push_all_keeps_latest(Seq::empty(), events);
    assert(Seq::<MouseClickEvent>::empty() + events =~= events);
}

/// Draining twice in a row with no click in between gives nothing the second time.
pub proof fn lemma_drain_twice_empty(s: Seq<MouseClickEvent>)
    ensures
        drained(drained(s).1).0 == Seq::<MouseClickEvent>::empty(),
        drained(drained(s).1).1 == Seq::<MouseClickEvent>::empty(),
{
}

/// Once a start has installed a hook, a second start installs nothing and whatever
/// outcome is reported to it, the watcher keeps running with the first hook.
pub proof fn lemma_start_twice_keeps_running(hook: Option<usize>, first: usize, second: usize)
    requires
        hook is Some || first != 0,
    ensures
        after_install(hook, first) is Some,
        !needs_install(after_install(hook, first)),
        after_install(after_install(hook, first), second) == after_install(hook, first),
{
}

/// Stopping a watcher that is not running removes no hook and leaves it stopped.
pub proof fn lemma_stop_when_stopped(hook: Option<usize>)
    requires
        hook is None,
    ensures
        stop_removes(hook) is None,
        after_stop(hook) is None,
{
}

/// A click that the hook callback queues comes out of the next drain, as the last
/// entry and with the button and point that the notification carried.
pub proof fn lemma_hook_click_round_trip(
    s: Seq<MouseClickEvent>,
    n_code: i32,
    message: u32,
    x: i32,
    y: i32,
)
    requires
        s.len() <= QUEUE_CAPACITY,
        click_of(n_code, message, x, y) is Some,
    ensures
        ({
            let e = click_of(n_code, message, x, y)->0;
            let out = drained(queue_push(s, e)).0;
            &&& out.len() >= 1
            &&& out.last() == e
            &&& out.last().button == button_of(message)->0
            &&& out.last().point == (Point { x, y })
        }),
{
}

} // verus!
