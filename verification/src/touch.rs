//! Turning the brain screen's touch reports into touch events for the UI:
//! a press starts a touch, holding it moves the touch when the point
//! changes, and a release ends it.
use vstd::prelude::*;

verus! {

/// A point on the screen.
#[derive(Debug, Clone, Copy, PartialEq, Eq, Structural)]
pub struct TouchPoint {
    pub x: i16,
    pub y: i16,
}

/// What the screen reports of the finger.
#[derive(Debug, Clone, Copy, PartialEq, Eq, Structural)]
pub enum TouchState {
    Released,
    Pressed,
    Held,
}

/// A report of the screen's touch status.
#[derive(Debug, Clone, Copy, PartialEq, Eq, Structural)]
pub struct TouchEvent {
    pub point: TouchPoint,
    pub state: TouchState,
}

/// The stage of a touch.
#[derive(Debug, Clone, Copy, PartialEq, Eq, Structural)]
pub enum Phase {
    Started,
    Moved,
    Ended,
}

/// What touches the screen.
#[derive(Debug, Clone, Copy, PartialEq, Eq, Structural)]
pub enum Tool {
    Finger,
}

/// A touch as the UI sees it.
#[derive(Debug, Clone, Copy, PartialEq, Eq, Structural)]
pub struct Touch {
    pub id: u8,
    pub location: TouchPoint,
    pub phase: Phase,
    pub tool: Tool,
}

/// A finger touch with id 0.
pub open spec fn finger(location: TouchPoint, phase: Phase) -> Touch {
    Touch { id: 0, location, phase, tool: Tool::Finger }
}

/// The touch in progress after a report, and the event it gives the UI.
pub open spec fn touch_step(current: Option<Touch>, event: TouchEvent) -> (Option<Touch>, Option<Touch>) {
    match event.state {
        TouchState::Pressed => {
            let t = finger(event.point, Phase::Started);
            (Some(t), Some(t))
        },
        TouchState::Held => match current {
            Some(t) => if t.location != event.point {
                let moved = Touch { location: event.point, phase: Phase::Moved, ..t };
                (Some(moved), Some(moved))
            } else {
                (current, None)
            },
            None => (current, None),
        },
        TouchState::Released => if current is Some {
            (None, Some(finger(event.point, Phase::Ended)))
        } else {
            (current, None)
        },
    }
}

/// Tracks the touch in progress on the brain screen.
pub struct TouchStateHandler {
    touch: Option<Touch>,
}

impl TouchStateHandler {
    /// A touch in progress is a finger touch with id 0 that has not ended.
    #[verifier::type_invariant]
    closed spec fn touch_ok(self) -> bool {
        touch_in_progress_ok(self.touch)
    }

    /// The touch in progress.
    pub closed spec fn spec_touch(&self) -> Option<Touch> {
        self.touch
    }

    /// A handler with no touch in progress.
    pub fn new() -> (r: Self)
        ensures
            r.spec_touch() is None,
    {
        Self { touch: None }
    }

    /// Takes in a touch report, returning the touch event it gives the UI,
    /// if any. Every touch in progress, and every touch the UI hears of, is
    /// a finger touch with id 0; the UI hears that a touch moved or ended
    /// only while one is in progress, and an ended touch is no longer in
    /// progress.
    pub fn update(&mut self, event: TouchEvent) -> (r: Option<Touch>)
        ensures
            (final(self).spec_touch(), r) == touch_step(old(self).spec_touch(), event),
            touch_in_progress_ok(old(self).spec_touch()),
            touch_in_progress_ok(final(self).spec_touch()),
            r matches Some(t) ==> {
                &&& t.id == 0
                &&& t.tool == Tool::Finger
                &&& t.phase != Phase::Started ==> old(self).spec_touch() is Some
                &&& t.phase == Phase::Ended ==> final(self).spec_touch() is None
            },
            event.state == TouchState::Held && old(self).spec_touch() is Some ==> {
                let t = old(self).spec_touch()->0;
                &&& (event.point.x != t.location.x || event.point.y != t.location.y) ==> {
                    &&& r == Some(Touch { id: t.id, location: event.point, phase: Phase::Moved, tool: t.tool })
                    &&& final(self).spec_touch() == r
                }
                &&& (event.point.x == t.location.x && event.point.y == t.location.y) ==> {
                    &&& r is None
                    &&& final(self).spec_touch() == old(self).spec_touch()
                }
            },
    {
        proof {
            use_type_invariant(&*self);
        }
        let point = event.point;
        match event.state {
            TouchState::Pressed => {
                let touch = Touch { id: 0, location: point, phase: Phase::Started, tool: Tool::Finger };
                self.touch = Some(touch);
                Some(touch)
            },
            TouchState::Held => match self.touch {
                Some(t) => if t.location != point {
                    let moved = Touch { id: t.id, location: point, phase: Phase::Moved, tool: t.tool };
                    self.touch = Some(moved);
                    Some(moved)
                } else {
                    None
                },
                None => None,
            },
            TouchState::Released => if self.touch.is_some() {
                self.touch = None;
                Some(Touch { id: 0, location: point, phase: Phase::Ended, tool: Tool::Finger })
            } else {
                None
            },
        }
    }
}

/// A touch in progress is always a finger touch with id 0 that has started
/// or moved; a release ends it, and the UI then hears of an ended touch.
pub proof fn lemma_touch_lifecycle(current: Option<Touch>, event: TouchEvent)
    requires
        current matches Some(t) ==> t.id == 0 && t.tool == Tool::Finger && t.phase != Phase::Ended,
    ensures
        touch_step(current, event).0 matches Some(t) ==> t.id == 0 && t.tool == Tool::Finger && t.phase
            != Phase::Ended,
        event.state == TouchState::Released && current is Some ==> {
            &&& touch_step(current, event).0 is None
            &&& touch_step(current, event).1 == Some(finger(event.point, Phase::Ended))
        },
{
}

/// The touch in progress after a sequence of reports.
pub open spec fn touch_run(current: Option<Touch>, events: Seq<TouchEvent>) -> Option<Touch>
    decreases events.len(),
{
    if events.len() == 0 {
        current
    } else {
        touch_run(touch_step(current, events[0]).0, events.drop_first())
    }
}

/// A touch in progress is a finger touch with id 0 that has started or moved.
pub open spec fn touch_in_progress_ok(current: Option<Touch>) -> bool {
    current matches Some(t) ==> t.id == 0 && t.tool == Tool::Finger && t.phase != Phase::Ended
}

proof fn lemma_touch_run_ok(current: Option<Touch>, events: Seq<TouchEvent>)
    requires
        touch_in_progress_ok(current),
    ensures
        touch_in_progress_ok(touch_run(current, events)),
    decreases events.len(),
{
    if events.len() > 0 {
        lemma_touch_lifecycle(current, events[0]);
        lemma_touch_run_ok(touch_step(current, events[0]).0, events.drop_first());
    }
}

proof fn lemma_touch_run_take(current: Option<Touch>, events: Seq<TouchEvent>, i: int)
    requires
        0 <= i < events.len(),
    ensures
        touch_run(current, events.take(i + 1)) == touch_step(touch_run(current, events.take(i)), events[i]).0,
    decreases i,
{
    if i > 0 {
        let next = touch_step(current, events[0]).0;
        let rest = events.drop_first();
        assert(events.take(i + 1).drop_first() =~= rest.take(i));
        assert(events.take(i).drop_first() =~= rest.take(i - 1));
        assert(events.take(i + 1)[0] == events[0]);
        assert(events.take(i)[0] == events[0]);
        assert(rest[i - 1] == events[i]);
        lemma_touch_run_take(next, rest, i - 1);
        assert(touch_run(current, events.take(i + 1)) == touch_run(next, rest.take(i)));
        assert(touch_run(current, events.take(i)) == touch_run(next, rest.take(i - 1)));
    } else {
        assert(events.take(1).drop_first() =~= Seq::<TouchEvent>::empty());
        assert(events.take(1)[0] == events[0]);
        assert(events.take(0).len() == 0);
        assert(touch_run(current, events.take(0)) == current);
        assert(touch_run(current, events.take(1)) == touch_run(
            touch_step(current, events[0]).0,
            events.take(1).drop_first(),
        ));
    }
}

/// Over any sequence of reports from a handler with no touch in progress,
/// the UI hears only of finger touches with id 0, and hears that a touch
/// moved or ended only while one is in progress; the touch in progress
/// never is an ended one.
pub proof fn lemma_touch_events_consistent(events: Seq<TouchEvent>, i: int)
    requires
        0 <= i < events.len(),
    ensures
        touch_in_progress_ok(touch_run(None, events.take(i))),
        touch_step(touch_run(None, events.take(i)), events[i]).1 matches Some(t) ==> {
            &&& t.id == 0
            &&& t.tool == Tool::Finger
            &&& t.phase != Phase::Started ==> touch_run(None, events.take(i)) is Some
        },
        touch_run(None, events.take(i + 1)) == touch_step(touch_run(None, events.take(i)), events[i]).0,
{
    lemma_touch_run_ok(None, events.take(i));
    lemma_touch_run_take(None, events, i);
}

/// While a touch is in progress, holding the finger at a point that differs
/// from the touch's location in either coordinate moves the touch there and
/// tells the UI so; holding it still changes nothing and tells nothing.
pub proof fn lemma_held_moves_touch(t: Touch, point: TouchPoint)
    ensures
        ({
            let (next, out) = touch_step(Some(t), TouchEvent { point, state: TouchState::Held });
            let moved = Touch { id: t.id, location: point, phase: Phase::Moved, tool: t.tool };
            &&& (point.x != t.location.x || point.y != t.location.y) ==> next == Some(moved) && out == Some(moved)
            &&& (point.x == t.location.x && point.y == t.location.y) ==> next == Some(t) && out is None
        }),
{
}

/// A press always starts a new finger touch at the pressed point, whatever
/// was in progress; a release ends the touch in progress at the released
/// point, and a release with no touch in progress tells nothing.
pub proof fn lemma_press_and_release(current: Option<Touch>, point: TouchPoint)
    ensures
        ({
            let started = Touch { id: 0, location: point, phase: Phase::Started, tool: Tool::Finger };
            touch_step(current, TouchEvent { point, state: TouchState::Pressed }) == (Some(started), Some(started))
        }),
        ({
            let (next, out) = touch_step(current, TouchEvent { point, state: TouchState::Released });
            &&& next is None
            &&& current is Some ==> out == Some(Touch { id: 0, location: point, phase: Phase::Ended, tool: Tool::Finger })
            &&& current is None ==> out is None
        }),
{
}

} // verus!
