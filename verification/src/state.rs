//! The process-wide UI interaction state: capture tables plus event buffer.
//!
//! One value of `UiState` is constructed at UI-root creation, mutated every
//! frame, and never reconstructed mid-frame.  The host calls
//! `feed_events_for_frame` exactly once per frame with that frame's batch of
//! input events, then walks its UI description, handing the state to every
//! widget call.

use vstd::prelude::*;
use crate::capture::ComponentState;
use crate::events::event_bounded;
use crate::events::feed_all;
use crate::events::feed_one;
use crate::events::frame_begin;
use crate::events::Event;
use crate::events::EventData;

verus! {

/// Folding a batch event by event, front to back, is the same as folding the
/// batch extended by one more event at its back, then that event.
pub proof fn lemma_feed_all_snoc(ed: crate::events::EventDataV, events: Seq<Event>, e: Event)
    ensures
        feed_all(ed, events.push(e)) == feed_one(feed_all(ed, events), e),
    decreases events.len(),
{
    if events.len() == 0 {
        assert(events =~= Seq::<Event>::empty());
        assert(events.push(e).first() == e);
        assert(events.push(e).drop_first() =~= Seq::<Event>::empty());
        assert(feed_all(ed, events.push(e)) == feed_all(feed_one(ed, e), Seq::<Event>::empty()));
        assert(feed_all(feed_one(ed, e), Seq::<Event>::empty()) == feed_one(ed, e));
        assert(feed_all(ed, events) == ed);
    } else {
        assert(events.push(e).first() == events.first());
        assert(events.push(e).drop_first() =~= events.drop_first().push(e));
        lemma_feed_all_snoc(feed_one(ed, events.first()), events.drop_first(), e);
    }
}

/// The persistent interaction state owned by the host.
pub struct UiState {
    pub component_state: ComponentState,
    pub event_data: EventData,
}

impl UiState {
    /// Both halves are well-formed.
    pub open spec fn wf(&self) -> bool {
        self.component_state.wf() && self.event_data.wf()
    }

    /// Fresh state: no capture, no events, no masks, zero offset.
    pub fn new() -> (r: UiState)
        ensures
            r.wf(),
            r.component_state@.hot == Map::<crate::id::IdV, crate::events::EventSource>::empty(),
            r.component_state@.active == Map::<
                crate::id::IdV,
                crate::events::EventSource,
            >::empty(),
            r.event_data@.cur == Seq::<(crate::events::EventSource, crate::geom::Point)>::empty(),
            r.event_data@.prev == Seq::<(crate::events::EventSource, crate::geom::Point)>::empty(),
            r.event_data@.down == Set::<crate::events::EventSource>::empty(),
            r.event_data@.up == Set::<crate::events::EventSource>::empty(),
            r.event_data@.off_x == 0,
            r.event_data@.off_y == 0,
            r.event_data@.masks == Seq::<crate::geom::Rect>::empty(),
    {
        UiState { component_state: ComponentState::new(), event_data: EventData::new() }
    }

    /// Rotates the frame generations: the current positions become the
    /// previous snapshot and the frame-local sets are cleared.
    fn switch_frames(&mut self)
        requires
            old(self).wf(),
        ensures
            final(self).wf(),
            final(self).event_data@ == frame_begin(old(self).event_data@),
            final(self).component_state == old(self).component_state,
    {
        self.event_data.begin_frame();
    }

    /// Starts a new frame and folds the frame's whole event batch in.
    /// Must run exactly once per frame, before any widget is resolved.
    pub fn feed_events_for_frame(&mut self, events: &Vec<Event>)
        requires
            old(self).wf(),
            forall|i: int| 0 <= i < events@.len() ==> event_bounded(events@[i]),
        ensures
            final(self).wf(),
            final(self).event_data@ == feed_all(frame_begin(old(self).event_data@), events@),
            final(self).component_state == old(self).component_state,
    {
        self.switch_frames();
        let ghost ed0 = self.event_data@;
        let ghost cs0 = self.component_state;
        let mut i: usize = 0;
        let n = events.len();
        proof {
            assert(events@.take(0) =~= Seq::<Event>::empty());
        }
        while i < n
            invariant
                n == events@.len(),
                i <= n,
                forall|k: int| 0 <= k < events@.len() ==> event_bounded(events@[k]),
                self.event_data.wf(),
                self.event_data@ == feed_all(ed0, events@.take(i as int)),
                self.component_state == cs0,
                cs0.wf(),
            decreases n - i,
        {
            self.event_data.feed(events[i]);
            proof {
                assert(events@.take(i as int).push(events@[i as int]) =~= events@.take(
                    i as int + 1,
                ));
                lemma_feed_all_snoc(ed0, events@.take(i as int), events@[i as int]);
            }
            i = i + 1;
        }
        proof {
            assert(events@.take(n as int) =~= events@);
        }
    }
}

} // verus!
