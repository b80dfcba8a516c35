//! The drag-region protocol: a rectangle that one pointer source at a time
//! may pick up, drag, and drop.
//!
//! While no source captures the region, the first visible position found
//! inside the rectangle whose source pressed this frame claims active capture
//! and yields `PickedUp`.  While captured, the region follows the owning
//! source's per-frame displacement and yields `Holding`, even when the
//! pointer leaves the rectangle; the owner's release clears capture and
//! yields exactly one `Dropped`.  Capture is exclusive: a second source
//! pressing inside an already-captured region has no effect.

use vstd::prelude::*;
use crate::events::movement_of;
use crate::events::visible_seq;
use crate::events::EventDataV;
use crate::events::EventSource;
use crate::geom::Point;
use crate::geom::Rect;
use crate::geom::GEOM_LIMIT;
use crate::id::Id;
use crate::id::IdV;
use crate::state::UiState;

verus! {

/// What a drag-region step reports.
#[derive(Debug, Eq, PartialEq, Structural, Ord, PartialOrd, Hash, Copy, Clone)]
pub enum DragAction {
    /// Nothing happened: the region is not captured and no press claimed it.
    Idle,
    /// A press inside the rectangle claimed capture this step.
    PickedUp,
    /// The owning source still holds the region.
    Holding,
    /// The owning source released; capture was cleared.
    Dropped,
}

/// The rendering capability a drag region draws through, implemented by the
/// host's backend.
pub trait DragRegionRender {
    /// The backend's failure kind.
    type Error;

    /// Draws the region once per frame with its resolved state.
    fn draw_drag_region(&mut self, id: &Id, rect: Rect, action: DragAction) -> Result<
        (),
        Self::Error,
    >;
}

/// The first entry of `vis` at or after `k` that lies inside `rect` and whose
/// source pressed this frame.
pub open spec fn first_press_from(
    vis: Seq<(EventSource, Point)>,
    rect: Rect,
    down: Set<EventSource>,
    k: int,
) -> Option<EventSource>
    decreases vis.len() - k,
{
    if k < 0 || k >= vis.len() {
        Option::None
    } else if rect.spec_contains(vis[k].1) && down.contains(vis[k].0) {
        Option::Some(vis[k].0)
    } else {
        first_press_from(vis, rect, down, k + 1)
    }
}

/// What one drag-region step does to the active table, the rectangle, and
/// the reported action.
pub ghost struct DragOutcome {
    pub active: Map<IdV, EventSource>,
    pub rect: Rect,
    pub action: DragAction,
}

/// The drag-region transition.  While captured: the owner's release drops the
/// region, otherwise it follows the owner's displacement.  While free: the
/// first visible fresh press inside the rectangle picks it up.
pub open spec fn drag_result(
    active: Map<IdV, EventSource>,
    ed: EventDataV,
    id: IdV,
    rect: Rect,
) -> DragOutcome {
    if active.contains_key(id) {
        let owner = active[id];
        if ed.up.contains(owner) {
            DragOutcome { active: active.remove(id), rect, action: DragAction::Dropped }
        } else {
            match movement_of(ed, owner) {
                Option::Some(d) => DragOutcome {
                    active,
                    rect: rect.spec_translate(d.0 as int, d.1 as int),
                    action: DragAction::Holding,
                },
                Option::None => DragOutcome { active, rect, action: DragAction::Holding },
            }
        }
    } else {
        match first_press_from(
            visible_seq(ed.cur, ed.masks, ed.off_x, ed.off_y),
            rect,
            ed.down,
            0,
        ) {
            Option::Some(src) => DragOutcome {
                active: active.insert(id, src),
                rect,
                action: DragAction::PickedUp,
            },
            Option::None => DragOutcome { active, rect, action: DragAction::Idle },
        }
    }
}

/// The first visible fresh press inside `rect`, in buffer order.
fn find_press(vis: &Vec<(EventSource, Point)>, rect: &Rect, ed: &crate::events::EventData) -> (r:
    Option<EventSource>)
    ensures
        r == first_press_from(vis@, *rect, ed@.down, 0),
{
    let mut i: usize = 0;
    let n = vis.len();
    while i < n
        invariant
            n == vis@.len(),
            i <= n,
            first_press_from(vis@, *rect, ed@.down, 0) == first_press_from(
                vis@,
                *rect,
                ed@.down,
                i as int,
            ),
        decreases n - i,
    {
        let (src, p) = vis[i];
        if rect.contains(p) && ed.went_down(&src) {
            return Some(src);
        }
        i = i + 1;
    }
    None
}

/// One drag-region step without rendering: scans for a claiming press, or
/// follows or drops the captured region, translating `rect` in place.
pub fn drag_region_step(state: &mut UiState, id: &Id, rect: &mut Rect) -> (action: DragAction)
    requires
        old(state).wf(),
        old(rect).bounded(GEOM_LIMIT as int),
    ensures
        final(state).wf(),
        ({
            let o = drag_result(
                old(state).component_state@.active,
                old(state).event_data@,
                id@,
                *old(rect),
            );
            &&& final(state).component_state@.active == o.active
            &&& final(state).component_state@.hot == old(state).component_state@.hot
            &&& final(state).event_data == old(state).event_data
            &&& *final(rect) == o.rect
            &&& action == o.action
        }),
{
    if state.component_state.is_active(id) {
        let why = state.component_state.why_active(id);
        let owner = why[0];
        if state.event_data.went_up(&owner) {
            state.component_state.remove_all_active(id);
            DragAction::Dropped
        } else {
            match state.event_data.pointer_movement(&owner) {
                Some(d) => {
                    let moved = rect.translate(d.0, d.1);
                    *rect = moved;
                },
                None => {},
            }
            DragAction::Holding
        }
    } else {
        let vis = state.event_data.positions();
        let picked = find_press(&vis, rect, &state.event_data);
        match picked {
            Some(src) => {
                state.component_state.make_active(id, src);
                DragAction::PickedUp
            },
            None => DragAction::Idle,
        }
    }
}

/// Runs one drag-region step, then draws the region once through the backend.
/// Capture and rectangle changes reflect input truth already consumed this
/// frame, so they hold whether or not the drawing call fails.
pub fn drag_region<B: DragRegionRender>(
    state: &mut UiState,
    backend: &mut B,
    id: Id,
    rect: &mut Rect,
) -> (r: Result<DragAction, B::Error>)
    requires
        old(state).wf(),
        old(rect).bounded(GEOM_LIMIT as int),
    ensures
        final(state).wf(),
        ({
            let o = drag_result(
                old(state).component_state@.active,
                old(state).event_data@,
                id@,
                *old(rect),
            );
            &&& final(state).component_state@.active == o.active
            &&& final(state).component_state@.hot == old(state).component_state@.hot
            &&& final(state).event_data == old(state).event_data
            &&& *final(rect) == o.rect
            &&& (r matches Ok(action) ==> action == o.action)
        }),
{
    let action = drag_region_step(state, &id, rect);
    match backend.draw_drag_region(&id, *rect, action) {
        Ok(()) => Ok(action),
        Err(e) => Err(e),
    }
}

/// Capture exclusivity: while the owning source has not released, a drag
/// step keeps the owner — a press by any other source inside the region, in
/// this or a later frame, does not alter the capture.
pub proof fn lemma_drag_capture_exclusive(
    active: Map<IdV, EventSource>,
    ed: EventDataV,
    id: IdV,
    rect: Rect,
)
    requires
        active.contains_key(id),
        !ed.up.contains(active[id]),
    ensures
        drag_result(active, ed, id, rect).active.contains_key(id),
        drag_result(active, ed, id, rect).active[id] == active[id],
        drag_result(active, ed, id, rect).action == DragAction::Holding,
{
}

/// A release by the owning source yields exactly one `Dropped` and clears
/// capture: the drop frame reports `Dropped`, and a following frame in which
/// no fresh press claims the region reports `Idle`, not a second `Dropped`.
pub proof fn lemma_drag_drop_once(
    active: Map<IdV, EventSource>,
    ed: EventDataV,
    ed_after: EventDataV,
    id: IdV,
    rect: Rect,
    rect_after: Rect,
)
    requires
        active.contains_key(id),
        ed.up.contains(active[id]),
        first_press_from(
            visible_seq(ed_after.cur, ed_after.masks, ed_after.off_x, ed_after.off_y),
            rect_after,
            ed_after.down,
            0,
        ) is None,
    ensures
        drag_result(active, ed, id, rect).action == DragAction::Dropped,
        !drag_result(active, ed, id, rect).active.contains_key(id),
        drag_result(drag_result(active, ed, id, rect).active, ed_after, id, rect_after).action
            == DragAction::Idle,
{
}

} // verus!
