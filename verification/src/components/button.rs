//! The button protocol.
//!
//! A button is hot exactly when some currently-visible pointer position lies
//! inside its rectangle; hover is recomputed fully every frame, never sticky.
//! Pressing while over the rectangle claims active capture (a later claim
//! overwrites an earlier one within the frame's resolution order).  The
//! owning source's release — wherever its pointer is by then — fires
//! `activated` exactly once and clears capture.

use vstd::prelude::*;
use crate::events::visible_seq;
use crate::events::EventDataV;
use crate::events::EventSource;
use crate::geom::Point;
use crate::geom::Rect;
use crate::id::Id;
use crate::id::IdV;
use crate::state::UiState;

verus! {

/// The rendering capability a button draws through, implemented by the
/// host's backend.
pub trait ButtonRender {
    /// The backend's failure kind.
    type Error;

    /// Draws the button once per frame with its resolved state.
    fn draw_button(
        &mut self,
        id: &Id,
        rect: Rect,
        label: &str,
        hovered: bool,
        pressed: bool,
    ) -> Result<(), Self::Error>;
}

/// The source of the last entry of `vis` that lies inside `rect`.
pub open spec fn last_inside(vis: Seq<(EventSource, Point)>, rect: Rect) -> Option<EventSource>
    decreases vis.len(),
{
    if vis.len() == 0 {
        Option::None
    } else if rect.spec_contains(vis.last().1) {
        Option::Some(vis.last().0)
    } else {
        last_inside(vis.drop_last(), rect)
    }
}

/// The source of the last entry of `vis` inside `rect` that pressed this
/// frame.
pub open spec fn last_press(
    vis: Seq<(EventSource, Point)>,
    rect: Rect,
    down: Set<EventSource>,
) -> Option<EventSource>
    decreases vis.len(),
{
    if vis.len() == 0 {
        Option::None
    } else if rect.spec_contains(vis.last().1) && down.contains(vis.last().0) {
        Option::Some(vis.last().0)
    } else {
        last_press(vis.drop_last(), rect, down)
    }
}

/// Some entry of `vis` lies inside `rect` exactly when `last_inside` finds
/// one.
pub proof fn lemma_last_inside_exists(vis: Seq<(EventSource, Point)>, rect: Rect)
    ensures
        last_inside(vis, rect) is Some <==> exists|i: int|
            0 <= i < vis.len() && rect.spec_contains(vis[i].1),
    decreases vis.len(),
{
    if vis.len() > 0 {
        lemma_last_inside_exists(vis.drop_last(), rect);
        if rect.spec_contains(vis.last().1) {
            assert(rect.spec_contains(vis[vis.len() - 1].1));
        } else {
            if last_inside(vis, rect) is Some {
                let i = choose|i: int|
                    0 <= i < vis.drop_last().len() && rect.spec_contains(vis.drop_last()[i].1);
                assert(rect.spec_contains(vis[i].1));
            }
            if exists|i: int| 0 <= i < vis.len() && rect.spec_contains(vis[i].1) {
                let i = choose|i: int| 0 <= i < vis.len() && rect.spec_contains(vis[i].1);
                assert(i < vis.len() - 1);
                assert(rect.spec_contains(vis.drop_last()[i].1));
            }
        }
    }
}

/// What one button step does to the capture tables and whether it fired.
pub ghost struct ButtonOutcome {
    pub hot: Map<IdV, EventSource>,
    pub active: Map<IdV, EventSource>,
    pub activated: bool,
}

/// The button transition.  Hover goes to the last visible source over the
/// rectangle, or away entirely when none is over it.  A press over the
/// rectangle claims capture, a later press overwriting an earlier one.  The
/// owning source's release fires the activation, whatever position the
/// pointer has by then, and clears capture.
pub open spec fn button_result(
    hot: Map<IdV, EventSource>,
    active: Map<IdV, EventSource>,
    ed: EventDataV,
    id: IdV,
    rect: Rect,
) -> ButtonOutcome {
    let vis = visible_seq(ed.cur, ed.masks, ed.off_x, ed.off_y);
    let hot1 = match last_inside(vis, rect) {
        Option::Some(s) => hot.insert(id, s),
        Option::None => hot.remove(id),
    };
    let active1 = match last_press(vis, rect, ed.down) {
        Option::Some(s) => active.insert(id, s),
        Option::None => active,
    };
    if active1.contains_key(id) && ed.up.contains(active1[id]) {
        ButtonOutcome { hot: hot1, active: active1.remove(id), activated: true }
    } else {
        ButtonOutcome { hot: hot1, active: active1, activated: false }
    }
}

/// The shared hover-and-press pass: claims hover for every entry of `vis`
/// inside `rect` and capture for every such entry whose source pressed, in
/// order, so that the last claim of each kind wins.
#[verifier::loop_isolation(false)]
pub(crate) fn hover_press_pass(
    state: &mut UiState,
    id: &Id,
    rect: Rect,
    vis: &Vec<(EventSource, Point)>,
) -> (any_over: bool)
    requires
        old(state).wf(),
    ensures
        final(state).wf(),
        final(state).event_data == old(state).event_data,
        final(state).component_state@.hot == match last_inside(vis@, rect) {
            Option::Some(s) => old(state).component_state@.hot.insert(id@, s),
            Option::None => old(state).component_state@.hot,
        },
        final(state).component_state@.active == match last_press(
            vis@,
            rect,
            old(state).event_data@.down,
        ) {
            Option::Some(s) => old(state).component_state@.active.insert(id@, s),
            Option::None => old(state).component_state@.active,
        },
        any_over == (last_inside(vis@, rect) is Some),
{
    let ghost hot0 = state.component_state@.hot;
    let ghost active0 = state.component_state@.active;
    let ghost ed0 = state.event_data;
    let mut any_over = false;
    let mut i: usize = 0;
    let n = vis.len();
    proof {
        assert(vis@.take(0) =~= Seq::<(EventSource, Point)>::empty());
    }
    while i < n
        invariant
            i <= n,
            state.wf(),
            state.event_data == ed0,
            state.component_state@.hot == match last_inside(vis@.take(i as int), rect) {
                Option::Some(s) => hot0.insert(id@, s),
                Option::None => hot0,
            },
            state.component_state@.active == match last_press(
                vis@.take(i as int),
                rect,
                ed0@.down,
            ) {
                Option::Some(s) => active0.insert(id@, s),
                Option::None => active0,
            },
            any_over == (last_inside(vis@.take(i as int), rect) is Some),
        decreases n - i,
    {
        let (src, p) = vis[i];
        proof {
            assert(vis@.take(i as int + 1).drop_last() =~= vis@.take(i as int));
            assert(vis@.take(i as int + 1).last() == vis@[i as int]);
        }
        if rect.contains(p) {
            any_over = true;
            state.component_state.make_hot(id, src);
            proof {
                if last_inside(vis@.take(i as int), rect) is Some {
                    let s0 = last_inside(vis@.take(i as int), rect)->Some_0;
                    assert(hot0.insert(id@, s0).insert(id@, src) =~= hot0.insert(id@, src));
                }
            }
            if state.event_data.went_down(&src) {
                state.component_state.make_active(id, src);
                proof {
                    if last_press(vis@.take(i as int), rect, ed0@.down) is Some {
                        let s0 = last_press(vis@.take(i as int), rect, ed0@.down)->Some_0;
                        assert(active0.insert(id@, s0).insert(id@, src) =~= active0.insert(
                            id@,
                            src,
                        ));
                    }
                }
            }
        }
        i = i + 1;
    }
    proof {
        assert(vis@.take(n as int) =~= vis@);
    }
    any_over
}

/// One button step without rendering: resolves hover and capture for `id`
/// against `rect` and reports whether the button fired this frame.
pub fn button_step(state: &mut UiState, id: &Id, rect: Rect) -> (activated: bool)
    requires
        old(state).wf(),
    ensures
        final(state).wf(),
        ({
            let o = button_result(
                old(state).component_state@.hot,
                old(state).component_state@.active,
                old(state).event_data@,
                id@,
                rect,
            );
            &&& final(state).component_state@.hot == o.hot
            &&& final(state).component_state@.active == o.active
            &&& final(state).event_data == old(state).event_data
            &&& activated == o.activated
        }),
{
    let vis = state.event_data.positions();
    let ghost hot0 = state.component_state@.hot;
    let any_over = hover_press_pass(state, id, rect, &vis);
    if !any_over {
        state.component_state.remove_all_hot(id);
        proof {
            assert(hot0.remove(id@) == state.component_state@.hot);
        }
    }
    let mut activated = false;
    if state.component_state.is_active(id) {
        let why = state.component_state.why_active(id);
        let owner = why[0];
        if state.event_data.went_up(&owner) {
            activated = true;
            state.component_state.remove_active(id, owner);
        }
    }
    activated
}

/// Runs one button step, then draws the button once through the backend with
/// its resolved hover and press flags.  Capture and hover changes reflect
/// input truth already consumed this frame, so they hold whether or not the
/// drawing call fails.
pub fn button<B: ButtonRender>(
    state: &mut UiState,
    backend: &mut B,
    id: Id,
    rect: Rect,
    label: &str,
) -> (r: Result<bool, B::Error>)
    requires
        old(state).wf(),
    ensures
        final(state).wf(),
        ({
            let o = button_result(
                old(state).component_state@.hot,
                old(state).component_state@.active,
                old(state).event_data@,
                id@,
                rect,
            );
            &&& final(state).component_state@.hot == o.hot
            &&& final(state).component_state@.active == o.active
            &&& final(state).event_data == old(state).event_data
            &&& (r matches Ok(a) ==> a == o.activated)
        }),
{
    let activated = button_step(state, &id, rect);
    let hovered = state.component_state.is_hot(&id);
    let pressed = state.component_state.is_active(&id);
    match backend.draw_button(&id, rect, label, hovered, pressed) {
        Ok(()) => Ok(activated),
        Err(e) => Err(e),
    }
}

/// A widget is hot after a button step exactly when at least one
/// currently-visible pointer position lies inside its rectangle this frame —
/// whatever its hover was before, so hover is gone the very next frame once
/// no visible position covers the rectangle.
pub proof fn lemma_button_hot_iff(
    hot: Map<IdV, EventSource>,
    active: Map<IdV, EventSource>,
    ed: EventDataV,
    id: IdV,
    rect: Rect,
)
    ensures
        ({
            let vis = visible_seq(ed.cur, ed.masks, ed.off_x, ed.off_y);
            button_result(hot, active, ed, id, rect).hot.contains_key(id) <==> exists|i: int|
                0 <= i < vis.len() && rect.spec_contains(vis[i].1)
        }),
{
    let vis = visible_seq(ed.cur, ed.masks, ed.off_x, ed.off_y);
    lemma_last_inside_exists(vis, rect);
}

} // verus!
