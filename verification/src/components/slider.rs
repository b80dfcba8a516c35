//! The slider protocol: one-dimensional drag-to-set.
//!
//! A slider is hot on hover and captured on press-while-hot.  While captured,
//! the owning source's current horizontal position maps linearly to a
//! covering fraction clamped to the unit interval:
//! `covering = clamp(x - left, 0, width) / width`.  Release clears capture
//! but leaves the value where it is.

use vstd::prelude::*;
use crate::components::button::hover_press_pass;
use crate::components::button::last_inside;
use crate::components::button::last_press;
use crate::events::visible_at;
use crate::events::visible_seq;
use crate::events::EventDataV;
use crate::events::EventSource;
use crate::fraction::Fraction;
use crate::geom::spec_clamp;
use crate::geom::Rect;
use crate::geom::GEOM_LIMIT;
use crate::id::Id;
use crate::id::IdV;
use crate::state::UiState;

verus! {

/// The rendering capability a slider draws through, implemented by the
/// host's backend.
pub trait SliderRender {
    /// The backend's failure kind.
    type Error;

    /// Draws the slider once per frame with its resolved covering amount.
    fn draw_slider(&mut self, id: Id, rect: Rect, covering: Fraction) -> Result<
        (),
        Self::Error,
    >;
}

/// What one slider step does to the capture tables and the covering amount.
pub ghost struct SliderOutcome {
    pub hot: Map<IdV, EventSource>,
    pub active: Map<IdV, EventSource>,
    pub covering: Fraction,
    pub moved: bool,
}

/// The slider transition.  Hover and capture resolve as for a button; while
/// captured and not released, the owner's visible horizontal position sets
/// the covering fraction, exactly.
pub open spec fn slider_result(
    hot: Map<IdV, EventSource>,
    active: Map<IdV, EventSource>,
    ed: EventDataV,
    id: IdV,
    rect: Rect,
    covering0: Fraction,
) -> SliderOutcome {
    let vis = visible_seq(ed.cur, ed.masks, ed.off_x, ed.off_y);
    let hot1 = match last_inside(vis, rect) {
        Option::Some(s) => hot.insert(id, s),
        Option::None => hot.remove(id),
    };
    let active1 = match last_press(vis, rect, ed.down) {
        Option::Some(s) => active.insert(id, s),
        Option::None => active,
    };
    if active1.contains_key(id) {
        let owner = active1[id];
        if ed.up.contains(owner) {
            SliderOutcome { hot: hot1, active: active1.remove(id), covering: covering0, moved: false }
        } else {
            match visible_at(ed, owner) {
                Option::Some(p) => SliderOutcome {
                    hot: hot1,
                    active: active1,
                    covering: Fraction {
                        num: spec_clamp(0, p.x - rect.x0, rect.x1 - rect.x0) as i64,
                        den: (rect.x1 - rect.x0) as i64,
                    },
                    moved: true,
                },
                Option::None => SliderOutcome {
                    hot: hot1,
                    active: active1,
                    covering: covering0,
                    moved: false,
                },
            }
        }
    } else {
        SliderOutcome { hot: hot1, active: active1, covering: covering0, moved: false }
    }
}

/// One slider step without rendering: resolves hover and capture, and while
/// captured maps the owner's visible horizontal position to the covering
/// fraction in place.
pub fn slider_step(state: &mut UiState, id: &Id, rect: Rect, covering: &mut Fraction) -> (moved:
    bool)
    requires
        old(state).wf(),
        rect.bounded(GEOM_LIMIT as int),
        rect.x0 < rect.x1,
    ensures
        final(state).wf(),
        ({
            let o = slider_result(
                old(state).component_state@.hot,
                old(state).component_state@.active,
                old(state).event_data@,
                id@,
                rect,
                *old(covering),
            );
            &&& final(state).component_state@.hot == o.hot
            &&& final(state).component_state@.active == o.active
            &&& final(state).event_data == old(state).event_data
            &&& *final(covering) == o.covering
            &&& moved == o.moved
        }),
        moved ==> final(covering).wf(),
{
    let vis = state.event_data.positions();
    let ghost hot0 = state.component_state@.hot;
    let any_over = hover_press_pass(state, id, rect, &vis);
    if !any_over {
        state.component_state.remove_all_hot(id);
        proof {
            assert(hot0.remove(id@) == state.component_state@.hot);
        }
    }
    let mut moved = false;
    if state.component_state.is_active(id) {
        let why = state.component_state.why_active(id);
        let owner = why[0];
        if state.event_data.went_up(&owner) {
            state.component_state.remove_active(id, owner);
        } else {
            match state.event_data.position_of(&owner) {
                Some(p) => {
                    let w = rect.width();
                    let num = crate::geom::clamp(0, p.x - rect.x0, w);
                    *covering = Fraction { num, den: w };
                    moved = true;
                },
                None => {},
            }
        }
    }
    moved
}

/// Runs one slider step, then draws the slider once through the backend with
/// its resolved covering amount.  Capture, hover and covering changes reflect
/// input truth already consumed this frame, so they hold whether or not the
/// drawing call fails.
pub fn slider<B: SliderRender>(
    state: &mut UiState,
    backend: &mut B,
    id: Id,
    rect: Rect,
    percentage: &mut Fraction,
) -> (r: Result<bool, B::Error>)
    requires
        old(state).wf(),
        rect.bounded(GEOM_LIMIT as int),
        rect.x0 < rect.x1,
    ensures
        final(state).wf(),
        ({
            let o = slider_result(
                old(state).component_state@.hot,
                old(state).component_state@.active,
                old(state).event_data@,
                id@,
                rect,
                *old(percentage),
            );
            &&& final(state).component_state@.hot == o.hot
            &&& final(state).component_state@.active == o.active
            &&& final(state).event_data == old(state).event_data
            &&& *final(percentage) == o.covering
            &&& (r matches Ok(m) ==> m == o.moved)
        }),
{
    let id_for_draw = id.clone();
    let moved = slider_step(state, &id, rect, percentage);
    match backend.draw_slider(id_for_draw, rect, *percentage) {
        Ok(()) => Ok(moved),
        Err(e) => Err(e),
    }
}

} // verus!
