//! The scrollbar protocol: a derived widget composed over the drag region.
//!
//! The thumb rectangle is computed from the covering fraction
//! (`viewport / content`, clamped to one) and the scroll position; pointer
//! interaction is delegated to the drag-region protocol against the thumb,
//! without drawing its internals; the dragged thumb is then clamped to the
//! track minus the dead zone (track size minus thumb size) and the scroll
//! position re-derived from the clamped thumb offset.
//!
//! The integer projections are chosen so that the two-way mapping is
//! consistent: the thumb offset uses floor division, the re-derived scroll
//! position ceiling division, and whenever the track is no longer than the
//! content size, projecting a re-derived scroll position gives back the
//! identical thumb offset.

use vstd::prelude::*;
use vstd::arithmetic::div_mod::lemma_div_is_ordered;
use vstd::arithmetic::div_mod::lemma_div_multiples_vanish;
use vstd::arithmetic::div_mod::lemma_div_multiples_vanish_fancy;
use vstd::arithmetic::div_mod::lemma_div_pos_is_pos;
use vstd::arithmetic::div_mod::lemma_fundamental_div_mod;
use vstd::arithmetic::div_mod::lemma_mod_division_less_than_divisor;
use vstd::arithmetic::div_mod::lemma_multiply_divide_lt;
use vstd::arithmetic::mul::lemma_mul_inequality;
use vstd::arithmetic::mul::lemma_mul_is_commutative;
use crate::components::drag_region::drag_region_step;
use crate::components::drag_region::drag_result;
use crate::components::drag_region::first_press_from;
use crate::events::visible_seq;
use crate::events::EventDataV;
use crate::events::EventSource;
use crate::geom::spec_clamp;
use crate::geom::Point;
use crate::geom::Rect;
use crate::geom::GEOM_LIMIT;
use crate::id::Id;
use crate::id::IdV;
use crate::state::UiState;

verus! {

/// Largest size (track, viewport, content, scroll position) a scrollbar
/// accepts, so that every product in its projections fits in `i64`.
pub const SIZE_LIMIT: i64 = 0x4000_0000;

/// Which way a scrollbar runs.
#[derive(Debug, PartialEq, Eq, Structural, Copy, Clone)]
pub enum Axis {
    Vertical,
    Horizontal,
}

/// The rendering capability a scrollbar draws through, implemented by the
/// host's backend.
pub trait ScrollbarRender {
    /// The backend's failure kind.
    type Error;

    /// Draws the scrollbar once per frame: its track and its thumb.
    fn draw_scrollbar(
        &mut self,
        id: &Id,
        entire_rect: Rect,
        drag_rect: Rect,
        over: bool,
        down: bool,
    ) -> Result<(), Self::Error>;
}

/// The thumb's extent along the track: the covering fraction
/// `container / contents`, clamped to one, times the track size, floored.
pub open spec fn thumb_size(container: int, contents: int, track: int) -> int {
    if contents <= container {
        track
    } else {
        container * track / contents
    }
}

/// The thumb's offset along the track for a scroll position, floored.
pub open spec fn thumb_offset(scroll: int, contents: int, track: int) -> int {
    scroll * track / contents
}

/// The scroll position re-derived from a clamped thumb offset: the least
/// scroll position whose thumb offset reaches `off` (ceiling division).
pub open spec fn scroll_of_offset(off: int, contents: int, track: int) -> int {
    (off * contents + track - 1) / track
}

/// The track size of a scrollbar rectangle along its axis.
pub open spec fn track_of(rect: Rect, axis: Axis) -> int {
    match axis {
        Axis::Vertical => rect.y1 - rect.y0,
        Axis::Horizontal => rect.x1 - rect.x0,
    }
}

/// The coordinate of a rectangle's leading edge along the axis.
pub open spec fn main_lo(rect: Rect, axis: Axis) -> int {
    match axis {
        Axis::Vertical => rect.y0 as int,
        Axis::Horizontal => rect.x0 as int,
    }
}

/// The thumb rectangle: leading edge at `t` along the axis with extent
/// `cov`, spanning the track rectangle across the axis.  The casts are exact
/// whenever the coordinates fit in `i64`.
pub open spec fn place_thumb(rect: Rect, axis: Axis, t: int, cov: int) -> Rect {
    match axis {
        Axis::Vertical => Rect { x0: rect.x0, y0: t as i64, x1: rect.x1, y1: (t + cov) as i64 },
        Axis::Horizontal => Rect { x0: t as i64, y0: rect.y0, x1: (t + cov) as i64, y1: rect.y1 },
    }
}

/// The identity of a scrollbar's thumb: one fixed token, owned by the
/// scrollbar's own identity, so thumbs of different scrollbars stay apart.
pub open spec fn thumb_id_of(parent: IdV) -> IdV {
    IdV {
        token: "tabula.scrollbar.thumb"@,
        line: 0,
        column: 0,
        aux_1: 0,
        aux_2: 0,
        aux_3: 0,
        parent: Option::Some(Box::new(parent)),
    }
}

/// What one scrollbar step does: the active table afterwards, the clamped
/// thumb rectangle that is drawn, and the re-derived scroll position.
pub ghost struct ScrollOutcome {
    pub active: Map<IdV, EventSource>,
    pub thumb: Rect,
    pub scroll: int,
}

/// The scrollbar transition: project the scroll position to a thumb, let the
/// drag region move it, clamp it to the track minus the dead zone, and
/// re-derive the scroll position from the clamped offset.
pub open spec fn scrollbar_result(
    active: Map<IdV, EventSource>,
    ed: EventDataV,
    child: IdV,
    rect: Rect,
    axis: Axis,
    container: int,
    contents: int,
    scroll0: int,
) -> ScrollOutcome {
    let track = track_of(rect, axis);
    let cov = thumb_size(container, contents, track);
    let start = thumb_offset(scroll0, contents, track);
    let lo = main_lo(rect, axis);
    let bar0 = place_thumb(rect, axis, lo + start, cov);
    let d = drag_result(active, ed, child, bar0);
    let t = spec_clamp(lo, main_lo(d.rect, axis), lo + (track - cov));
    ScrollOutcome {
        active: d.active,
        thumb: place_thumb(rect, axis, t, cov),
        scroll: scroll_of_offset(t - lo, contents, track),
    }
}

/// A product of two values in `[0, SIZE_LIMIT] x [0, 2 * SIZE_LIMIT]` fits
/// comfortably in `i64`.
proof fn lemma_size_product(a: int, b: int)
    requires
        0 <= a <= SIZE_LIMIT,
        0 <= b <= 2 * SIZE_LIMIT,
    ensures
        0 <= a * b <= 0x2000_0000_0000_0000,
{
    assert(0 <= a * b <= 0x2000_0000_0000_0000) by (nonlinear_arith)
        requires
            0 <= a <= 0x4000_0000,
            0 <= b <= 0x8000_0000,
    ;
}

/// Floor division bounds: for `0 <= a`, `0 < b`, `a <= c * b` gives
/// `a / b <= c`.
proof fn lemma_div_le(a: int, b: int, c: int)
    requires
        0 <= a,
        0 < b,
        a <= b * c,
    ensures
        0 <= a / b <= c,
{
    lemma_div_pos_is_pos(a, b);
    lemma_div_is_ordered(a, b * c, b);
    lemma_mul_is_commutative(b, c);
    lemma_div_multiples_vanish(c, b);
}

/// The re-derived scroll position grows with the thumb offset, so the
/// offset's dead-zone clamp bounds it.
pub proof fn lemma_scroll_of_offset_monotone(off1: int, off2: int, contents: int, track: int)
    requires
        0 <= off1 <= off2,
        0 < contents,
        0 < track,
    ensures
        scroll_of_offset(off1, contents, track) <= scroll_of_offset(off2, contents, track),
{
    lemma_mul_inequality(off1, off2, contents);
    lemma_div_is_ordered(off1 * contents + track - 1, off2 * contents + track - 1, track);
}

/// Runs one scrollbar step along `axis` without rendering: projects,
/// delegates to the drag region under the thumb identity, clamps, and
/// re-derives the scroll position in place.  Returns the clamped thumb.
pub fn scrollbar_step(
    state: &mut UiState,
    id: &Id,
    rect: Rect,
    axis: Axis,
    container_size: i64,
    contents_size: i64,
    scroll_pos: &mut i64,
) -> (thumb: Rect)
    requires
        old(state).wf(),
        rect.bounded(SIZE_LIMIT as int),
        rect.x0 <= rect.x1,
        rect.y0 <= rect.y1,
        track_of(rect, axis) > 0,
        0 < contents_size <= SIZE_LIMIT,
        0 <= container_size <= SIZE_LIMIT,
        0 <= *old(scroll_pos) <= contents_size,
    ensures
        final(state).wf(),
        ({
            let o = scrollbar_result(
                old(state).component_state@.active,
                old(state).event_data@,
                thumb_id_of(id@),
                rect,
                axis,
                container_size as int,
                contents_size as int,
                *old(scroll_pos) as int,
            );
            &&& final(state).component_state@.active == o.active
            &&& final(state).component_state@.hot == old(state).component_state@.hot
            &&& final(state).event_data == old(state).event_data
            &&& *final(scroll_pos) == o.scroll
            &&& thumb == o.thumb
        }),
        0 <= *final(scroll_pos) <= contents_size,
        *final(scroll_pos) <= scroll_of_offset(
            track_of(rect, axis) - thumb_size(
                container_size as int,
                contents_size as int,
                track_of(rect, axis),
            ),
            contents_size as int,
            track_of(rect, axis),
        ),
{
    let ghost track_g = track_of(rect, axis);
    let track: i64 = match axis {
        Axis::Vertical => rect.height(),
        Axis::Horizontal => rect.width(),
    };
    proof {
        lemma_size_product(container_size as int, track as int);
        lemma_size_product(*scroll_pos as int, track as int);
    }
    let cov: i64 = if contents_size <= container_size {
        track
    } else {
        proof {
            lemma_mul_inequality(container_size as int, contents_size as int, track as int);
            lemma_div_le(
                (container_size as int) * (track as int),
                contents_size as int,
                track as int,
            );
        }
        (container_size * track) / contents_size
    };
    let start: i64 = {
        proof {
            lemma_mul_inequality(*scroll_pos as int, contents_size as int, track as int);
            lemma_div_le((*scroll_pos as int) * (track as int), contents_size as int, track as int);
        }
        (*scroll_pos * track) / contents_size
    };
    let lo: i64 = match axis {
        Axis::Vertical => rect.y0,
        Axis::Horizontal => rect.x0,
    };
    let mut bar: Rect = match axis {
        Axis::Vertical => Rect { x0: rect.x0, y0: lo + start, x1: rect.x1, y1: lo + start + cov },
        Axis::Horizontal => Rect { x0: lo + start, y0: rect.y0, x1: lo + start + cov, y1: rect.y1 },
    };
    let tid = Id::new("tabula.scrollbar.thumb", 0, 0, 0, 0, 0).with_parent(id.clone());
    proof {
        assert(tid@ == thumb_id_of(id@));
        assert(bar.bounded(GEOM_LIMIT as int));
    }
    let _action = drag_region_step(state, &tid, &mut bar);
    let pos: i64 = match axis {
        Axis::Vertical => bar.y0,
        Axis::Horizontal => bar.x0,
    };
    let t = crate::geom::clamp(lo, pos, lo + (track - cov));
    let thumb: Rect = match axis {
        Axis::Vertical => Rect { x0: rect.x0, y0: t, x1: rect.x1, y1: t + cov },
        Axis::Horizontal => Rect { x0: t, y0: rect.y0, x1: t + cov, y1: rect.y1 },
    };
    let off = t - lo;
    proof {
        lemma_size_product(contents_size as int, off as int);
        lemma_mul_is_commutative(off as int, contents_size as int);
    }
    let num = off * contents_size + track - 1;
    let new_scroll = num / track;
    proof {
        lemma_div_pos_is_pos(num as int, track as int);
        assert((num as int) < (track as int) * (contents_size as int + 1)) by (nonlinear_arith)
            requires
                0 <= off as int <= track as int,
                0 < contents_size as int,
                0 < track as int,
                num as int == (off as int) * (contents_size as int) + track as int - 1,
        ;
        lemma_multiply_divide_lt(num as int, track as int, contents_size as int + 1);
        lemma_scroll_of_offset_monotone(
            off as int,
            track as int - cov as int,
            contents_size as int,
            track as int,
        );
    }
    *scroll_pos = new_scroll;
    thumb
}

/// Runs one scrollbar step, then draws the scrollbar once through the
/// backend with the clamped thumb rectangle.
pub fn scrollbar<A: ScrollbarRender>(
    state: &mut UiState,
    backend: &mut A,
    id: Id,
    rect: Rect,
    axis: Axis,
    container_size: i64,
    contents_size: i64,
    scroll_pos: &mut i64,
) -> (r: Result<bool, A::Error>)
    requires
        old(state).wf(),
        rect.bounded(SIZE_LIMIT as int),
        rect.x0 <= rect.x1,
        rect.y0 <= rect.y1,
        track_of(rect, axis) > 0,
        0 < contents_size <= SIZE_LIMIT,
        0 <= container_size <= SIZE_LIMIT,
        0 <= *old(scroll_pos) <= contents_size,
    ensures
        final(state).wf(),
        ({
            let o = scrollbar_result(
                old(state).component_state@.active,
                old(state).event_data@,
                thumb_id_of(id@),
                rect,
                axis,
                container_size as int,
                contents_size as int,
                *old(scroll_pos) as int,
            );
            &&& final(state).component_state@.active == o.active
            &&& final(state).component_state@.hot == old(state).component_state@.hot
            &&& final(state).event_data == old(state).event_data
            &&& *final(scroll_pos) == o.scroll
        }),
        0 <= *final(scroll_pos) <= contents_size,
        *final(scroll_pos) <= scroll_of_offset(
            track_of(rect, axis) - thumb_size(
                container_size as int,
                contents_size as int,
                track_of(rect, axis),
            ),
            contents_size as int,
            track_of(rect, axis),
        ),
        r matches Ok(b) ==> b == false,
{
    let thumb = scrollbar_step(state, &id, rect, axis, container_size, contents_size, scroll_pos);
    match backend.draw_scrollbar(&id, rect, thumb, false, true) {
        Ok(()) => Ok(false),
        Err(e) => Err(e),
    }
}

/// A vertical scrollbar.
pub fn scrollbar_v<A: ScrollbarRender>(
    state: &mut UiState,
    backend: &mut A,
    id: Id,
    rect: Rect,
    container_size: i64,
    contents_size: i64,
    scroll_pos: &mut i64,
) -> (r: Result<bool, A::Error>)
    requires
        old(state).wf(),
        rect.bounded(SIZE_LIMIT as int),
        rect.x0 <= rect.x1,
        rect.y0 < rect.y1,
        0 < contents_size <= SIZE_LIMIT,
        0 <= container_size <= SIZE_LIMIT,
        0 <= *old(scroll_pos) <= contents_size,
    ensures
        final(state).wf(),
        ({
            let o = scrollbar_result(
                old(state).component_state@.active,
                old(state).event_data@,
                thumb_id_of(id@),
                rect,
                Axis::Vertical,
                container_size as int,
                contents_size as int,
                *old(scroll_pos) as int,
            );
            &&& final(state).component_state@.active == o.active
            &&& final(state).component_state@.hot == old(state).component_state@.hot
            &&& final(state).event_data == old(state).event_data
            &&& *final(scroll_pos) == o.scroll
        }),
        0 <= *final(scroll_pos) <= contents_size,
        *final(scroll_pos) <= scroll_of_offset(
            track_of(rect, Axis::Vertical) - thumb_size(
                container_size as int,
                contents_size as int,
                track_of(rect, Axis::Vertical),
            ),
            contents_size as int,
            track_of(rect, Axis::Vertical),
        ),
        r matches Ok(b) ==> b == false,
{
    scrollbar(state, backend, id, rect, Axis::Vertical, container_size, contents_size, scroll_pos)
}

/// A horizontal scrollbar.
pub fn scrollbar_h<A: ScrollbarRender>(
    state: &mut UiState,
    backend: &mut A,
    id: Id,
    rect: Rect,
    container_size: i64,
    contents_size: i64,
    scroll_pos: &mut i64,
) -> (r: Result<bool, A::Error>)
    requires
        old(state).wf(),
        rect.bounded(SIZE_LIMIT as int),
        rect.x0 < rect.x1,
        rect.y0 <= rect.y1,
        0 < contents_size <= SIZE_LIMIT,
        0 <= container_size <= SIZE_LIMIT,
        0 <= *old(scroll_pos) <= contents_size,
    ensures
        final(state).wf(),
        ({
            let o = scrollbar_result(
                old(state).component_state@.active,
                old(state).event_data@,
                thumb_id_of(id@),
                rect,
                Axis::Horizontal,
                container_size as int,
                contents_size as int,
                *old(scroll_pos) as int,
            );
            &&& final(state).component_state@.active == o.active
            &&& final(state).component_state@.hot == old(state).component_state@.hot
            &&& final(state).event_data == old(state).event_data
            &&& *final(scroll_pos) == o.scroll
        }),
        0 <= *final(scroll_pos) <= contents_size,
        *final(scroll_pos) <= scroll_of_offset(
            track_of(rect, Axis::Horizontal) - thumb_size(
                container_size as int,
                contents_size as int,
                track_of(rect, Axis::Horizontal),
            ),
            contents_size as int,
            track_of(rect, Axis::Horizontal),
        ),
        r matches Ok(b) ==> b == false,
{
    scrollbar(
        state,
        backend,
        id,
        rect,
        Axis::Horizontal,
        container_size,
        contents_size,
        scroll_pos,
    )
}

/// Projecting a re-derived scroll position gives back the identical thumb
/// offset, whenever the track is no longer than the content size: the
/// two-way projection never walks the thumb.
pub proof fn lemma_thumb_projection_idempotent(off: int, contents: int, track: int)
    requires
        0 < track <= contents,
        0 <= off <= track,
    ensures
        thumb_offset(scroll_of_offset(off, contents, track), contents, track) == off,
{
    let a = off * contents + track - 1;
    let s = a / track;
    lemma_fundamental_div_mod(a, track);
    lemma_mod_division_less_than_divisor(a, track);
    assert(off * contents <= track * s <= off * contents + track - 1);
    assert(s * track == track * s) by {
        lemma_mul_is_commutative(s, track);
    }
    assert(off <= s * track / contents) by {
        lemma_div_is_ordered(off * contents, s * track, contents);
        lemma_mul_is_commutative(off, contents);
        lemma_div_multiples_vanish(off, contents);
    }
    assert(s * track / contents <= off) by {
        lemma_div_is_ordered(s * track, off * contents + contents - 1, contents);
        lemma_mul_is_commutative(off, contents);
        lemma_div_multiples_vanish_fancy(off, contents - 1, contents);
    }
}

/// Exact scroll round trip: whenever the projection divides evenly, the
/// thumb offset computed from a scroll position lies inside the track minus
/// the dead zone and re-deriving the scroll position from it reproduces the
/// original value exactly.
pub proof fn lemma_scroll_round_trip(scroll: int, container: int, contents: int, track: int)
    requires
        0 < track,
        0 < contents,
        0 <= container <= contents,
        0 <= scroll <= contents - container,
        (scroll * track) % contents == 0,
    ensures
        ({
            let cov = thumb_size(container, contents, track);
            let start = thumb_offset(scroll, contents, track);
            &&& 0 <= start <= track - cov
            &&& scroll_of_offset(start, contents, track) == scroll
        }),
{
    let cov = thumb_size(container, contents, track);
    let start = thumb_offset(scroll, contents, track);
    lemma_fundamental_div_mod(scroll * track, contents);
    assert(contents * start == scroll * track);
    assert(0 <= start) by {
        lemma_mul_inequality(0, scroll, track);
        lemma_div_pos_is_pos(scroll * track, contents);
    }
    if contents <= container {
        assert(container == contents && scroll == 0);
        assert(contents * start == 0);
        assert(start == 0) by (nonlinear_arith)
            requires
                contents * start == 0,
                0 < contents,
                0 <= start,
        ;
    } else {
        lemma_fundamental_div_mod(container * track, contents);
        lemma_mod_division_less_than_divisor(container * track, contents);
        assert(contents * cov <= container * track);
        assert(start + cov <= track) by (nonlinear_arith)
            requires
                contents * start == scroll * track,
                contents * cov <= container * track,
                scroll + container <= contents,
                0 < contents,
                0 < track,
                0 <= scroll,
                0 <= container,
        ;
    }
    assert(scroll_of_offset(start, contents, track) == scroll) by {
        assert(start * contents == track * scroll) by {
            lemma_mul_is_commutative(start, contents);
            lemma_mul_is_commutative(scroll, track);
        }
        assert((track * scroll + track - 1) / track == scroll) by {
            lemma_div_multiples_vanish_fancy(scroll, track - 1, track);
        }
    }
}

/// No source pressed, so no press can claim a drag region.
pub proof fn lemma_first_press_no_down(
    vis: Seq<(EventSource, Point)>,
    rect: Rect,
    down: Set<EventSource>,
    k: int,
)
    requires
        down == Set::<EventSource>::empty(),
    ensures
        first_press_from(vis, rect, down, k) is None,
    decreases vis.len() - k,
{
    if 0 <= k < vis.len() {
        assert(!down.contains(vis[k].0));
        lemma_first_press_no_down(vis, rect, down, k + 1);
    }
}

/// Scrollbar idempotence: feeding a re-derived scroll position back through
/// the same projections and clamps on a frame with no pointer input — no
/// press and no capture of the thumb — reproduces the identical thumb
/// rectangle and the identical scroll position.
pub proof fn lemma_scrollbar_idempotent(
    active: Map<IdV, EventSource>,
    ed: EventDataV,
    child: IdV,
    rect: Rect,
    axis: Axis,
    container: int,
    contents: int,
    off: int,
)
    requires
        rect.bounded(SIZE_LIMIT as int),
        0 < track_of(rect, axis) <= contents,
        contents <= SIZE_LIMIT,
        0 <= container,
        0 <= off <= track_of(rect, axis) - thumb_size(container, contents, track_of(rect, axis)),
        !active.contains_key(child),
        ed.down == Set::<EventSource>::empty(),
    ensures
        ({
            let track = track_of(rect, axis);
            let cov = thumb_size(container, contents, track);
            let lo = main_lo(rect, axis);
            let scroll1 = scroll_of_offset(off, contents, track);
            let o = scrollbar_result(active, ed, child, rect, axis, container, contents, scroll1);
            &&& o.scroll == scroll1
            &&& o.thumb == place_thumb(rect, axis, lo + off, cov)
            &&& o.active == active
        }),
{
    let track = track_of(rect, axis);
    let cov = thumb_size(container, contents, track);
    let lo = main_lo(rect, axis);
    let scroll1 = scroll_of_offset(off, contents, track);
    assert(0 <= cov) by {
        if container < contents {
            assert(0 <= container * track) by (nonlinear_arith)
                requires
                    0 <= container,
                    0 < track,
            ;
            lemma_div_pos_is_pos(container * track, contents);
        }
    }
    lemma_thumb_projection_idempotent(off, contents, track);
    let start = thumb_offset(scroll1, contents, track);
    assert(start == off);
    let bar0 = place_thumb(rect, axis, lo + start, cov);
    lemma_first_press_no_down(
        visible_seq(ed.cur, ed.masks, ed.off_x, ed.off_y),
        bar0,
        ed.down,
        0,
    );
    let d = drag_result(active, ed, child, bar0);
    assert(d.rect == bar0 && d.active == active);
    assert(main_lo(bar0, axis) == lo + off);
    assert(spec_clamp(lo, lo + off, lo + (track - cov)) == lo + off);
}

/// Scroll round trip at the scrollbar level: for any scroll position between
/// zero and content minus viewport whose thumb projection divides evenly, a
/// frame with no pointer input — no press and no capture of the thumb —
/// re-derives exactly the original scroll position.
pub proof fn lemma_scrollbar_round_trip(
    active: Map<IdV, EventSource>,
    ed: EventDataV,
    child: IdV,
    rect: Rect,
    axis: Axis,
    container: int,
    contents: int,
    scroll: int,
)
    requires
        rect.bounded(SIZE_LIMIT as int),
        track_of(rect, axis) > 0,
        0 < contents <= SIZE_LIMIT,
        0 <= container <= contents,
        0 <= scroll <= contents - container,
        (scroll * track_of(rect, axis)) % contents == 0,
        !active.contains_key(child),
        ed.down == Set::<EventSource>::empty(),
    ensures
        scrollbar_result(active, ed, child, rect, axis, container, contents, scroll).scroll
            == scroll,
        scrollbar_result(active, ed, child, rect, axis, container, contents, scroll).active
            == active,
{
    let track = track_of(rect, axis);
    let cov = thumb_size(container, contents, track);
    let start = thumb_offset(scroll, contents, track);
    let lo = main_lo(rect, axis);
    lemma_scroll_round_trip(scroll, container, contents, track);
    let bar0 = place_thumb(rect, axis, lo + start, cov);
    lemma_first_press_no_down(
        visible_seq(ed.cur, ed.masks, ed.off_x, ed.off_y),
        bar0,
        ed.down,
        0,
    );
    let d = drag_result(active, ed, child, bar0);
    assert(d.rect == bar0 && d.active == active);
    assert(main_lo(bar0, axis) == lo + start);
    assert(spec_clamp(lo, lo + start, lo + (track - cov)) == lo + start);
}

} // verus!
