//! Multi-frame laws of the interaction core: properties that relate several
//! widget steps across frame boundaries.

use vstd::prelude::*;
use crate::components::button::button_result;
use crate::components::button::last_press;
use crate::components::drag_region::drag_result;
use crate::events::feed_all;
use crate::events::feed_one;
use crate::events::frame_begin;
use crate::events::in_all_masks;
use crate::events::lemma_upsert;
use crate::events::lookup;
use crate::events::positions_bounded;
use crate::events::src_unique;
use crate::events::upsert;
use crate::events::visible_seq;
use crate::events::Event;
use crate::events::EventDataV;
use crate::events::EventSource;
use crate::geom::Point;
use crate::geom::Rect;
use crate::geom::GEOM_LIMIT;
use crate::geom::POS_LIMIT;
use crate::id::IdV;

verus! {

/// Feeding a batch of one event is feeding that event.
pub proof fn lemma_feed_single(ed: EventDataV, e: Event)
    ensures
        feed_all(ed, seq![e]) == feed_one(ed, e),
{
    assert(seq![e].len() == 1);
    assert(seq![e].first() == e);
    assert(seq![e].drop_first() =~= Seq::<Event>::empty());
    assert(feed_all(feed_one(ed, e), Seq::<Event>::empty()) == feed_one(ed, e));
}

/// The vector sum of a sequence of drag deltas.
pub open spec fn delta_sum(deltas: Seq<(i64, i64)>) -> (int, int)
    decreases deltas.len(),
{
    if deltas.len() == 0 {
        (0int, 0int)
    } else {
        let rest = delta_sum(deltas.drop_first());
        (deltas.first().0 + rest.0, deltas.first().1 + rest.1)
    }
}

/// The state after driving a drag region for one frame per delta: each frame
/// begins, feeds exactly one move of `src` by that frame's delta, and
/// resolves the drag region once.
pub open spec fn drag_run(
    active: Map<IdV, EventSource>,
    ed: EventDataV,
    id: IdV,
    rect: Rect,
    src: EventSource,
    deltas: Seq<(i64, i64)>,
) -> (Map<IdV, EventSource>, EventDataV, Rect)
    decreases deltas.len(),
{
    if deltas.len() == 0 {
        (active, ed, rect)
    } else {
        let d = deltas.first();
        let p = lookup(ed.cur, src)->Some_0;
        let e = Event::PointerMove(src, (p.x + d.0) as i64, (p.y + d.1) as i64);
        let ed1 = feed_all(frame_begin(ed), seq![e]);
        let o = drag_result(active, ed1, id, rect);
        drag_run(o.active, ed1, id, o.rect, src, deltas.drop_first())
    }
}

/// Drag-region round trip: starting from rectangle `rect` captured by `src`,
/// any number of consecutive frames, each moving `src` by one delta with no
/// release, leaves the rectangle translated by exactly the vector sum of all
/// the deltas, with `src` still the sole owner.  The masks must be absent
/// (an unclipped drag) and every intermediate position must stay within the
/// event position limit; the rectangle may sit anywhere within the geometry
/// limit of the dragged pointer.
pub proof fn lemma_drag_round_trip(
    active: Map<IdV, EventSource>,
    ed: EventDataV,
    id: IdV,
    rect: Rect,
    src: EventSource,
    deltas: Seq<(i64, i64)>,
)
    requires
        src_unique(ed.cur),
        positions_bounded(ed.cur),
        ed.masks == Seq::<Rect>::empty(),
        active.contains_key(id),
        active[id] == src,
        lookup(ed.cur, src) is Some,
        ({
            let p0 = lookup(ed.cur, src)->Some_0;
            forall|k: int|
                0 <= k <= deltas.len() ==> {
                    let s = #[trigger] delta_sum(deltas.take(k));
                    -POS_LIMIT <= p0.x + s.0 <= POS_LIMIT && -POS_LIMIT <= p0.y + s.1 <= POS_LIMIT
                }
        }),
        ({
            let p0 = lookup(ed.cur, src)->Some_0;
            &&& -GEOM_LIMIT <= rect.x0 - p0.x <= GEOM_LIMIT
            &&& -GEOM_LIMIT <= rect.y0 - p0.y <= GEOM_LIMIT
            &&& -GEOM_LIMIT <= rect.x1 - p0.x <= GEOM_LIMIT
            &&& -GEOM_LIMIT <= rect.y1 - p0.y <= GEOM_LIMIT
        }),
    ensures
        ({
            let p0 = lookup(ed.cur, src)->Some_0;
            let s = delta_sum(deltas);
            let run = drag_run(active, ed, id, rect, src, deltas);
            &&& run.0.contains_key(id)
            &&& run.0[id] == src
            &&& run.2.x0 == rect.x0 + s.0
            &&& run.2.y0 == rect.y0 + s.1
            &&& run.2.x1 == rect.x1 + s.0
            &&& run.2.y1 == rect.y1 + s.1
            &&& lookup(run.1.cur, src) == Option::Some(
                Point { x: (p0.x + s.0) as i64, y: (p0.y + s.1) as i64 },
            )
            &&& src_unique(run.1.cur)
            &&& positions_bounded(run.1.cur)
            &&& run.1.masks == Seq::<Rect>::empty()
            &&& deltas.len() > 0 ==> run.1.up == Set::<EventSource>::empty()
        }),
    decreases deltas.len(),
{
    let p0 = lookup(ed.cur, src)->Some_0;
    if deltas.len() == 0 {
        assert(delta_sum(deltas) == (0int, 0int));
        assert(Point { x: (p0.x + 0) as i64, y: (p0.y + 0) as i64 } == p0);
    } else {
        let d = deltas.first();
        let tail = deltas.drop_first();
        assert(deltas.take(1).len() == 1);
        assert(deltas.take(1).first() == d);
        assert(deltas.take(1).drop_first() =~= Seq::<(i64, i64)>::empty());
        assert(delta_sum(Seq::<(i64, i64)>::empty()) == (0int, 0int));
        assert(delta_sum(deltas.take(1)) == (d.0 + 0int, d.1 + 0int));
        assert(deltas.take(0) =~= Seq::<(i64, i64)>::empty());
        assert(-POS_LIMIT <= p0.x + d.0 <= POS_LIMIT && -POS_LIMIT <= p0.y + d.1 <= POS_LIMIT)
            by {
            assert(delta_sum(deltas.take(1)) == (d.0 + 0int, d.1 + 0int));
        }
        let pnew = Point { x: (p0.x + d.0) as i64, y: (p0.y + d.1) as i64 };
        assert(pnew.x == p0.x + d.0 && pnew.y == p0.y + d.1);
        let e = Event::PointerMove(src, pnew.x, pnew.y);
        lemma_feed_single(frame_begin(ed), e);
        let ed1 = feed_all(frame_begin(ed), seq![e]);
        assert(ed1 == feed_one(frame_begin(ed), e));
        assert(ed1.cur == upsert(ed.cur, src, pnew));
        assert(ed1.prev == ed.cur);
        assert(ed1.masks == Seq::<Rect>::empty());
        lemma_upsert(ed.cur, src, pnew);
        assert(pnew.bounded(POS_LIMIT as int));
        assert(in_all_masks(ed1.masks, p0));
        let o = drag_result(active, ed1, id, rect);
        assert(crate::events::movement_of(ed1, src) == Option::Some((d.0, d.1)));
        assert(o.rect.x0 == rect.x0 + d.0 && o.rect.y0 == rect.y0 + d.1 && o.rect.x1 == rect.x1
            + d.0 && o.rect.y1 == rect.y1 + d.1);
        assert forall|k: int| 0 <= k <= tail.len() implies {
            let s = #[trigger] delta_sum(tail.take(k));
            -POS_LIMIT <= pnew.x + s.0 <= POS_LIMIT && -POS_LIMIT <= pnew.y + s.1 <= POS_LIMIT
        } by {
            assert(deltas.take(k + 1).drop_first() =~= tail.take(k));
            assert(deltas.take(k + 1).first() == d);
            assert(delta_sum(deltas.take(k + 1)) == (
                d.0 + delta_sum(tail.take(k)).0,
                d.1 + delta_sum(tail.take(k)).1,
            ));
            assert(-POS_LIMIT <= p0.x + delta_sum(deltas.take(k + 1)).0 <= POS_LIMIT);
            assert(-POS_LIMIT <= p0.y + delta_sum(deltas.take(k + 1)).1 <= POS_LIMIT);
        }
        lemma_drag_round_trip(o.active, ed1, id, o.rect, src, tail);
        let run = drag_run(o.active, ed1, id, o.rect, src, tail);
        assert(drag_run(active, ed, id, rect, src, deltas) == run);
        assert(delta_sum(deltas) == (d.0 + delta_sum(tail).0, d.1 + delta_sum(tail).1));
        assert(run.2.x0 == rect.x0 + delta_sum(deltas).0);
        assert(pnew.x + delta_sum(tail).0 == p0.x + delta_sum(deltas).0);
        assert(pnew.y + delta_sum(tail).1 == p0.y + delta_sum(deltas).1);
        if tail.len() == 0 {
            assert(run.1 == ed1);
            assert(ed1.up =~= Set::<EventSource>::empty());
        }
    }
}

/// No source pressed, so nothing can claim hover-press capture.
pub proof fn lemma_last_press_no_down(
    vis: Seq<(EventSource, Point)>,
    rect: Rect,
    down: Set<EventSource>,
)
    requires
        down == Set::<EventSource>::empty(),
    ensures
        last_press(vis, rect, down) is None,
    decreases vis.len(),
{
    if vis.len() > 0 {
        assert(!down.contains(vis.last().0));
        lemma_last_press_no_down(vis.drop_last(), rect, down);
    }
}

/// Button activation fires exactly once per press-release cycle: the frame
/// with the press over the rectangle does not fire; the frame with the
/// owner's release fires and clears capture; a following frame with no new
/// events does not fire again.
pub proof fn lemma_button_fires_once(
    hot0: Map<IdV, EventSource>,
    active0: Map<IdV, EventSource>,
    ed1: EventDataV,
    ed2: EventDataV,
    ed3: EventDataV,
    id: IdV,
    rect: Rect,
    src: EventSource,
    p: Point,
)
    requires
        !active0.contains_key(id),
        visible_seq(ed1.cur, ed1.masks, ed1.off_x, ed1.off_y) == seq![(src, p)],
        rect.spec_contains(p),
        ed1.down.contains(src),
        !ed1.up.contains(src),
        ed2.down == Set::<EventSource>::empty(),
        ed2.up.contains(src),
        ed3.down == Set::<EventSource>::empty(),
        ed3.up == Set::<EventSource>::empty(),
    ensures
        ({
            let o1 = button_result(hot0, active0, ed1, id, rect);
            let o2 = button_result(o1.hot, o1.active, ed2, id, rect);
            let o3 = button_result(o2.hot, o2.active, ed3, id, rect);
            &&& !o1.activated
            &&& o1.active.contains_key(id) && o1.active[id] == src
            &&& o2.activated
            &&& !o2.active.contains_key(id)
            &&& !o3.activated
        }),
{
    let vis1 = seq![(src, p)];
    assert(vis1.last() == (src, p));
    assert(vis1.drop_last() =~= Seq::<(EventSource, Point)>::empty());
    assert(last_press(vis1, rect, ed1.down) == Option::Some(src));
    let o1 = button_result(hot0, active0, ed1, id, rect);
    assert(o1.active == active0.insert(id, src));
    let vis2 = visible_seq(ed2.cur, ed2.masks, ed2.off_x, ed2.off_y);
    lemma_last_press_no_down(vis2, rect, ed2.down);
    let o2 = button_result(o1.hot, o1.active, ed2, id, rect);
    assert(o2.activated && o2.active == o1.active.remove(id));
    let vis3 = visible_seq(ed3.cur, ed3.masks, ed3.off_x, ed3.off_y);
    lemma_last_press_no_down(vis3, rect, ed3.down);
}

} // verus!
