//! Per-frame pointer input: event sources, discrete events, and the frame
//! event buffer with its mask/offset stack.
//!
//! The buffer keeps two generations of source positions: the current frame's
//! and a snapshot of the previous frame's, taken by `begin_frame` before any
//! event of the new frame is folded in.  The pressed/released sets are
//! frame-local.  Container widgets push clip masks and shift the coordinate
//! offset; a position is visible to nested content only if it lies inside
//! every mask on the stack, and it is reported in local coordinates (global
//! minus the accumulated offset).

use vstd::prelude::*;
use crate::geom::Point;
use crate::geom::Rect;
use crate::geom::GEOM_LIMIT;
use crate::geom::OFF_LIMIT;
use crate::geom::POS_LIMIT;

verus! {

/// One concurrent input stream: a device and a contact or button channel.
/// Distinct sources interact simultaneously (multi-pointer input).
#[derive(Eq, Debug, PartialEq, Structural, Copy, Clone, Ord, PartialOrd, Hash)]
pub struct EventSource(pub u32, pub u32);

/// A discrete input event fed by the host once per frame batch.
#[derive(Debug, PartialEq, Eq, Structural, Copy, Clone)]
pub enum Event {
    /// The source moved to a new position, in global coordinates.
    PointerMove(EventSource, i64, i64),
    /// The source transitioned to pressed this frame.
    PointerDown(EventSource),
    /// The source transitioned to released this frame.
    PointerUp(EventSource),
}

/// The mathematical value of the event buffer.
#[verifier::ext_equal]
pub ghost struct EventDataV {
    /// Previous frame's positions, in insertion order, one entry per source.
    pub prev: Seq<(EventSource, Point)>,
    /// Current frame's positions, in insertion order, one entry per source.
    pub cur: Seq<(EventSource, Point)>,
    /// Sources that transitioned to pressed this frame.
    pub down: Set<EventSource>,
    /// Sources that transitioned to released this frame.
    pub up: Set<EventSource>,
    /// Accumulated coordinate translation, x component.
    pub off_x: int,
    /// Accumulated coordinate translation, y component.
    pub off_y: int,
    /// Clip masks, in push order, stored in global coordinates.
    pub masks: Seq<Rect>,
}

/// No two entries speak of the same source.
pub open spec fn src_unique(s: Seq<(EventSource, Point)>) -> bool {
    forall|i: int, j: int| 0 <= i < j < s.len() ==> s[i].0 != s[j].0
}

/// Every recorded position is within the event position limit.
pub open spec fn positions_bounded(s: Seq<(EventSource, Point)>) -> bool {
    forall|i: int| 0 <= i < s.len() ==> (#[trigger] s[i]).1.bounded(POS_LIMIT as int)
}

/// The position recorded for `src`: the first (and, with `src_unique`, the
/// only) entry that carries it.
pub open spec fn lookup(s: Seq<(EventSource, Point)>, src: EventSource) -> Option<Point>
    decreases s.len(),
{
    if s.len() == 0 {
        Option::None
    } else if s[0].0 == src {
        Option::Some(s[0].1)
    } else {
        lookup(s.drop_first(), src)
    }
}

/// `lookup` finds exactly the entries that exist; under `src_unique` it
/// yields the recorded position of any matching index.
pub proof fn lemma_lookup_index(s: Seq<(EventSource, Point)>, src: EventSource)
    ensures
        lookup(s, src) is Some <==> exists|i: int| 0 <= i < s.len() && s[i].0 == src,
        src_unique(s) ==> forall|i: int|
            0 <= i < s.len() && s[i].0 == src ==> lookup(s, src) == Option::Some(s[i].1),
    decreases s.len(),
{
    if s.len() > 0 {
        let t = s.drop_first();
        lemma_lookup_index(t, src);
        assert(forall|i: int| 0 <= i < t.len() ==> t[i] == s[i + 1]);
        if s[0].0 == src {
            assert(s[0].0 == src && 0 < s.len());
        } else {
            assert(lookup(s, src) == lookup(t, src));
            if lookup(s, src) is Some {
                let i = choose|i: int| 0 <= i < t.len() && t[i].0 == src;
                assert(s[i + 1].0 == src);
            }
            if exists|i: int| 0 <= i < s.len() && s[i].0 == src {
                let i = choose|i: int| 0 <= i < s.len() && s[i].0 == src;
                assert(i != 0);
                assert(t[i - 1].0 == src);
                assert(lookup(t, src) is Some);
            }
            if src_unique(s) {
                assert(src_unique(t));
                assert forall|i: int|
                    0 <= i < s.len() && s[i].0 == src implies lookup(s, src) == Option::Some(
                    s[i].1,
                ) by {
                    assert(i != 0);
                    assert(t[i - 1].0 == src);
                    assert(lookup(t, src) == Option::Some(t[i - 1].1));
                }
            }
        }
    }
}

/// Whether the (global) point lies inside every mask on the stack.
pub open spec fn in_all_masks(masks: Seq<Rect>, p: Point) -> bool {
    forall|i: int| 0 <= i < masks.len() ==> (#[trigger] masks[i]).spec_contains(p)
}

/// The point carried into the local coordinate space.  The casts are exact
/// whenever positions and offsets respect their limits.
pub open spec fn local_pt(p: Point, off_x: int, off_y: int) -> Point {
    Point { x: (p.x - off_x) as i64, y: (p.y - off_y) as i64 }
}

/// The current positions that are visible under the mask stack, in buffer
/// order, carried into local coordinates.
pub open spec fn visible_seq(
    cur: Seq<(EventSource, Point)>,
    masks: Seq<Rect>,
    off_x: int,
    off_y: int,
) -> Seq<(EventSource, Point)>
    decreases cur.len(),
{
    if cur.len() == 0 {
        Seq::empty()
    } else {
        let head = visible_seq(cur.drop_last(), masks, off_x, off_y);
        if in_all_masks(masks, cur.last().1) {
            head.push((cur.last().0, local_pt(cur.last().1, off_x, off_y)))
        } else {
            head
        }
    }
}

/// The visible position of one source, in local coordinates: nothing when the
/// source has no current position or its position lies outside some mask.
pub open spec fn visible_at(ed: EventDataV, src: EventSource) -> Option<Point> {
    match lookup(ed.cur, src) {
        Option::Some(p) => if in_all_masks(ed.masks, p) {
            Option::Some(local_pt(p, ed.off_x, ed.off_y))
        } else {
            Option::None
        },
        Option::None => Option::None,
    }
}

/// The per-frame displacement of one source, in the untranslated space:
/// defined only when the source has both a current and a previous position
/// and the previous position is visible under the current mask stack.
pub open spec fn movement_of(ed: EventDataV, src: EventSource) -> Option<(i64, i64)> {
    match (lookup(ed.cur, src), lookup(ed.prev, src)) {
        (Option::Some(p), Option::Some(q)) => if in_all_masks(ed.masks, q) {
            Option::Some((((p.x - q.x) as i64), ((p.y - q.y) as i64)))
        } else {
            Option::None
        },
        _ => Option::None,
    }
}

/// The buffer's positions after one move event is folded in: the entry for
/// the source is replaced if present, appended otherwise.
pub open spec fn upsert(s: Seq<(EventSource, Point)>, src: EventSource, p: Point) -> Seq<
    (EventSource, Point),
> {
    if exists|i: int| 0 <= i < s.len() && s[i].0 == src {
        s.update(choose|i: int| 0 <= i < s.len() && s[i].0 == src, (src, p))
    } else {
        s.push((src, p))
    }
}

/// What `upsert` does: the source's position is the new one, every other
/// source keeps its position, and uniqueness and bounds are preserved.
pub proof fn lemma_upsert(s: Seq<(EventSource, Point)>, src0: EventSource, p: Point)
    requires
        src_unique(s),
    ensures
        src_unique(upsert(s, src0, p)),
        lookup(upsert(s, src0, p), src0) == Option::Some(p),
        forall|src: EventSource|
            src != src0 ==> lookup(upsert(s, src0, p), src) == lookup(s, src),
        positions_bounded(s) && p.bounded(POS_LIMIT as int) ==> positions_bounded(
            upsert(s, src0, p),
        ),
{
    let v = upsert(s, src0, p);
    if exists|i: int| 0 <= i < s.len() && s[i].0 == src0 {
        let w = choose|i: int| 0 <= i < s.len() && s[i].0 == src0;
        assert(v == s.update(w, (src0, p)));
        assert(forall|k: int| 0 <= k < v.len() && k != w ==> v[k] == s[k]);
        assert forall|a: int, b: int| 0 <= a < b < v.len() implies v[a].0 != v[b].0 by {
            assert(s[a].0 != s[b].0);
        }
        assert(v[w].0 == src0 && v[w].1 == p);
        lemma_lookup_index(v, src0);
        assert forall|src: EventSource| src != src0 implies lookup(v, src) == lookup(
            s,
            src,
        ) by {
            lemma_lookup_index(v, src);
            lemma_lookup_index(s, src);
            if exists|i: int| 0 <= i < s.len() && s[i].0 == src {
                let i = choose|i: int| 0 <= i < s.len() && s[i].0 == src;
                assert(i != w);
                assert(v[i] == s[i]);
                assert(lookup(v, src) == Option::Some(v[i].1));
            } else {
                assert(forall|i: int| 0 <= i < v.len() ==> v[i].0 != src);
            }
        }
    } else {
        assert(v == s.push((src0, p)));
        assert(forall|k: int| 0 <= k < s.len() ==> v[k] == s[k]);
        assert forall|a: int, b: int| 0 <= a < b < v.len() implies v[a].0 != v[b].0 by {
            if b == s.len() {
                assert(s[a].0 != src0);
            } else {
                assert(s[a].0 != s[b].0);
            }
        }
        assert(v[s.len() as int].0 == src0);
        lemma_lookup_index(v, src0);
        assert forall|src: EventSource| src != src0 implies lookup(v, src) == lookup(
            s,
            src,
        ) by {
            lemma_lookup_index(v, src);
            lemma_lookup_index(s, src);
            if exists|i: int| 0 <= i < s.len() && s[i].0 == src {
                let i = choose|i: int| 0 <= i < s.len() && s[i].0 == src;
                assert(v[i] == s[i]);
                assert(lookup(v, src) == Option::Some(v[i].1));
            } else {
                assert(forall|i: int| 0 <= i < v.len() ==> v[i].0 != src);
            }
        }
    }
}

/// The buffer after one event is folded into the current frame.
pub open spec fn feed_one(ed: EventDataV, e: Event) -> EventDataV {
    match e {
        Event::PointerMove(s, x, y) => EventDataV {
            cur: upsert(ed.cur, s, Point { x, y }),
            ..ed
        },
        Event::PointerDown(s) => EventDataV { down: ed.down.insert(s), ..ed },
        Event::PointerUp(s) => EventDataV { up: ed.up.insert(s), ..ed },
    }
}

/// The buffer after a whole frame batch is folded in, front to back.
pub open spec fn feed_all(ed: EventDataV, events: Seq<Event>) -> EventDataV
    decreases events.len(),
{
    if events.len() == 0 {
        ed
    } else {
        feed_all(feed_one(ed, events.first()), events.drop_first())
    }
}

/// The buffer at a frame boundary: the current positions become the previous
/// snapshot, the frame-local sets empty, everything else stays.
pub open spec fn frame_begin(ed: EventDataV) -> EventDataV {
    EventDataV {
        prev: ed.cur,
        down: Set::empty(),
        up: Set::empty(),
        ..ed
    }
}

/// The event buffer's well-formedness: one entry per source per generation,
/// bounded positions, bounded offset.
pub open spec fn ed_wf(ed: EventDataV) -> bool {
    &&& src_unique(ed.cur)
    &&& src_unique(ed.prev)
    &&& positions_bounded(ed.cur)
    &&& positions_bounded(ed.prev)
    &&& -OFF_LIMIT <= ed.off_x <= OFF_LIMIT
    &&& -OFF_LIMIT <= ed.off_y <= OFF_LIMIT
}

/// The bound a move event must respect for the buffer to accept it.
pub open spec fn event_bounded(e: Event) -> bool {
    match e {
        Event::PointerMove(_, x, y) => -POS_LIMIT <= x <= POS_LIMIT && -POS_LIMIT <= y
            <= POS_LIMIT,
        _ => true,
    }
}

/// The per-frame event buffer.
pub struct EventData {
    prev_positions: Vec<(EventSource, Point)>,
    positions: Vec<(EventSource, Point)>,
    down: Vec<EventSource>,
    up: Vec<EventSource>,
    offset_x: i64,
    offset_y: i64,
    masks: Vec<Rect>,
}

impl View for EventData {
    type V = EventDataV;

    closed spec fn view(&self) -> EventDataV {
        EventDataV {
            prev: self.prev_positions@,
            cur: self.positions@,
            down: self.down@.to_set(),
            up: self.up@.to_set(),
            off_x: self.offset_x as int,
            off_y: self.offset_y as int,
            masks: self.masks@,
        }
    }
}

/// The index of the entry for `source`, which is unique when the list is.
fn find_src(list: &Vec<(EventSource, Point)>, source: &EventSource) -> (r: Option<usize>)
    ensures
        match r {
            Some(i) => i < list@.len() && list@[i as int].0 == *source && forall|j: int|
                0 <= j < i ==> list@[j].0 != *source,
            None => forall|j: int| 0 <= j < list@.len() ==> list@[j].0 != *source,
        },
{
    let mut i: usize = 0;
    let n = list.len();
    while i < n
        invariant
            n == list@.len(),
            i <= n,
            forall|j: int| 0 <= j < i ==> list@[j].0 != *source,
        decreases n - i,
    {
        if list[i].0 == *source {
            return Some(i);
        }
        i = i + 1;
    }
    None
}

/// The position recorded for `source` in one generation's list.
fn fetch_position(list: &Vec<(EventSource, Point)>, source: &EventSource) -> (r: Option<Point>)
    ensures
        r == lookup(list@, *source),
{
    proof {
        assert(list@.skip(0) =~= list@);
    }
    let mut i: usize = 0;
    while i < list.len()
        invariant
            i <= list@.len(),
            lookup(list@, *source) == lookup(list@.skip(i as int), *source),
        decreases list@.len() - i,
    {
        proof {
            assert(list@.skip(i as int).len() == list@.len() - i);
            assert(list@.skip(i as int)[0] == list@[i as int]);
            assert(list@.skip(i as int).drop_first() =~= list@.skip(i as int + 1));
        }
        if list[i].0 == *source {
            return Some(list[i].1);
        }
        i = i + 1;
    }
    proof {
        assert(list@.skip(list@.len() as int).len() == 0);
    }
    None
}

impl EventData {
    /// The buffer is well-formed.
    pub open spec fn wf(&self) -> bool {
        ed_wf(self@)
    }

    /// A fresh buffer: no positions, no transitions, no masks, zero offset.
    pub fn new() -> (r: EventData)
        ensures
            r.wf(),
            r@.prev == Seq::<(EventSource, Point)>::empty(),
            r@.cur == Seq::<(EventSource, Point)>::empty(),
            r@.down == Set::<EventSource>::empty(),
            r@.up == Set::<EventSource>::empty(),
            r@.off_x == 0,
            r@.off_y == 0,
            r@.masks == Seq::<Rect>::empty(),
    {
        let r = EventData {
            prev_positions: Vec::new(),
            positions: Vec::new(),
            down: Vec::new(),
            up: Vec::new(),
            offset_x: 0,
            offset_y: 0,
            masks: Vec::new(),
        };
        proof {
            assert(r@.down =~= Set::<EventSource>::empty());
            assert(r@.up =~= Set::<EventSource>::empty());
        }
        r
    }

    /// Starts a new frame: snapshots the current positions as the previous
    /// generation and clears the frame-local pressed/released sets.  Must run
    /// exactly once per frame, before any event of that frame is fed.
    pub fn begin_frame(&mut self)
        requires
            old(self).wf(),
        ensures
            final(self).wf(),
            final(self)@ == frame_begin(old(self)@),
    {
        let mut snapshot: Vec<(EventSource, Point)> = Vec::new();
        let mut i: usize = 0;
        while i < self.positions.len()
            invariant
                i <= self.positions@.len(),
                snapshot@ == self.positions@.take(i as int),
            decreases self.positions@.len() - i,
        {
            snapshot.push(self.positions[i]);
            proof {
                assert(self.positions@.take(i as int).push(self.positions@[i as int])
                    =~= self.positions@.take(i as int + 1));
            }
            i = i + 1;
        }
        proof {
            assert(self.positions@.take(self.positions@.len() as int) =~= self.positions@);
        }
        self.prev_positions = snapshot;
        self.down.clear();
        self.up.clear();
        proof {
            assert(self.down@.to_set() =~= Set::<EventSource>::empty());
            assert(self.up@.to_set() =~= Set::<EventSource>::empty());
        }
    }

    /// Folds one event into the current frame: a move upserts the source's
    /// position, a press or release adds the source to the frame-local set.
    pub fn feed(&mut self, event: Event)
        requires
            old(self).wf(),
            event_bounded(event),
        ensures
            final(self).wf(),
            final(self)@ == feed_one(old(self)@, event),
    {
        match event {
            Event::PointerMove(src, x, y) => {
                let p = Point { x, y };
                let ghost s0 = self.positions@;
                let found = find_src(&self.positions, &src);
                match found {
                    Some(i) => {
                        self.positions[i] = (src, p);
                        proof {
                            let v = self.positions@;
                            assert(v == s0.update(i as int, (src, p)));
                            let w = choose|k: int| 0 <= k < s0.len() && s0[k].0 == src;
                            assert(s0[w].0 == src);
                            if w > i as int {
                                assert(s0[i as int].0 != s0[w].0);
                            }
                            assert(w == i as int);
                            assert(upsert(s0, src, p) == v);
                            assert forall|a: int, b: int| 0 <= a < b < v.len() implies v[a].0
                                != v[b].0 by {
                                if a == i as int {
                                    assert(s0[a].0 != s0[b].0);
                                } else if b == i as int {
                                    assert(s0[a].0 != s0[b].0);
                                } else {
                                    assert(s0[a].0 != s0[b].0);
                                }
                            }
                            assert(positions_bounded(v)) by {
                                assert(forall|k: int|
                                    0 <= k < v.len() && k != i as int ==> v[k] == s0[k]);
                            }
                        }
                    },
                    None => {
                        self.positions.push((src, p));
                        proof {
                            let v = self.positions@;
                            assert(!(exists|k: int| 0 <= k < s0.len() && s0[k].0 == src));
                            assert(upsert(s0, src, p) == v);
                            assert forall|a: int, b: int| 0 <= a < b < v.len() implies v[a].0
                                != v[b].0 by {
                                if b == s0.len() {
                                    assert(v[a].0 == s0[a].0 && s0[a].0 != src);
                                } else {
                                    assert(s0[a].0 != s0[b].0);
                                }
                            }
                            assert(positions_bounded(v)) by {
                                assert(forall|k: int| 0 <= k < s0.len() ==> v[k] == s0[k]);
                            }
                        }
                    },
                }
            },
            Event::PointerDown(src) => {
                self.down.push(src);
                proof {
                    assert(self.down@.drop_last() =~= old(self).down@);
                    assert(self.down@.to_set() =~= old(self)@.down.insert(src)) by {
                        assert(forall|x: EventSource|
                            self.down@.contains(x) <==> (old(self).down@.contains(x) || x
                                == src)) by {
                            assert(forall|j: int|
                                0 <= j < old(self).down@.len() ==> self.down@[j] == old(
                                    self,
                                ).down@[j]);
                            assert(self.down@.last() == src);
                        }
                    }
                }
            },
            Event::PointerUp(src) => {
                self.up.push(src);
                proof {
                    assert(self.up@.to_set() =~= old(self)@.up.insert(src)) by {
                        assert(forall|x: EventSource|
                            self.up@.contains(x) <==> (old(self).up@.contains(x) || x == src)) by {
                            assert(forall|j: int|
                                0 <= j < old(self).up@.len() ==> self.up@[j] == old(self).up@[j]);
                            assert(self.up@.last() == src);
                        }
                    }
                }
            },
        }
    }

    /// The currently visible positions, in buffer order, in local
    /// coordinates: a restartable snapshot, not a single-use cursor.
    pub fn positions(&self) -> (r: Vec<(EventSource, Point)>)
        requires
            self.wf(),
        ensures
            r@ == visible_seq(self@.cur, self@.masks, self@.off_x, self@.off_y),
    {
        let mut out: Vec<(EventSource, Point)> = Vec::new();
        let mut i: usize = 0;
        let n = self.positions.len();
        while i < n
            invariant
                self.wf(),
                n == self@.cur.len(),
                i <= n,
                out@ == visible_seq(self@.cur.take(i as int), self@.masks, self@.off_x, self@.off_y),
            decreases n - i,
        {
            let (src, p) = self.positions[i];
            proof {
                assert(self@.cur.take(i as int + 1).drop_last() =~= self@.cur.take(i as int));
                assert(self@.cur.take(i as int + 1).last() == self@.cur[i as int]);
                assert(self@.cur[i as int].1.bounded(POS_LIMIT as int));
            }
            if self.is_in_mask(p) {
                out.push((src, Point { x: p.x - self.offset_x, y: p.y - self.offset_y }));
            }
            i = i + 1;
        }
        proof {
            assert(self@.cur.take(n as int) =~= self@.cur);
        }
        out
    }

    /// Whether the (global) point lies inside every mask on the stack.
    fn is_in_mask(&self, p: Point) -> (r: bool)
        ensures
            r == in_all_masks(self@.masks, p),
    {
        let mut i: usize = 0;
        let n = self.masks.len();
        while i < n
            invariant
                n == self@.masks.len(),
                i <= n,
                forall|j: int| 0 <= j < i ==> (#[trigger] self@.masks[j]).spec_contains(p),
            decreases n - i,
        {
            if !self.masks[i].contains(p) {
                return false;
            }
            i = i + 1;
        }
        true
    }

    /// Accumulates into the running translation.  Containers call it with the
    /// negative of their local origin on entry and the positive on exit.
    pub fn offset(&mut self, x: i64, y: i64)
        requires
            old(self).wf(),
            -OFF_LIMIT <= old(self)@.off_x + x <= OFF_LIMIT,
            -OFF_LIMIT <= old(self)@.off_y + y <= OFF_LIMIT,
        ensures
            final(self).wf(),
            final(self)@ == (EventDataV {
                off_x: old(self)@.off_x + x,
                off_y: old(self)@.off_y + y,
                ..old(self)@
            }),
    {
        self.offset_x = self.offset_x + x;
        self.offset_y = self.offset_y + y;
    }

    /// The accumulated coordinate translation as it stands.
    pub fn current_offset(&self) -> (r: (i64, i64))
        ensures
            r.0 == self@.off_x,
            r.1 == self@.off_y,
    {
        (self.offset_x, self.offset_y)
    }

    /// Pushes a clip mask, given in the current local space; it is translated
    /// by the accumulated offset so the stack lives in one global space.
    pub fn push_mask(&mut self, mask: Rect)
        requires
            old(self).wf(),
            mask.bounded(GEOM_LIMIT as int),
        ensures
            final(self).wf(),
            final(self)@ == (EventDataV {
                masks: old(self)@.masks.push(
                    mask.spec_translate(old(self)@.off_x, old(self)@.off_y),
                ),
                ..old(self)@
            }),
    {
        let m = mask.translate(self.offset_x, self.offset_y);
        self.masks.push(m);
    }

    /// Pops the innermost clip mask.  Calling it with no matching push is a
    /// programmer error, so a mask must be on the stack.
    pub fn pop_mask(&mut self)
        requires
            old(self).wf(),
            old(self)@.masks.len() > 0,
        ensures
            final(self).wf(),
            final(self)@ == (EventDataV { masks: old(self)@.masks.drop_last(), ..old(self)@ }),
    {
        let popped = self.masks.pop();
        proof {
            assert(popped is Some);
        }
    }

    /// The per-frame displacement of a source, in the untranslated space
    /// (deltas are offset-invariant).  Yields nothing unless the source has
    /// both a current and a previous position and the previous position is
    /// visible under the active masks, which guards a widget from computing a
    /// drag delta from a stale, never-visible previous position.
    pub fn pointer_movement(&self, source: &EventSource) -> (r: Option<(i64, i64)>)
        requires
            self.wf(),
        ensures
            r == movement_of(self@, *source),
            r matches Some(d) ==> -2 * POS_LIMIT <= d.0 <= 2 * POS_LIMIT && -2 * POS_LIMIT <= d.1
                <= 2 * POS_LIMIT,
    {
        let cur = fetch_position(&self.positions, source);
        let prev = fetch_position(&self.prev_positions, source);
        proof {
            lemma_lookup_index(self@.cur, *source);
            lemma_lookup_index(self@.prev, *source);
        }
        match (cur, prev) {
            (Some(p), Some(q)) => {
                if self.is_in_mask(q) {
                    proof {
                        let i = choose|i: int|
                            0 <= i < self@.cur.len() && self@.cur[i].0 == *source;
                        assert(self@.cur[i].1.bounded(POS_LIMIT as int));
                        let j = choose|j: int|
                            0 <= j < self@.prev.len() && self@.prev[j].0 == *source;
                        assert(self@.prev[j].1.bounded(POS_LIMIT as int));
                    }
                    Some((p.x - q.x, p.y - q.y))
                } else {
                    None
                }
            },
            _ => None,
        }
    }

    /// Whether the source transitioned to pressed this frame.
    pub fn went_down(&self, source: &EventSource) -> (r: bool)
        ensures
            r == self@.down.contains(*source),
    {
        let mut i: usize = 0;
        let n = self.down.len();
        while i < n
            invariant
                n == self.down@.len(),
                i <= n,
                forall|j: int| 0 <= j < i ==> self.down@[j] != *source,
            decreases n - i,
        {
            if self.down[i] == *source {
                return true;
            }
            i = i + 1;
        }
        false
    }

    /// Whether the source transitioned to released this frame.
    pub fn went_up(&self, source: &EventSource) -> (r: bool)
        ensures
            r == self@.up.contains(*source),
    {
        let mut i: usize = 0;
        let n = self.up.len();
        while i < n
            invariant
                n == self.up@.len(),
                i <= n,
                forall|j: int| 0 <= j < i ==> self.up@[j] != *source,
            decreases n - i,
        {
            if self.up[i] == *source {
                return true;
            }
            i = i + 1;
        }
        false
    }

    /// The source's current position in local coordinates, or nothing when
    /// the source has no position or its position is outside the masks.
    pub fn position_of(&self, source: &EventSource) -> (r: Option<Point>)
        requires
            self.wf(),
        ensures
            r == visible_at(self@, *source),
            r matches Some(p) ==> p.bounded(POS_LIMIT + OFF_LIMIT),
    {
        let found = fetch_position(&self.positions, source);
        match found {
            Some(p) => {
                if self.is_in_mask(p) {
                    proof {
                        lemma_lookup_index(self@.cur, *source);
                        let i = choose|i: int|
                            0 <= i < self@.cur.len() && self@.cur[i].0 == *source;
                        assert(self@.cur[i].1.bounded(POS_LIMIT as int));
                    }
                    Some(Point { x: p.x - self.offset_x, y: p.y - self.offset_y })
                } else {
                    None
                }
            },
            None => None,
        }
    }
}

/// Mask scoping: a pointer position outside any one mask on the stack is
/// invisible to nested content — a single lookup of that source yields
/// nothing, even if a nested widget's own rectangle would contain the
/// position in global coordinates.
pub proof fn lemma_mask_scoping(ed: EventDataV, src: EventSource, k: int)
    requires
        0 <= k < ed.masks.len(),
        lookup(ed.cur, src) is Some,
        !ed.masks[k].spec_contains(lookup(ed.cur, src)->Some_0),
    ensures
        visible_at(ed, src) is None,
{
    assert(!in_all_masks(ed.masks, lookup(ed.cur, src)->Some_0));
}

/// Mask scoping over the whole position snapshot: a source whose recorded
/// positions all fail some mask does not appear among the visible positions
/// at all.
pub proof fn lemma_visible_seq_excludes(
    cur: Seq<(EventSource, Point)>,
    masks: Seq<Rect>,
    off_x: int,
    off_y: int,
    src: EventSource,
)
    requires
        forall|j: int| 0 <= j < cur.len() && cur[j].0 == src ==> !in_all_masks(
            masks,
            (#[trigger] cur[j]).1,
        ),
    ensures
        forall|i: int|
            0 <= i < visible_seq(cur, masks, off_x, off_y).len() ==> (#[trigger] visible_seq(
                cur,
                masks,
                off_x,
                off_y,
            )[i]).0 != src,
    decreases cur.len(),
{
    if cur.len() > 0 {
        let head = cur.drop_last();
        assert(forall|j: int| 0 <= j < head.len() ==> head[j] == cur[j]);
        lemma_visible_seq_excludes(head, masks, off_x, off_y, src);
        let hv = visible_seq(head, masks, off_x, off_y);
        let v = visible_seq(cur, masks, off_x, off_y);
        if in_all_masks(masks, cur.last().1) {
            assert(cur[cur.len() - 1].0 != src);
            assert(v == hv.push((cur.last().0, local_pt(cur.last().1, off_x, off_y))));
            assert forall|i: int| 0 <= i < v.len() implies (#[trigger] v[i]).0 != src by {
                if i < hv.len() {
                    assert(v[i] == hv[i]);
                } else {
                    assert(v[i] == (cur.last().0, local_pt(cur.last().1, off_x, off_y)));
                }
            }
        } else {
            assert(v == hv);
        }
    }
}

} // verus!
