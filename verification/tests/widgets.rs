//! Tests of the widget protocols: button, slider, drag region, scrollbar,
//! container.

use tabula::components::button;
use tabula::components::drag_region;
use tabula::components::scrollbar_v;
use tabula::components::slider;
use tabula::components::with_container;
use tabula::components::ButtonRender;
use tabula::components::ContainerBody;
use tabula::components::ContainerRender;
use tabula::components::DragAction;
use tabula::components::DragRegionRender;
use tabula::components::ScrollbarRender;
use tabula::components::SliderRender;
use tabula::Event;
use tabula::EventSource;
use tabula::Fraction;
use tabula::Id;
use tabula::NullRenderer;
use tabula::Point;
use tabula::Rect;
use tabula::UiState;

struct Recorder {
    draws: usize,
}

impl ButtonRender for Recorder {
    type Error = ();

    fn draw_button(
        &mut self,
        _id: &Id,
        _rect: Rect,
        _label: &str,
        _hovered: bool,
        _pressed: bool,
    ) -> Result<(), ()> {
        self.draws += 1;
        Ok(())
    }
}

impl SliderRender for Recorder {
    type Error = ();

    fn draw_slider(&mut self, _id: Id, _rect: Rect, _covering: Fraction) -> Result<(), ()> {
        self.draws += 1;
        Ok(())
    }
}

impl ScrollbarRender for Recorder {
    type Error = ();

    fn draw_scrollbar(
        &mut self,
        _id: &Id,
        _entire_rect: Rect,
        _drag_rect: Rect,
        _over: bool,
        _down: bool,
    ) -> Result<(), ()> {
        self.draws += 1;
        Ok(())
    }
}

impl ContainerRender for Recorder {
    type Error = ();

    fn draw_container(&mut self, _id: &Id, _rect: Rect, _translate: Point) -> Result<(), ()> {
        self.draws += 1;
        Ok(())
    }
}

struct FailingBackend;

impl ButtonRender for FailingBackend {
    type Error = &'static str;

    fn draw_button(
        &mut self,
        _id: &Id,
        _rect: Rect,
        _label: &str,
        _hovered: bool,
        _pressed: bool,
    ) -> Result<(), &'static str> {
        Err("draw failed")
    }
}

fn rect(x0: i64, y0: i64, x1: i64, y1: i64) -> Rect {
    Rect { x0, y0, x1, y1 }
}

fn wid(n: u32) -> Id {
    Id::new("widgets", n, 0, 0, 0, 0)
}

#[test]
fn button_fires_exactly_once_per_cycle() {
    let mut ui = UiState::new();
    let mut backend = Recorder { draws: 0 };
    let s = EventSource(1, 0);
    let r = rect(0, 0, 10, 10);
    let id = wid(1);

    ui.feed_events_for_frame(&vec![Event::PointerMove(s, 5, 5), Event::PointerDown(s)]);
    let fired = button(&mut ui, &mut backend, id.clone(), r, "ok").unwrap();
    assert!(!fired);
    assert!(ui.component_state.is_hot(&id));
    assert!(ui.component_state.is_active(&id));

    ui.feed_events_for_frame(&vec![Event::PointerUp(s)]);
    let fired = button(&mut ui, &mut backend, id.clone(), r, "ok").unwrap();
    assert!(fired);
    assert!(!ui.component_state.is_active(&id));

    ui.feed_events_for_frame(&vec![]);
    let fired = button(&mut ui, &mut backend, id.clone(), r, "ok").unwrap();
    assert!(!fired);
    assert_eq!(backend.draws, 3);
}

#[test]
fn button_release_off_widget_still_fires() {
    let mut ui = UiState::new();
    let mut backend = Recorder { draws: 0 };
    let s = EventSource(1, 0);
    let r = rect(0, 0, 10, 10);
    let id = wid(2);

    ui.feed_events_for_frame(&vec![Event::PointerMove(s, 5, 5), Event::PointerDown(s)]);
    assert!(!button(&mut ui, &mut backend, id.clone(), r, "ok").unwrap());

    // the pointer leaves the rectangle, then releases
    ui.feed_events_for_frame(&vec![Event::PointerMove(s, 50, 50), Event::PointerUp(s)]);
    let fired = button(&mut ui, &mut backend, id.clone(), r, "ok").unwrap();
    assert!(fired);
    assert!(!ui.component_state.is_active(&id));
    assert!(!ui.component_state.is_hot(&id));
}

#[test]
fn button_hover_tracks_visible_positions_each_frame() {
    let mut ui = UiState::new();
    let mut backend = Recorder { draws: 0 };
    let a = EventSource(1, 0);
    let b = EventSource(2, 0);
    let r = rect(0, 0, 10, 10);
    let id = wid(3);

    ui.feed_events_for_frame(&vec![
        Event::PointerMove(a, 1, 1),
        Event::PointerMove(b, 9, 9),
    ]);
    button(&mut ui, &mut backend, id.clone(), r, "ok").unwrap();
    assert!(ui.component_state.is_hot(&id));

    // one pointer leaves: the other keeps the button hot
    ui.feed_events_for_frame(&vec![Event::PointerMove(a, 90, 90)]);
    button(&mut ui, &mut backend, id.clone(), r, "ok").unwrap();
    assert!(ui.component_state.is_hot(&id));

    // both outside: hover is gone the very next frame
    ui.feed_events_for_frame(&vec![Event::PointerMove(b, 90, 0)]);
    button(&mut ui, &mut backend, id.clone(), r, "ok").unwrap();
    assert!(!ui.component_state.is_hot(&id));
}

#[test]
fn button_draw_failure_propagates_after_state_change() {
    let mut ui = UiState::new();
    let mut backend = FailingBackend;
    let s = EventSource(1, 0);
    let r = rect(0, 0, 10, 10);
    let id = wid(4);

    ui.feed_events_for_frame(&vec![Event::PointerMove(s, 5, 5)]);
    let res = button(&mut ui, &mut backend, id.clone(), r, "ok");
    assert_eq!(res, Err("draw failed"));
    // hover reflects input truth already consumed this frame
    assert!(ui.component_state.is_hot(&id));
}

#[test]
fn slider_maps_position_linearly_and_clamps() {
    let mut ui = UiState::new();
    let mut backend = Recorder { draws: 0 };
    let s = EventSource(1, 0);
    let r = rect(0, 0, 100, 20);
    let id = wid(5);
    let mut covering = Fraction { num: 0, den: 1 };

    // press and hold at x = 25: covering is exactly 25 / 100
    ui.feed_events_for_frame(&vec![Event::PointerMove(s, 25, 10), Event::PointerDown(s)]);
    let moved = slider(&mut ui, &mut backend, id.clone(), r, &mut covering).unwrap();
    assert!(moved);
    assert_eq!((covering.num, covering.den), (25, 100));

    // dragging past the right edge clamps the covering to one
    ui.feed_events_for_frame(&vec![Event::PointerMove(s, 150, 10)]);
    let moved = slider(&mut ui, &mut backend, id.clone(), r, &mut covering).unwrap();
    assert!(moved);
    assert_eq!((covering.num, covering.den), (100, 100));

    // release clears capture but keeps the value
    ui.feed_events_for_frame(&vec![Event::PointerUp(s)]);
    let moved = slider(&mut ui, &mut backend, id.clone(), r, &mut covering).unwrap();
    assert!(!moved);
    assert_eq!((covering.num, covering.den), (100, 100));
    assert!(!ui.component_state.is_active(&id));
}

#[test]
fn slider_clamps_left_of_rectangle_to_zero() {
    let mut ui = UiState::new();
    let mut backend = Recorder { draws: 0 };
    let s = EventSource(1, 0);
    let r = rect(40, 0, 140, 20);
    let id = wid(6);
    let mut covering = Fraction { num: 7, den: 10 };

    ui.feed_events_for_frame(&vec![Event::PointerMove(s, 50, 10), Event::PointerDown(s)]);
    assert!(slider(&mut ui, &mut backend, id.clone(), r, &mut covering).unwrap());
    assert_eq!((covering.num, covering.den), (10, 100));

    ui.feed_events_for_frame(&vec![Event::PointerMove(s, 0, 10)]);
    assert!(slider(&mut ui, &mut backend, id.clone(), r, &mut covering).unwrap());
    assert_eq!((covering.num, covering.den), (0, 100));
}

#[test]
fn drag_region_round_trip_and_exclusive_capture() {
    let mut ui = UiState::new();
    let mut nr = NullRenderer;
    let a = EventSource(1, 0);
    let b = EventSource(2, 0);
    let id = wid(7);
    let mut r = rect(0, 0, 10, 10);

    // a fresh press inside picks the region up
    ui.feed_events_for_frame(&vec![Event::PointerMove(a, 5, 5), Event::PointerDown(a)]);
    assert_eq!(drag_region(&mut ui, &mut nr, id.clone(), &mut r), Ok(DragAction::PickedUp));
    assert_eq!(ui.component_state.why_active(&id), vec![a]);

    // a second pointer pressing inside while captured has no effect
    ui.feed_events_for_frame(&vec![Event::PointerMove(b, 6, 6), Event::PointerDown(b)]);
    assert_eq!(drag_region(&mut ui, &mut nr, id.clone(), &mut r), Ok(DragAction::Holding));
    assert_eq!(ui.component_state.why_active(&id), vec![a]);
    assert_eq!(r, rect(0, 0, 10, 10));

    // two moves translate the rectangle by the sum of the deltas
    ui.feed_events_for_frame(&vec![Event::PointerMove(a, 8, 9)]);
    assert_eq!(drag_region(&mut ui, &mut nr, id.clone(), &mut r), Ok(DragAction::Holding));
    assert_eq!(r, rect(3, 4, 13, 14));
    ui.feed_events_for_frame(&vec![Event::PointerMove(a, 7, 11)]);
    assert_eq!(drag_region(&mut ui, &mut nr, id.clone(), &mut r), Ok(DragAction::Holding));
    assert_eq!(r, rect(2, 6, 12, 16));

    // the owner's release yields exactly one drop and clears capture
    ui.feed_events_for_frame(&vec![Event::PointerUp(a)]);
    assert_eq!(drag_region(&mut ui, &mut nr, id.clone(), &mut r), Ok(DragAction::Dropped));
    assert!(!ui.component_state.is_active(&id));
    ui.feed_events_for_frame(&vec![]);
    assert_eq!(drag_region(&mut ui, &mut nr, id.clone(), &mut r), Ok(DragAction::Idle));
    assert_eq!(r, rect(2, 6, 12, 16));
}

#[test]
fn drag_region_keeps_capture_outside_rectangle() {
    let mut ui = UiState::new();
    let mut nr = NullRenderer;
    let a = EventSource(1, 0);
    let id = wid(8);
    let mut r = rect(0, 0, 10, 10);

    ui.feed_events_for_frame(&vec![Event::PointerMove(a, 5, 5), Event::PointerDown(a)]);
    assert_eq!(drag_region(&mut ui, &mut nr, id.clone(), &mut r), Ok(DragAction::PickedUp));

    // dragging far outside the original rectangle keeps the capture
    ui.feed_events_for_frame(&vec![Event::PointerMove(a, 500, 500)]);
    assert_eq!(drag_region(&mut ui, &mut nr, id.clone(), &mut r), Ok(DragAction::Holding));
    assert_eq!(r, rect(495, 495, 505, 505));
    assert_eq!(ui.component_state.why_active(&id), vec![a]);
}

#[test]
fn scrollbar_round_trip_reproduces_divisible_positions() {
    let mut backend = Recorder { draws: 0 };
    let track = rect(0, 0, 10, 100);
    for start in [0i64, 10, 250, 500, 900] {
        let mut ui = UiState::new();
        let mut scroll = start;
        let res = scrollbar_v(&mut ui, &mut backend, wid(9), track, 100, 1000, &mut scroll);
        assert_eq!(res, Ok(false));
        assert_eq!(scroll, start);
    }
}

#[test]
fn scrollbar_projection_is_idempotent() {
    let mut ui = UiState::new();
    let mut backend = Recorder { draws: 0 };
    let track = rect(0, 0, 10, 100);
    // 25 does not project evenly onto a 100-unit track of 1000 content units:
    // the first pass quantizes it
    let mut scroll = 25i64;
    scrollbar_v(&mut ui, &mut backend, wid(10), track, 100, 1000, &mut scroll).unwrap();
    assert_eq!(scroll, 20);
    // feeding the output back reproduces it exactly
    scrollbar_v(&mut ui, &mut backend, wid(10), track, 100, 1000, &mut scroll).unwrap();
    assert_eq!(scroll, 20);
}

#[test]
fn scrollbar_thumb_drag_moves_scroll_position() {
    let mut ui = UiState::new();
    let mut backend = Recorder { draws: 0 };
    let s = EventSource(1, 0);
    let track = Rect::xywh(0, 0, 10, 100);
    let id = wid(11);
    let mut scroll = 0i64;

    // press inside the thumb (it covers the top tenth of the track)
    ui.feed_events_for_frame(&vec![Event::PointerMove(s, 5, 5), Event::PointerDown(s)]);
    scrollbar_v(&mut ui, &mut backend, id.clone(), track, 100, 1000, &mut scroll).unwrap();
    assert_eq!(scroll, 0);

    // drag down by ten track units: a tenth of the track, a tenth of content
    ui.feed_events_for_frame(&vec![Event::PointerMove(s, 5, 15)]);
    scrollbar_v(&mut ui, &mut backend, id.clone(), track, 100, 1000, &mut scroll).unwrap();
    assert_eq!(scroll, 100);

    // release: the thumb stays put
    ui.feed_events_for_frame(&vec![Event::PointerUp(s)]);
    scrollbar_v(&mut ui, &mut backend, id.clone(), track, 100, 1000, &mut scroll).unwrap();
    assert_eq!(scroll, 100);
}

#[test]
fn scrollbar_clamps_thumb_to_dead_zone() {
    let mut ui = UiState::new();
    let mut backend = Recorder { draws: 0 };
    let s = EventSource(1, 0);
    let track = rect(0, 0, 10, 100);
    let id = wid(12);
    let mut scroll = 0i64;

    ui.feed_events_for_frame(&vec![Event::PointerMove(s, 5, 5), Event::PointerDown(s)]);
    scrollbar_v(&mut ui, &mut backend, id.clone(), track, 100, 1000, &mut scroll).unwrap();

    // drag far past the bottom: the thumb stops at track minus dead zone
    ui.feed_events_for_frame(&vec![Event::PointerMove(s, 5, 500)]);
    scrollbar_v(&mut ui, &mut backend, id.clone(), track, 100, 1000, &mut scroll).unwrap();
    assert_eq!(scroll, 900);
}

struct NestedButtonProbe {
    source: EventSource,
    nested_rect: Rect,
    nested_id: Id,
    seen_position: Option<Point>,
    nested_hot: bool,
}

impl ContainerBody<Recorder, (), ()> for NestedButtonProbe {
    fn body_post(
        _: Self,
        _: Self,
        _: UiState,
        _: UiState,
        _: Recorder,
        _: Recorder,
        _: Result<(), ()>,
    ) -> bool {
        true
    }

    fn run(&mut self, state: &mut UiState, backend: &mut Recorder) -> Result<(), ()> {
        self.seen_position = state.event_data.position_of(&self.source);
        button(state, backend, self.nested_id.clone(), self.nested_rect, "inner")?;
        self.nested_hot = state.component_state.is_hot(&self.nested_id);
        Ok(())
    }
}

#[test]
fn container_mask_hides_outside_positions_from_nested_widgets() {
    let mut ui = UiState::new();
    let mut backend = Recorder { draws: 0 };
    let s = EventSource(1, 0);
    // the pointer sits inside the nested widget's rectangle in global
    // coordinates, but outside the container
    ui.feed_events_for_frame(&vec![Event::PointerMove(s, 60, 10)]);
    let mut probe = NestedButtonProbe {
        source: s,
        nested_rect: rect(55, 5, 70, 20),
        nested_id: wid(13),
        seen_position: None,
        nested_hot: true,
    };
    let outer = rect(0, 0, 50, 50);
    with_container(&mut ui, &mut backend, wid(14), outer, false, &mut probe).unwrap();
    assert_eq!(probe.seen_position, None);
    assert!(!probe.nested_hot);
    // outside the container the position is visible again
    assert_eq!(ui.event_data.position_of(&s), Some(Point { x: 60, y: 10 }));
}

#[test]
fn container_offset_reports_local_coordinates() {
    let mut ui = UiState::new();
    let mut backend = Recorder { draws: 0 };
    let s = EventSource(1, 0);
    ui.feed_events_for_frame(&vec![Event::PointerMove(s, 30, 30)]);
    let mut probe = NestedButtonProbe {
        source: s,
        nested_rect: rect(5, 5, 15, 15),
        nested_id: wid(15),
        seen_position: None,
        nested_hot: false,
    };
    let outer = rect(20, 20, 50, 50);
    with_container(&mut ui, &mut backend, wid(16), outer, true, &mut probe).unwrap();
    assert_eq!(probe.seen_position, Some(Point { x: 10, y: 10 }));
    assert!(probe.nested_hot);
    // mask and offset are restored on exit
    assert_eq!(ui.event_data.position_of(&s), Some(Point { x: 30, y: 30 }));
}

struct FailingBody;

impl ContainerBody<Recorder, u32, ()> for FailingBody {
    fn body_post(
        _: Self,
        _: Self,
        _: UiState,
        _: UiState,
        _: Recorder,
        _: Recorder,
        _: Result<u32, ()>,
    ) -> bool {
        true
    }

    fn run(&mut self, _state: &mut UiState, _backend: &mut Recorder) -> Result<u32, ()> {
        Err(())
    }
}

#[test]
fn container_unwinds_on_nested_failure() {
    let mut ui = UiState::new();
    let mut backend = Recorder { draws: 0 };
    let s = EventSource(1, 0);
    ui.feed_events_for_frame(&vec![Event::PointerMove(s, 5, 5)]);
    let mut body = FailingBody;
    let res = with_container(&mut ui, &mut backend, wid(17), rect(0, 0, 2, 2), false, &mut body);
    assert_eq!(res, Err(()));
    // the mask is popped and the offset restored even on the failure path
    assert_eq!(ui.event_data.position_of(&s), Some(Point { x: 5, y: 5 }));
}

#[test]
fn scrollbar_works_at_its_size_limit() {
    let lim = 0x4000_0000i64;
    let mut ui = UiState::new();
    let mut backend = Recorder { draws: 0 };
    let track = rect(0, 0, 10, lim);
    // scroll position at the very end of the content: the thumb covers a
    // quarter of the track, so the offset clamps to three quarters of it
    let mut scroll = lim;
    scrollbar_v(&mut ui, &mut backend, wid(18), track, lim / 4, lim, &mut scroll).unwrap();
    assert_eq!(scroll, 0x3000_0000);
}

#[test]
fn container_with_empty_content_scopes_and_restores() {
    let mut ui = UiState::new();
    let mut backend = Recorder { draws: 0 };
    let s = EventSource(1, 0);
    ui.feed_events_for_frame(&vec![Event::PointerMove(s, 5, 5)]);
    let mut body = tabula::components::EmptyContent;
    let res: Result<(), ()> =
        with_container(&mut ui, &mut backend, wid(19), rect(0, 0, 2, 2), true, &mut body);
    assert_eq!(res, Ok(()));
    assert_eq!(backend.draws, 1);
    assert_eq!(ui.event_data.position_of(&s), Some(Point { x: 5, y: 5 }));
}
