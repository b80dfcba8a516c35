//! Tests of the interaction core: identity, capture tables, event buffer.

use tabula::ComponentState;
use tabula::Event;
use tabula::EventSource;
use tabula::Id;
use tabula::Point;
use tabula::Rect;
use tabula::UiState;

fn id_at(line: u32) -> Id {
    Id::new("core_state", line, 0, 0, 0, 0)
}

#[test]
fn id_equality_is_structural() {
    let a = Id::new("file", 3, 7, 1, 2, 3);
    let b = Id::new("file", 3, 7, 1, 2, 3);
    assert_eq!(a, b);
    let c = Id::new("file", 4, 7, 1, 2, 3);
    assert_ne!(a, c);
    let d = Id::new("other", 3, 7, 1, 2, 3);
    assert_ne!(a, d);
}

#[test]
fn id_parent_chain_distinguishes() {
    let child = Id::new("widget", 1, 1, 0, 0, 0);
    let p1 = Id::new("owner", 2, 2, 0, 0, 0);
    let p2 = Id::new("owner", 3, 2, 0, 0, 0);
    let under_p1 = child.clone().with_parent(p1.clone());
    let under_p2 = child.clone().with_parent(p2);
    assert_ne!(under_p1, under_p2);
    assert_ne!(under_p1, child);
    let again = child.clone().with_parent(p1);
    assert_eq!(under_p1, again);
}

#[test]
fn capture_overwrites_single_owner() {
    let mut cs = ComponentState::new();
    let id = id_at(1);
    let a = EventSource(1, 0);
    let b = EventSource(2, 0);
    assert!(!cs.is_active(&id));
    cs.make_active(&id, a);
    assert!(cs.is_active(&id));
    assert_eq!(cs.why_active(&id), vec![a]);
    cs.make_active(&id, b);
    // a later claim overwrites the reason: still exactly one owner
    assert_eq!(cs.why_active(&id), vec![b]);
    cs.remove_active(&id, a);
    // removing under the wrong source changes nothing
    assert_eq!(cs.why_active(&id), vec![b]);
    cs.remove_active(&id, b);
    assert!(!cs.is_active(&id));
    assert_eq!(cs.why_active(&id), Vec::<EventSource>::new());
}

#[test]
fn capture_tables_are_independent() {
    let mut cs = ComponentState::new();
    let id = id_at(2);
    let s = EventSource(1, 0);
    cs.make_hot(&id, s);
    assert!(cs.is_hot(&id));
    assert!(!cs.is_active(&id));
    assert_eq!(cs.why_hot(&id), vec![s]);
    cs.remove_all_hot(&id);
    assert!(!cs.is_hot(&id));
    cs.make_hot(&id, s);
    cs.remove_hot(&id, s);
    assert!(!cs.is_hot(&id));
}

#[test]
fn feed_keeps_last_move_per_source() {
    let mut ui = UiState::new();
    let s = EventSource(1, 0);
    ui.feed_events_for_frame(&vec![
        Event::PointerMove(s, 10, 20),
        Event::PointerMove(s, 30, 40),
    ]);
    assert_eq!(ui.event_data.position_of(&s), Some(Point { x: 30, y: 40 }));
}

#[test]
fn went_down_and_up_are_frame_local() {
    let mut ui = UiState::new();
    let s = EventSource(1, 0);
    ui.feed_events_for_frame(&vec![Event::PointerDown(s), Event::PointerDown(s)]);
    assert!(ui.event_data.went_down(&s));
    assert!(!ui.event_data.went_up(&s));
    ui.feed_events_for_frame(&vec![Event::PointerUp(s)]);
    assert!(!ui.event_data.went_down(&s));
    assert!(ui.event_data.went_up(&s));
    ui.feed_events_for_frame(&vec![]);
    assert!(!ui.event_data.went_up(&s));
}

#[test]
fn positions_persist_across_frames() {
    let mut ui = UiState::new();
    let s = EventSource(1, 0);
    ui.feed_events_for_frame(&vec![Event::PointerMove(s, 5, 6)]);
    ui.feed_events_for_frame(&vec![]);
    assert_eq!(ui.event_data.position_of(&s), Some(Point { x: 5, y: 6 }));
}

#[test]
fn pointer_movement_needs_both_generations() {
    let mut ui = UiState::new();
    let s = EventSource(1, 0);
    ui.feed_events_for_frame(&vec![Event::PointerMove(s, 10, 10)]);
    // no previous-frame position yet
    assert_eq!(ui.event_data.pointer_movement(&s), None);
    ui.feed_events_for_frame(&vec![Event::PointerMove(s, 13, 8)]);
    assert_eq!(ui.event_data.pointer_movement(&s), Some((3, -2)));
    ui.feed_events_for_frame(&vec![]);
    // both generations equal: zero displacement, still defined
    assert_eq!(ui.event_data.pointer_movement(&s), Some((0, 0)));
}

#[test]
fn pointer_movement_ignores_masked_previous_position() {
    let mut ui = UiState::new();
    let s = EventSource(1, 0);
    ui.feed_events_for_frame(&vec![Event::PointerMove(s, 100, 100)]);
    ui.feed_events_for_frame(&vec![Event::PointerMove(s, 105, 100)]);
    // previous position (100, 100) lies outside this mask
    ui.event_data.push_mask(Rect { x0: 0, y0: 0, x1: 50, y1: 50 });
    assert_eq!(ui.event_data.pointer_movement(&s), None);
    ui.event_data.pop_mask();
    assert_eq!(ui.event_data.pointer_movement(&s), Some((5, 0)));
}

#[test]
fn position_of_respects_masks_and_offset() {
    let mut ui = UiState::new();
    let s = EventSource(1, 0);
    ui.feed_events_for_frame(&vec![Event::PointerMove(s, 30, 30)]);
    ui.event_data.push_mask(Rect { x0: 20, y0: 20, x1: 50, y1: 50 });
    ui.event_data.offset(20, 20);
    // global (30, 30) is inside the mask and reported locally
    assert_eq!(ui.event_data.position_of(&s), Some(Point { x: 10, y: 10 }));
    ui.event_data.offset(-20, -20);
    ui.event_data.pop_mask();
    ui.event_data.push_mask(Rect { x0: 40, y0: 40, x1: 60, y1: 60 });
    assert_eq!(ui.event_data.position_of(&s), None);
    ui.event_data.pop_mask();
}

#[test]
fn positions_lists_only_visible_sources() {
    let mut ui = UiState::new();
    let a = EventSource(1, 0);
    let b = EventSource(2, 0);
    ui.feed_events_for_frame(&vec![
        Event::PointerMove(a, 10, 10),
        Event::PointerMove(b, 90, 90),
    ]);
    ui.event_data.push_mask(Rect { x0: 0, y0: 0, x1: 50, y1: 50 });
    let vis = ui.event_data.positions();
    assert_eq!(vis, vec![(a, Point { x: 10, y: 10 })]);
    ui.event_data.pop_mask();
    let all = ui.event_data.positions();
    assert_eq!(all.len(), 2);
    assert_eq!(all[0], (a, Point { x: 10, y: 10 }));
    assert_eq!(all[1], (b, Point { x: 90, y: 90 }));
}

#[test]
fn nested_masks_intersect() {
    let mut ui = UiState::new();
    let s = EventSource(1, 0);
    ui.feed_events_for_frame(&vec![Event::PointerMove(s, 25, 25)]);
    ui.event_data.push_mask(Rect { x0: 0, y0: 0, x1: 30, y1: 30 });
    ui.event_data.push_mask(Rect { x0: 20, y0: 20, x1: 60, y1: 60 });
    assert_eq!(ui.event_data.position_of(&s), Some(Point { x: 25, y: 25 }));
    ui.event_data.pop_mask();
    ui.event_data.push_mask(Rect { x0: 26, y0: 0, x1: 60, y1: 60 });
    assert_eq!(ui.event_data.position_of(&s), None);
    ui.event_data.pop_mask();
    ui.event_data.pop_mask();
}
