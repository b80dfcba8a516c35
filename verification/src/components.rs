//! The widget protocols: stateless algorithms over the interaction core.

pub mod button;
pub mod container;
pub mod drag_region;
pub mod scrollbar;
pub mod slider;

pub use button::button;
pub use button::button_step;
pub use button::button_result;
pub use button::last_inside;
pub use button::last_press;
pub use button::lemma_button_hot_iff;
pub use button::lemma_last_inside_exists;
pub use button::ButtonOutcome;
pub use button::ButtonRender;
pub use container::scoped_view;
pub use container::with_container;
pub use container::ContainerBody;
pub use container::EmptyContent;
pub use container::ContainerRender;
pub use drag_region::drag_region;
pub use drag_region::drag_region_step;
pub use drag_region::drag_result;
pub use drag_region::first_press_from;
pub use drag_region::DragAction;
pub use drag_region::DragOutcome;
pub use drag_region::DragRegionRender;
pub use scrollbar::scrollbar;
pub use scrollbar::scrollbar_h;
pub use scrollbar::scrollbar_result;
pub use scrollbar::scrollbar_step;
pub use scrollbar::scrollbar_v;
pub use scrollbar::scroll_of_offset;
pub use scrollbar::thumb_id_of;
pub use scrollbar::thumb_offset;
pub use scrollbar::thumb_size;
pub use scrollbar::lemma_scroll_round_trip;
pub use scrollbar::lemma_scrollbar_idempotent;
pub use scrollbar::lemma_scrollbar_round_trip;
pub use scrollbar::lemma_scroll_of_offset_monotone;
pub use scrollbar::lemma_thumb_projection_idempotent;
pub use scrollbar::Axis;
pub use scrollbar::ScrollbarRender;
pub use scrollbar::ScrollOutcome;
pub use scrollbar::SIZE_LIMIT;
pub use slider::slider;
pub use slider::slider_step;
pub use slider::slider_result;
pub use slider::SliderOutcome;
pub use slider::SliderRender;
