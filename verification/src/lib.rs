//! Interaction-state core of an immediate-mode UI toolkit.
//!
//! Given per-frame pointer input and widget geometry, the library determines
//! which widget is hovered (`hot`), which widget has captured interaction
//! (`active`), computes drag deltas, and scopes input to nested clipped
//! regions.  Widgets are stateless functions of this core plus geometry; the
//! only persistent state is keyed by a structural widget identity.

mod capture;
pub mod components;
mod events;
mod fraction;
mod geom;
mod id;
pub mod laws;
mod render;
mod state;

pub use capture::entries_unique;
pub use capture::table_view;
pub use capture::CaptureV;
pub use capture::ComponentState;
pub use events::ed_wf;
pub use events::event_bounded;
pub use events::feed_all;
pub use events::feed_one;
pub use events::frame_begin;
pub use events::in_all_masks;
pub use events::local_pt;
pub use events::lookup;
pub use events::movement_of;
pub use events::positions_bounded;
pub use events::src_unique;
pub use events::upsert;
pub use events::visible_at;
pub use events::visible_seq;
pub use events::Event;
pub use events::EventData;
pub use events::EventDataV;
pub use events::EventSource;
pub use fraction::Fraction;
pub use id::id_view;
pub use id::Id;
pub use id::IdV;
pub use geom::spec_clamp;
pub use geom::Point;
pub use geom::Rect;
pub use geom::GEOM_LIMIT;
pub use geom::OFF_LIMIT;
pub use geom::POS_LIMIT;
pub use render::NullRenderer;
pub use state::lemma_feed_all_snoc;
pub use state::UiState;
