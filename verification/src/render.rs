//! The discarding rendering backend.

use vstd::prelude::*;
use crate::components::button::ButtonRender;
use crate::components::drag_region::DragAction;
use crate::components::drag_region::DragRegionRender;
use crate::components::slider::SliderRender;
use crate::fraction::Fraction;
use crate::geom::Rect;
use crate::id::Id;

verus! {

/// A rendering backend that draws nothing and never fails, used when one
/// widget protocol composes another without letting the inner one draw.
pub struct NullRenderer;

impl ButtonRender for NullRenderer {
    type Error = ();

    fn draw_button(
        &mut self,
        _id: &Id,
        _rect: Rect,
        _label: &str,
        _hovered: bool,
        _pressed: bool,
    ) -> (r: Result<(), ()>)
        ensures
            r is Ok,
    {
        Ok(())
    }
}

impl SliderRender for NullRenderer {
    type Error = ();

    fn draw_slider(&mut self, _id: Id, _rect: Rect, _covering: Fraction) -> (r: Result<(), ()>)
        ensures
            r is Ok,
    {
        Ok(())
    }
}

impl DragRegionRender for NullRenderer {
    type Error = ();

    fn draw_drag_region(&mut self, _id: &Id, _rect: Rect, _action: DragAction) -> (r: Result<
        (),
        (),
    >)
        ensures
            r is Ok,
    {
        Ok(())
    }
}

} // verus!
