//! The container protocol: scoped input clipping and coordinate translation.
//!
//! A container pushes its rectangle as a clip mask and, when asked, shifts
//! the coordinate origin to its own top-left corner before running its nested
//! content, then restores both on every exit path — also when drawing or the
//! nested content fails.  Nested content sees only pointer positions inside
//! the mask, in the container's local coordinates.

use vstd::prelude::*;
use crate::events::EventDataV;
use crate::geom::Point;
use crate::geom::Rect;
use crate::geom::GEOM_LIMIT;
use crate::geom::OFF_LIMIT;
use crate::id::Id;
use crate::state::UiState;

verus! {

/// The rendering capability a container draws through, implemented by the
/// host's backend.
pub trait ContainerRender {
    /// The backend's failure kind.
    type Error;

    /// Draws the container once per frame, before its content resolves.
    fn draw_container(&mut self, id: &Id, rect: Rect, translate: Point) -> Result<
        (),
        Self::Error,
    >;
}

/// The event buffer as nested content sees it: the container's mask (already
/// carried into global space) pushed innermost and the offset advanced by the
/// container's translation.
pub open spec fn scoped_view(ed: EventDataV, mask: Rect, tx: int, ty: int) -> EventDataV {
    EventDataV { masks: ed.masks.push(mask), off_x: ed.off_x + tx, off_y: ed.off_y + ty, ..ed }
}

/// A container's nested content.  Its obligations, beyond keeping the state
/// well-formed, are balance — it leaves the mask stack and the offset as it
/// found them, which is what the lexical nesting of containers gives — and
/// its own `body_post`, the implementor's description of what one run does,
/// through which `with_container` reports that the content really ran
/// against the scoped state.
pub trait ContainerBody<B, R, E>: Sized {
    /// What one run of this body does: how it carries the state, the backend
    /// and itself from entry to exit, and what it returns.
    spec fn body_post(
        pre: Self,
        post: Self,
        state_pre: UiState,
        state_post: UiState,
        backend_pre: B,
        backend_post: B,
        r: Result<R, E>,
    ) -> bool;

    /// Resolves the nested widgets against the scoped state.
    fn run(&mut self, state: &mut UiState, backend: &mut B) -> (r: Result<R, E>)
        requires
            old(state).wf(),
        ensures
            final(state).wf(),
            final(state).event_data@.masks == old(state).event_data@.masks,
            final(state).event_data@.off_x == old(state).event_data@.off_x,
            final(state).event_data@.off_y == old(state).event_data@.off_y,
            Self::body_post(
                *old(self),
                *final(self),
                *old(state),
                *final(state),
                *old(backend),
                *final(backend),
                r,
            ),
    ;
}

/// Nested content that resolves no widgets, for a container used purely to
/// scope input.
pub struct EmptyContent;

impl<B, E> ContainerBody<B, (), E> for EmptyContent {
    open spec fn body_post(
        pre: Self,
        post: Self,
        state_pre: UiState,
        state_post: UiState,
        backend_pre: B,
        backend_post: B,
        r: Result<(), E>,
    ) -> bool {
        state_post == state_pre && backend_post == backend_pre && r is Ok
    }

    fn run(&mut self, state: &mut UiState, backend: &mut B) -> (r: Result<(), E>) {
        Ok(())
    }
}

/// Runs nested content with input scoped to `rect`: pushes the clip mask
/// and, when `reset_coords` is set, moves the coordinate origin to the
/// rectangle's top-left corner; draws the container once; restores mask and
/// offset exactly on every exit path, drawing or content failure included.
///
/// The contract reports the scoping: either the drawing call failed, its
/// error came back and nothing else happened, or the body ran exactly once —
/// witnessed by its own `body_post` — against a state whose event buffer was
/// the caller's with the translated mask pushed innermost and the offset
/// advanced, and the body's result came back.
pub fn with_container<B: ContainerRender, R, Body: ContainerBody<B, R, B::Error>>(
    state: &mut UiState,
    backend: &mut B,
    id: Id,
    rect: Rect,
    reset_coords: bool,
    body: &mut Body,
) -> (r: Result<R, B::Error>)
    requires
        old(state).wf(),
        rect.bounded(GEOM_LIMIT as int),
        reset_coords ==> -OFF_LIMIT <= old(state).event_data@.off_x + rect.x0 <= OFF_LIMIT
            && -OFF_LIMIT <= old(state).event_data@.off_y + rect.y0 <= OFF_LIMIT,
    ensures
        final(state).wf(),
        final(state).event_data@.masks == old(state).event_data@.masks,
        final(state).event_data@.off_x == old(state).event_data@.off_x,
        final(state).event_data@.off_y == old(state).event_data@.off_y,
        ({
            let m = rect.spec_translate(old(state).event_data@.off_x, old(state).event_data@.off_y);
            let tx: int = if reset_coords {
                rect.x0 as int
            } else {
                0
            };
            let ty: int = if reset_coords {
                rect.y0 as int
            } else {
                0
            };
            ||| (exists|entry: UiState, exit: UiState, backend_entry: B|
                {
                    &&& entry.component_state == old(state).component_state
                    &&& entry.event_data@ == scoped_view(old(state).event_data@, m, tx, ty)
                    &&& exit.component_state == final(state).component_state
                    &&& exit.event_data@ == scoped_view(final(state).event_data@, m, tx, ty)
                    &&& #[trigger] Body::body_post(
                        *old(body),
                        *final(body),
                        entry,
                        exit,
                        backend_entry,
                        *final(backend),
                        r,
                    )
                })
            ||| (r is Err && *final(body) == *old(body) && final(state).component_state == old(
                state,
            ).component_state && final(state).event_data@ == old(state).event_data@)
        }),
{
    let trans_x: i64 = if reset_coords {
        rect.x0
    } else {
        0
    };
    let trans_y: i64 = if reset_coords {
        rect.y0
    } else {
        0
    };
    let ghost masks0 = state.event_data@.masks;
    state.event_data.push_mask(rect);
    state.event_data.offset(trans_x, trans_y);
    let ghost entry_snapshot = *state;
    match backend.draw_container(&id, rect, Point { x: trans_x, y: trans_y }) {
        Err(e) => {
            state.event_data.offset(-trans_x, -trans_y);
            state.event_data.pop_mask();
            proof {
                assert(state.event_data@.masks =~= masks0);
                assert(state.event_data@ =~= old(state).event_data@);
            }
            Err(e)
        },
        Ok(()) => {
            let ghost backend_entry = *backend;
            let r = body.run(state, backend);
            let ghost exit_snapshot = *state;
            state.event_data.offset(-trans_x, -trans_y);
            state.event_data.pop_mask();
            proof {
                let m = rect.spec_translate(
                    old(state).event_data@.off_x,
                    old(state).event_data@.off_y,
                );
                let tx: int = if reset_coords {
                    rect.x0 as int
                } else {
                    0
                };
                let ty: int = if reset_coords {
                    rect.y0 as int
                } else {
                    0
                };
                assert(state.event_data@.masks =~= masks0);
                assert(entry_snapshot.event_data@ =~= scoped_view(
                    old(state).event_data@,
                    m,
                    tx,
                    ty,
                ));
                assert(exit_snapshot.event_data@ =~= scoped_view(state.event_data@, m, tx, ty));
                assert(Body::body_post(
                    *old(body),
                    *body,
                    entry_snapshot,
                    exit_snapshot,
                    backend_entry,
                    *backend,
                    r,
                ));
            }
            r
        },
    }
}

} // verus!
