use crate::event::Event;
use crate::surface::Surface;
use crate::surface::SurfaceView;
use vstd::prelude::*;

verus! {

/// The measurable-and-renderable capability.
///
/// A drawable widget reports a preferred size and renders itself onto a
/// drawing surface at a given position. The `width` and `height` arguments of
/// `draw_at` tell the widget how much room its caller has set aside, but they
/// are advisory: a widget is not required to clip to them, and the surface
/// itself discards writes outside its grid.
///
/// An implementation overrides the three model functions along with the
/// operations; one that keeps their defaults models a widget of size zero
/// whose draw pass leaves the surface untouched.
pub trait Drawable: Sized {
    /// The widget's preferred width in columns.
    open spec fn spec_width(&self) -> nat {
        0
    }

    /// The widget's preferred height in rows.
    open spec fn spec_height(&self) -> nat {
        0
    }

    /// Functional model of `draw_at`: the surface left behind when the widget
    /// draws itself on `s` with its top-left corner at `(x, y)`, given the
    /// advisory space `width` by `height`.
    open spec fn spec_draw(
        &self,
        s: SurfaceView,
        x: usize,
        y: usize,
        width: usize,
        height: usize,
    ) -> SurfaceView {
        s
    }

    /// The widget's preferred width in columns.
    fn width(&self) -> (w: usize)
        ensures
            w as nat == self.spec_width(),
    ;

    /// The widget's preferred height in rows.
    fn height(&self) -> (h: usize)
        ensures
            h as nat == self.spec_height(),
    ;

    /// Render the widget onto `surface` with its top-left corner at `(x, y)`.
    /// The only observable effect is the surface mutation described by
    /// `spec_draw`.
    fn draw_at(&self, surface: &mut Surface, x: usize, y: usize, width: usize, height: usize)
        ensures
            final(surface)@ == self.spec_draw(old(surface)@, x, y, width, height),
    ;
}

/// The event-receiving capability.
///
/// A widget is informed of one input occurrence at a time and reports whether
/// it consumed the event. In this layer the consumed flag is advisory only:
/// nothing uses it to stop propagation.
///
/// An implementation overrides `handles` along with `handle_event`; one that
/// keeps the default relation promises nothing of its handling: any state
/// change and either consumed flag are possible outcomes.
pub trait EventReceiver: Sized {
    /// Relation between the widget's state before and after receiving
    /// `event`, together with the consumed flag it reports.
    open spec fn handles(pre: Self, event: Event, post: Self, consumed: bool) -> bool {
        true
    }

    /// Inform the widget of one input occurrence.
    fn handle_event(&mut self, event: &Event) -> (consumed: bool)
        ensures
            Self::handles(*old(self), *event, *final(self), consumed),
    ;
}

/// The widget marker: a type with both capabilities above, storable as an
/// independently owned child inside a container.
pub trait Widget: Drawable + EventReceiver {

}

} // verus!
