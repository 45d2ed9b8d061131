use vstd::prelude::*;

verus! {

/// One input occurrence, carried through the widget tree as an opaque tagged
/// value: the layer forwards events to widgets without interpreting their
/// contents. Key, mouse and size payloads are plain integer codes whose
/// meaning belongs to the host application.
#[derive(Clone, Copy, PartialEq, Eq, Structural, Debug)]
pub enum Event {
    /// A key press, as a key code chosen by the host.
    KeyEvent(u32),
    /// A terminal resize to the given width and height.
    ResizeEvent(i32, i32),
    /// A mouse action: button code, column, row.
    MouseEvent(u8, i32, i32),
    /// A poll that produced nothing.
    NoEvent,
}

} // verus!
