use crate::event::Event;
use crate::surface::Surface;
use crate::surface::SurfaceView;
use crate::widget::Drawable;
use crate::widget::EventReceiver;
use crate::widget::Widget;
use vstd::prelude::*;

verus! {

/// Addition on `usize` that stops at `usize::MAX` instead of wrapping.
pub open spec fn sat_add(a: usize, b: usize) -> usize {
    if a + b > usize::MAX {
        usize::MAX
    } else {
        (a + b) as usize
    }
}

/// A `nat` forced into `usize` range, stopping at `usize::MAX`.
pub open spec fn cap_usize(n: nat) -> usize {
    if n > usize::MAX {
        usize::MAX
    } else {
        n as usize
    }
}

/// The widest preferred width among the widgets of `cs`, or `0` when `cs` is
/// empty: a vertical stack is only as wide as its widest row.
pub open spec fn max_width_of<W: Drawable>(cs: Seq<W>) -> nat
    decreases cs.len(),
{
    if cs.len() == 0 {
        0
    } else {
        let rest = max_width_of(cs.drop_last());
        if cs.last().spec_width() > rest {
            cs.last().spec_width()
        } else {
            rest
        }
    }
}

/// The sum of the preferred heights of the widgets of `cs`.
pub open spec fn sum_heights<W: Drawable>(cs: Seq<W>) -> nat
    decreases cs.len(),
{
    if cs.len() == 0 {
        0
    } else {
        sum_heights(cs.drop_last()) + cs.last().spec_height()
    }
}

/// The rows a vertical stack reserves for the widgets of `cs`: each widget's
/// height followed by one spacing unit — including one after the last widget.
pub open spec fn total_height<W: Drawable>(cs: Seq<W>, spacing: usize) -> nat
    decreases cs.len(),
{
    if cs.len() == 0 {
        0
    } else {
        total_height(cs.drop_last(), spacing) + cs.last().spec_height() + spacing as nat
    }
}

/// One top-to-bottom draw pass over the widgets of `cs`, starting with the
/// running offset `y_offset`. Each widget is drawn at `(x, y + y_offset)`
/// with the full `width` and a height budget of `0` (size decisions are the
/// widget's own); afterwards the offset advances by the widget's height plus
/// one spacing unit. The pass stops as soon as the offset reaches the
/// container's height budget: the widgets after that point are not drawn.
pub open spec fn stack_draw<W: Drawable>(
    cs: Seq<W>,
    spacing: usize,
    s: SurfaceView,
    x: usize,
    y: usize,
    width: usize,
    height: usize,
    y_offset: usize,
) -> SurfaceView
    decreases cs.len(),
{
    if cs.len() == 0 {
        s
    } else if y_offset >= height {
        s
    } else {
        let drawn = cs.first().spec_draw(s, x, sat_add(y, y_offset), width, 0);
        stack_draw(
            cs.drop_first(),
            spacing,
            drawn,
            x,
            y,
            width,
            height,
            sat_add(sat_add(y_offset, cap_usize(cs.first().spec_height())), spacing),
        )
    }
}

/// A vertical stacking container: an ordered collection of child widgets
/// drawn top to bottom, with a fixed number of blank rows between consecutive
/// children.
///
/// Children are heterogeneous through the caller's widget type `W`, which may
/// be a single widget kind, another container, or a tagged union of the
/// widget kinds the caller composes.
pub struct VerticalLayout<W: Widget> {
    children: Vec<W>,
    spacing: usize,
}

impl<W: Widget> VerticalLayout<W> {
    /// The ordered sequence of child widgets, top to bottom.
    pub closed spec fn kids(self) -> Seq<W> {
        self.children@
    }

    /// The number of blank rows between consecutive children.
    pub closed spec fn spec_spacing(self) -> usize {
        self.spacing
    }

    /// An empty container with zero spacing.
    pub fn new() -> (layout: VerticalLayout<W>)
        ensures
            layout.kids() == Seq::<W>::empty(),
            layout.spec_spacing() == 0,
    {
        VerticalLayout { children: Vec::new(), spacing: 0 }
    }

    /// Append `widget` to the end of the children, taking ownership. The
    /// order of the children already present is untouched.
    pub fn add(&mut self, widget: W)
        ensures
            final(self).kids() == old(self).kids().push(widget),
            final(self).spec_spacing() == old(self).spec_spacing(),
    {
        self.children.push(widget)
    }

    /// Replace the spacing. Affects every later measure and draw pass, but
    /// neither reorders nor drops any child.
    pub fn set_spacing(&mut self, spacing: usize)
        ensures
            final(self).kids() == old(self).kids(),
            final(self).spec_spacing() == spacing,
    {
        self.spacing = spacing
    }
}

impl<W: Widget> Drawable for VerticalLayout<W> {
    /// The widest child's preferred width, or `0` with no children.
    open spec fn spec_width(&self) -> nat {
        max_width_of(self.kids())
    }

    /// The sum of the children's heights plus one spacing unit per child
    /// (one of them after the last child), stopping at `usize::MAX`.
    open spec fn spec_height(&self) -> nat {
        cap_usize(total_height(self.kids(), self.spec_spacing())) as nat
    }

    open spec fn spec_draw(
        &self,
        s: SurfaceView,
        x: usize,
        y: usize,
        width: usize,
        height: usize,
    ) -> SurfaceView {
        stack_draw(self.kids(), self.spec_spacing(), s, x, y, width, height, 0)
    }

    fn width(&self) -> (w: usize) {
        let n: usize = self.children.len();
        let mut w: usize = 0;
        let mut i: usize = 0;
        while i < n
            invariant
                i <= n,
                n == self.kids().len(),
                w as nat == max_width_of(self.kids().take(i as int)),
            decreases n - i,
        {
            let cw = self.children[i].width();
            if cw > w {
                w = cw;
            }
            i = i + 1;
            proof {
                let kids = self.kids();
                assert(kids.take(i as int).drop_last() =~= kids.take(i - 1));
                assert(kids.take(i as int).last() == kids[i - 1]);
            }
        }
        proof {
            assert(self.kids().take(n as int) =~= self.kids());
        }
        w
    }

    fn height(&self) -> (h: usize) {
        let n: usize = self.children.len();
        let mut h: usize = 0;
        let mut i: usize = 0;
        while i < n
            invariant
                i <= n,
                n == self.kids().len(),
                h == cap_usize(total_height(self.kids().take(i as int), self.spec_spacing())),
            decreases n - i,
        {
            let ch = self.children[i].height();
            h = h.saturating_add(ch).saturating_add(self.spacing);
            i = i + 1;
            proof {
                let kids = self.kids();
                assert(kids.take(i as int).drop_last() =~= kids.take(i - 1));
                assert(kids.take(i as int).last() == kids[i - 1]);
            }
        }
        proof {
            assert(self.kids().take(n as int) =~= self.kids());
        }
        h
    }

    fn draw_at(&self, surface: &mut Surface, x: usize, y: usize, width: usize, height: usize) {
        let n: usize = self.children.len();
        let mut y_offset: usize = 0;
        let mut i: usize = 0;
        proof {
            assert(self.kids().skip(0) =~= self.kids());
        }
        while i < n && y_offset < height
            invariant
                i <= n,
                n == self.kids().len(),
                self.spec_draw(old(surface)@, x, y, width, height) == stack_draw(
                    self.kids().skip(i as int),
                    self.spec_spacing(),
                    surface@,
                    x,
                    y,
                    width,
                    height,
                    y_offset,
                ),
            decreases n - i,
        {
            self.children[i].draw_at(surface, x, y.saturating_add(y_offset), width, 0);
            let ch = self.children[i].height();
            y_offset = y_offset.saturating_add(ch).saturating_add(self.spacing);
            i = i + 1;
            proof {
                let kids = self.kids();
                assert(kids.skip(i - 1).drop_first() =~= kids.skip(i as int));
                assert(kids.skip(i - 1).first() == kids[i - 1]);
            }
        }
    }
}

/// The widget `post` is a possible state of the widget `pre` after receiving
/// `event`, whatever consumed flag the widget reported.
pub open spec fn child_handled<W: EventReceiver>(pre: W, event: Event, post: W) -> bool {
    exists|c: bool| W::handles(pre, event, post, c)
}

impl<W: Widget> EventReceiver for VerticalLayout<W> {
    /// The container forwards the event to every child unconditionally, in
    /// insertion order: afterwards each child stands in its own handling
    /// relation with the event, no child is added, dropped or reordered, the
    /// spacing is untouched, and the container itself always reports the
    /// event as consumed, whatever its children reported.
    open spec fn handles(pre: Self, event: Event, post: Self, consumed: bool) -> bool {
        &&& consumed == true
        &&& post.spec_spacing() == pre.spec_spacing()
        &&& post.kids().len() == pre.kids().len()
        &&& forall|i: int|
            0 <= i < pre.kids().len() ==> #[trigger] child_handled(
                pre.kids()[i],
                event,
                post.kids()[i],
            )
    }

    fn handle_event(&mut self, event: &Event) -> (consumed: bool) {
        let n: usize = self.children.len();
        let mut i: usize = 0;
        while i < n
            invariant
                i <= n,
                n == self.kids().len(),
                self.kids().len() == old(self).kids().len(),
                self.spec_spacing() == old(self).spec_spacing(),
                forall|j: int|
                    0 <= j < i ==> #[trigger] child_handled(
                        old(self).kids()[j],
                        *event,
                        self.kids()[j],
                    ),
                forall|j: int| i <= j < n ==> self.kids()[j] == old(self).kids()[j],
            decreases n - i,
        {
            let ghost prev = *self;
            let c = self.children[i].handle_event(event);
            proof {
                assert(self.kids() == prev.kids().update(i as int, self.kids()[i as int]));
                assert(W::handles(prev.kids()[i as int], *event, self.kids()[i as int], c));
                assert(child_handled(old(self).kids()[i as int], *event, self.kids()[i as int]));
                assert forall|j: int| 0 <= j < i + 1 implies #[trigger] child_handled(
                    old(self).kids()[j],
                    *event,
                    self.kids()[j],
                ) by {
                    if j < i {
                        assert(self.kids()[j] == prev.kids()[j]);
                    }
                };
                assert forall|j: int| i + 1 <= j < n implies self.kids()[j] == old(
                    self,
                ).kids()[j] by {
                    assert(self.kids()[j] == prev.kids()[j]);
                };
            }
            i = i + 1;
        }
        true
    }
}

impl<W: Widget> Widget for VerticalLayout<W> {

}

/// The running offset after a draw pass has advanced over every widget of
/// `cs`, starting from `y_offset`.
pub open spec fn advance_offset<W: Drawable>(cs: Seq<W>, spacing: usize, y_offset: usize) -> usize
    decreases cs.len(),
{
    if cs.len() == 0 {
        y_offset
    } else {
        advance_offset(
            cs.drop_first(),
            spacing,
            sat_add(sat_add(y_offset, cap_usize(cs.first().spec_height())), spacing),
        )
    }
}

proof fn lemma_total_height_first<W: Drawable>(cs: Seq<W>, spacing: usize)
    requires
        cs.len() > 0,
    ensures
        total_height(cs, spacing) == cs.first().spec_height() + spacing + total_height(
            cs.drop_first(),
            spacing,
        ),
    decreases cs.len(),
{
    if cs.len() == 1 {
        assert(cs.drop_first() =~= Seq::<W>::empty());
        assert(total_height(cs.drop_first(), spacing) == 0);
        assert(cs.first() == cs.last());
        assert(total_height(cs.drop_last(), spacing) == 0);
    } else {
        lemma_total_height_first(cs.drop_last(), spacing);
        assert(cs.drop_last().first() == cs.first());
        assert(cs.drop_last().drop_first() =~= cs.drop_first().drop_last());
        assert(cs.drop_first().last() == cs.last());
        assert(total_height(cs.drop_first(), spacing) == total_height(
            cs.drop_first().drop_last(),
            spacing,
        ) + cs.drop_first().last().spec_height() + spacing as nat);
    }
}

proof fn lemma_advance_total<W: Drawable>(cs: Seq<W>, spacing: usize, y_offset: usize)
    ensures
        advance_offset(cs, spacing, y_offset) == cap_usize(
            y_offset as nat + total_height(cs, spacing),
        ),
    decreases cs.len(),
{
    if cs.len() > 0 {
        let new_off = sat_add(sat_add(y_offset, cap_usize(cs.first().spec_height())), spacing);
        lemma_advance_total(cs.drop_first(), spacing, new_off);
        lemma_total_height_first(cs, spacing);
    }
}

/// Measure and draw cannot drift apart: the running offset of a draw pass
/// that has advanced over all children stands exactly at the container's
/// measured height, whatever the children and the spacing are.
pub proof fn lemma_measure_draw_consistent<W: Widget>(layout: VerticalLayout<W>)
    ensures
        advance_offset(layout.kids(), layout.spec_spacing(), 0) == layout.spec_height(),
{
    lemma_advance_total(layout.kids(), layout.spec_spacing(), 0);
}

/// An empty container measures zero by zero, and its draw pass leaves any
/// surface exactly as it was: no cell is written.
pub proof fn lemma_empty_layout<W: Widget>(
    layout: VerticalLayout<W>,
    s: SurfaceView,
    x: usize,
    y: usize,
    width: usize,
    height: usize,
)
    requires
        layout.kids().len() == 0,
    ensures
        layout.spec_width() == 0,
        layout.spec_height() == 0,
        layout.spec_draw(s, x, y, width, height) == s,
{
}

/// Dispatching an event to an empty container forwards it to no one: the
/// container still reports the event as consumed and stays empty.
pub proof fn lemma_empty_layout_event<W: Widget>(
    pre: VerticalLayout<W>,
    event: Event,
    post: VerticalLayout<W>,
    consumed: bool,
)
    requires
        pre.kids().len() == 0,
        VerticalLayout::<W>::handles(pre, event, post, consumed),
    ensures
        consumed,
        post.kids().len() == 0,
        post.spec_spacing() == pre.spec_spacing(),
{
}

/// The stack's width is the maximum of the children's widths, not their sum:
/// no child is wider than the stack, and some child attains the stack's
/// width whenever there is any child. Spacing plays no part in it.
pub proof fn lemma_width_is_max<W: Drawable>(cs: Seq<W>)
    ensures
        forall|i: int| 0 <= i < cs.len() ==> #[trigger] cs[i].spec_width() <= max_width_of(cs),
        cs.len() > 0 ==> exists|i: int|
            0 <= i < cs.len() && max_width_of(cs) == #[trigger] cs[i].spec_width(),
    decreases cs.len(),
{
    if cs.len() > 0 {
        let head = cs.drop_last();
        lemma_width_is_max(head);
        assert forall|i: int| 0 <= i < cs.len() implies #[trigger] cs[i].spec_width()
            <= max_width_of(cs) by {
            if i < cs.len() - 1 {
                assert(head[i] == cs[i]);
                assert(head[i].spec_width() <= max_width_of(head));
            }
        };
        if cs.last().spec_width() > max_width_of(head) {
            assert(max_width_of(cs) == cs[cs.len() - 1].spec_width());
        } else if head.len() > 0 {
            let i = choose|i: int|
                0 <= i < head.len() && max_width_of(head) == #[trigger] head[i].spec_width();
            assert(cs[i] == head[i]);
            assert(max_width_of(cs) == cs[i].spec_width());
        } else {
            assert(max_width_of(cs) == cs[0].spec_width());
        }
    }
}

/// The rows a stack reserves are the sum of the children's heights plus one
/// spacing unit for each child — including one after the last child.
pub proof fn lemma_height_formula<W: Drawable>(cs: Seq<W>, spacing: usize)
    ensures
        total_height(cs, spacing) == sum_heights(cs) + spacing * cs.len(),
    decreases cs.len(),
{
    if cs.len() > 0 {
        lemma_height_formula(cs.drop_last(), spacing);
        assert(spacing * cs.len() == spacing * (cs.len() - 1) + spacing) by (nonlinear_arith)
            requires
                cs.len() >= 1,
        ;
    }
}

/// The container's measured height follows the formula of
/// `lemma_height_formula` exactly, whenever that formula fits the machine
/// word; far beyond any real terminal it stops at `usize::MAX`.
pub proof fn lemma_layout_height_formula<W: Widget>(layout: VerticalLayout<W>)
    ensures
        layout.spec_height() == cap_usize(total_height(layout.kids(), layout.spec_spacing())),
        total_height(layout.kids(), layout.spec_spacing()) <= usize::MAX ==> layout.spec_height()
            == sum_heights(layout.kids()) + layout.spec_spacing() * layout.kids().len(),
{
    lemma_height_formula(layout.kids(), layout.spec_spacing());
}

/// Once the running offset has reached the height budget within the first
/// `cut` widgets, the whole draw pass equals the draw pass over those `cut`
/// widgets alone: the widgets after them are not drawn and leave no trace on
/// the surface.
pub proof fn lemma_draw_early_stop<W: Drawable>(
    cs: Seq<W>,
    spacing: usize,
    s: SurfaceView,
    x: usize,
    y: usize,
    width: usize,
    height: usize,
    y_offset: usize,
    cut: int,
)
    requires
        0 <= cut <= cs.len(),
        advance_offset(cs.take(cut), spacing, y_offset) >= height,
    ensures
        stack_draw(cs, spacing, s, x, y, width, height, y_offset) == stack_draw(
            cs.take(cut),
            spacing,
            s,
            x,
            y,
            width,
            height,
            y_offset,
        ),
    decreases cut,
{
    if cut == 0 {
        assert(cs.take(0) =~= Seq::<W>::empty());
    } else if y_offset < height {
        let new_off = sat_add(sat_add(y_offset, cap_usize(cs.first().spec_height())), spacing);
        let drawn = cs.first().spec_draw(s, x, sat_add(y, y_offset), width, 0);
        assert(cs.take(cut).first() == cs.first());
        assert(cs.take(cut).drop_first() =~= cs.drop_first().take(cut - 1));
        lemma_draw_early_stop(
            cs.drop_first(),
            spacing,
            drawn,
            x,
            y,
            width,
            height,
            new_off,
            cut - 1,
        );
    }
}

/// `lemma_draw_early_stop`, stated of the container's own draw pass.
pub proof fn lemma_layout_draw_early_stop<W: Widget>(
    layout: VerticalLayout<W>,
    s: SurfaceView,
    x: usize,
    y: usize,
    width: usize,
    height: usize,
    cut: int,
)
    requires
        0 <= cut <= layout.kids().len(),
        advance_offset(layout.kids().take(cut), layout.spec_spacing(), 0) >= height,
    ensures
        layout.spec_draw(s, x, y, width, height) == stack_draw(
            layout.kids().take(cut),
            layout.spec_spacing(),
            s,
            x,
            y,
            width,
            height,
            0,
        ),
{
    lemma_draw_early_stop(layout.kids(), layout.spec_spacing(), s, x, y, width, height, 0, cut);
}

/// Appending a widget leaves the earlier children in place and extends the
/// measures: the width becomes the maximum of the old width and the new
/// widget's, and the reserved rows grow by the widget's height plus one
/// spacing unit.
pub proof fn lemma_append_measures<W: Drawable>(cs: Seq<W>, widget: W, spacing: usize)
    ensures
        max_width_of(cs.push(widget)) == if widget.spec_width() > max_width_of(cs) {
            widget.spec_width()
        } else {
            max_width_of(cs)
        },
        sum_heights(cs.push(widget)) == sum_heights(cs) + widget.spec_height(),
        total_height(cs.push(widget), spacing) == total_height(cs, spacing)
            + widget.spec_height() + spacing,
{
    assert(cs.push(widget).drop_last() =~= cs);
    assert(cs.push(widget).last() == widget);
}

/// Measuring is pure: any two results of `width`, and any two results of
/// `height`, taken from the same container state are equal, because each is
/// pinned to the same function of that state.
pub proof fn lemma_measure_idempotent<W: Widget>(
    layout: VerticalLayout<W>,
    w1: usize,
    w2: usize,
    h1: usize,
    h2: usize,
)
    requires
        w1 as nat == layout.spec_width(),
        w2 as nat == layout.spec_width(),
        h1 as nat == layout.spec_height(),
        h2 as nat == layout.spec_height(),
    ensures
        w1 == w2,
        h1 == h2,
{
}

} // verus!
