use std::cell::RefCell;
use std::rc::Rc;
use vstack::event::Event;
use vstack::surface::Cell;
use vstack::surface::Surface;
use vstack::vertical_layout::VerticalLayout;
use vstack::widget::Drawable;
use vstack::widget::EventReceiver;
use vstack::widget::Widget;

/// A widget with a fixed preferred size that writes one marker cell at the
/// position it is asked to draw at.
struct Block {
    w: usize,
    h: usize,
    mark: char,
}

impl Block {
    fn new(w: usize, h: usize, mark: char) -> Block {
        Block { w, h, mark }
    }
}

fn mark_cell(mark: char) -> Cell {
    Cell { ch: mark, style: 0, fg: 0, bg: 0 }
}

fn blank_cell() -> Cell {
    Cell { ch: ' ', style: 0, fg: 0, bg: 0 }
}

impl Drawable for Block {
    fn width(&self) -> usize {
        self.w
    }

    fn height(&self) -> usize {
        self.h
    }

    fn draw_at(&self, surface: &mut Surface, x: usize, y: usize, _width: usize, _height: usize) {
        surface.put(x, y, mark_cell(self.mark));
    }
}

impl EventReceiver for Block {
    fn handle_event(&mut self, _event: &Event) -> bool {
        false
    }
}

impl Widget for Block {}

/// A widget that records every event it receives in a log shared with the
/// test, along with its own id, and reports the event as not consumed.
struct Probe {
    id: usize,
    log: Rc<RefCell<Vec<usize>>>,
}

impl Drawable for Probe {
    fn width(&self) -> usize {
        0
    }

    fn height(&self) -> usize {
        0
    }

    fn draw_at(&self, _surface: &mut Surface, _x: usize, _y: usize, _width: usize, _height: usize) {
    }
}

impl EventReceiver for Probe {
    fn handle_event(&mut self, _event: &Event) -> bool {
        self.log.borrow_mut().push(self.id);
        false
    }
}

impl Widget for Probe {}

/// A tagged union of two widget kinds, the closed-set way of stacking
/// heterogeneous children.
enum Mixed {
    Plain(Block),
    Listening(Probe),
}

impl Drawable for Mixed {
    fn width(&self) -> usize {
        match self {
            Mixed::Plain(b) => b.width(),
            Mixed::Listening(p) => p.width(),
        }
    }

    fn height(&self) -> usize {
        match self {
            Mixed::Plain(b) => b.height(),
            Mixed::Listening(p) => p.height(),
        }
    }

    fn draw_at(&self, surface: &mut Surface, x: usize, y: usize, width: usize, height: usize) {
        match self {
            Mixed::Plain(b) => b.draw_at(surface, x, y, width, height),
            Mixed::Listening(p) => p.draw_at(surface, x, y, width, height),
        }
    }
}

impl EventReceiver for Mixed {
    fn handle_event(&mut self, event: &Event) -> bool {
        match self {
            Mixed::Plain(b) => b.handle_event(event),
            Mixed::Listening(p) => p.handle_event(event),
        }
    }
}

impl Widget for Mixed {}

fn assert_all_blank(surface: &Surface) {
    for y in 0..surface.height() {
        for x in 0..surface.width() {
            assert_eq!(surface.get(x, y), Some(blank_cell()));
        }
    }
}

#[test]
fn empty_container_measures_zero() {
    let v: VerticalLayout<Block> = VerticalLayout::new();
    assert_eq!(v.width(), 0);
    assert_eq!(v.height(), 0);
}

#[test]
fn empty_container_draws_nothing() {
    let v: VerticalLayout<Block> = VerticalLayout::new();
    let mut s = Surface::new(4, 4);
    v.draw_at(&mut s, 0, 0, 4, 4);
    assert_all_blank(&s);
}

#[test]
fn empty_container_consumes_events() {
    let mut v: VerticalLayout<Probe> = VerticalLayout::new();
    assert!(v.handle_event(&Event::KeyEvent(13)));
}

#[test]
fn width_is_max_not_sum() {
    let mut v: VerticalLayout<Block> = VerticalLayout::new();
    v.add(Block::new(3, 1, 'a'));
    v.add(Block::new(7, 1, 'b'));
    v.add(Block::new(2, 1, 'c'));
    assert_eq!(v.width(), 7);
    v.set_spacing(5);
    assert_eq!(v.width(), 7);

    let mut reordered: VerticalLayout<Block> = VerticalLayout::new();
    reordered.add(Block::new(7, 1, 'b'));
    reordered.add(Block::new(2, 1, 'c'));
    reordered.add(Block::new(3, 1, 'a'));
    assert_eq!(reordered.width(), 7);
}

#[test]
fn height_counts_spacing_after_every_child() {
    let mut v: VerticalLayout<Block> = VerticalLayout::new();
    v.add(Block::new(1, 2, 'a'));
    v.add(Block::new(1, 3, 'b'));
    v.set_spacing(1);
    assert_eq!(v.height(), 2 + 3 + 1 * 2);
    v.set_spacing(0);
    assert_eq!(v.height(), 5);
}

#[test]
fn early_stop_on_exhausted_space() {
    let mut v: VerticalLayout<Block> = VerticalLayout::new();
    v.add(Block::new(1, 5, 'a'));
    v.add(Block::new(1, 5, 'b'));
    v.add(Block::new(1, 5, 'c'));
    let mut s = Surface::new(1, 12);
    v.draw_at(&mut s, 0, 0, 1, 8);
    assert_eq!(s.get(0, 0), Some(mark_cell('a')));
    assert_eq!(s.get(0, 5), Some(mark_cell('b')));
    assert_eq!(s.get(0, 10), Some(blank_cell()));
}

#[test]
fn event_fans_out_to_every_child_in_order() {
    let log: Rc<RefCell<Vec<usize>>> = Rc::new(RefCell::new(Vec::new()));
    let mut v: VerticalLayout<Probe> = VerticalLayout::new();
    for id in 0..3 {
        v.add(Probe { id, log: Rc::clone(&log) });
    }
    let consumed = v.handle_event(&Event::ResizeEvent(80, 24));
    assert!(consumed, "the container reports consumed even though every child said no");
    assert_eq!(*log.borrow(), vec![0, 1, 2]);
}

#[test]
fn append_keeps_order_and_spacing_only_moves_children() {
    let mut v: VerticalLayout<Block> = VerticalLayout::new();
    v.add(Block::new(1, 1, 'a'));
    v.add(Block::new(1, 1, 'b'));
    v.add(Block::new(1, 1, 'c'));

    let mut s = Surface::new(1, 8);
    v.draw_at(&mut s, 0, 0, 1, 8);
    assert_eq!(s.get(0, 0), Some(mark_cell('a')));
    assert_eq!(s.get(0, 1), Some(mark_cell('b')));
    assert_eq!(s.get(0, 2), Some(mark_cell('c')));

    v.set_spacing(1);
    let mut spaced = Surface::new(1, 8);
    v.draw_at(&mut spaced, 0, 0, 1, 8);
    assert_eq!(spaced.get(0, 0), Some(mark_cell('a')));
    assert_eq!(spaced.get(0, 2), Some(mark_cell('b')));
    assert_eq!(spaced.get(0, 4), Some(mark_cell('c')));
    assert_eq!(spaced.get(0, 1), Some(blank_cell()));
}

#[test]
fn measuring_is_idempotent() {
    let mut v: VerticalLayout<Block> = VerticalLayout::new();
    v.add(Block::new(4, 2, 'a'));
    v.add(Block::new(6, 1, 'b'));
    v.set_spacing(2);
    let w1 = v.width();
    let w2 = v.width();
    let h1 = v.height();
    let h2 = v.height();
    assert_eq!(w1, w2);
    assert_eq!(h1, h2);
    let mut s = Surface::new(8, 8);
    v.draw_at(&mut s, 0, 0, 8, 8);
    assert_eq!(v.width(), w1);
    assert_eq!(v.height(), h1);
}

#[test]
fn children_draw_at_given_origin() {
    let mut v: VerticalLayout<Block> = VerticalLayout::new();
    v.add(Block::new(1, 1, 'a'));
    v.add(Block::new(1, 1, 'b'));
    let mut s = Surface::new(6, 6);
    v.draw_at(&mut s, 2, 3, 1, 3);
    assert_eq!(s.get(2, 3), Some(mark_cell('a')));
    assert_eq!(s.get(2, 4), Some(mark_cell('b')));
    assert_eq!(s.get(0, 0), Some(blank_cell()));
}

#[test]
fn heterogeneous_children_through_a_tagged_union() {
    let log: Rc<RefCell<Vec<usize>>> = Rc::new(RefCell::new(Vec::new()));
    let mut v: VerticalLayout<Mixed> = VerticalLayout::new();
    v.add(Mixed::Plain(Block::new(5, 2, 'a')));
    v.add(Mixed::Listening(Probe { id: 9, log: Rc::clone(&log) }));
    v.add(Mixed::Plain(Block::new(3, 1, 'b')));
    assert_eq!(v.width(), 5);
    assert_eq!(v.height(), 3);
    assert!(v.handle_event(&Event::KeyEvent(7)));
    assert_eq!(*log.borrow(), vec![9]);
    let mut s = Surface::new(8, 8);
    v.draw_at(&mut s, 0, 0, 8, 8);
    assert_eq!(s.get(0, 0), Some(mark_cell('a')));
    assert_eq!(s.get(0, 2), Some(mark_cell('b')));
}

#[test]
fn containers_nest_as_widgets() {
    let mut inner: VerticalLayout<Block> = VerticalLayout::new();
    inner.add(Block::new(2, 1, 'x'));
    inner.add(Block::new(4, 1, 'y'));
    let mut outer: VerticalLayout<VerticalLayout<Block>> = VerticalLayout::new();
    outer.add(inner);
    let mut second: VerticalLayout<Block> = VerticalLayout::new();
    second.add(Block::new(3, 1, 'z'));
    outer.add(second);
    // Measures compose through nesting.
    assert_eq!(outer.width(), 4);
    assert_eq!(outer.height(), 3);
    // Drawing does not: each child is handed a height budget of 0, and a
    // container stops as soon as its budget is spent, so a nested container
    // renders nothing even though its own leaf widgets would.
    let mut s = Surface::new(6, 6);
    outer.draw_at(&mut s, 0, 0, 6, 6);
    assert_all_blank(&s);
    // Drawn directly with a real budget, such a container renders.
    let mut direct = Surface::new(6, 6);
    let mut fresh: VerticalLayout<Block> = VerticalLayout::new();
    fresh.add(Block::new(2, 1, 'x'));
    fresh.add(Block::new(4, 1, 'y'));
    fresh.draw_at(&mut direct, 0, 0, 4, 6);
    assert_eq!(direct.get(0, 0), Some(mark_cell('x')));
    assert_eq!(direct.get(0, 1), Some(mark_cell('y')));
}

#[test]
fn surface_starts_blank_and_reports_its_size() {
    let s = Surface::new(3, 2);
    assert_eq!(s.width(), 3);
    assert_eq!(s.height(), 2);
    assert_all_blank(&s);
    assert_eq!(s.get(3, 0), None);
    assert_eq!(s.get(0, 2), None);
}

#[test]
fn surface_clips_out_of_bounds_writes() {
    let mut s = Surface::new(2, 2);
    s.put(2, 0, mark_cell('a'));
    s.put(0, 2, mark_cell('b'));
    s.put(9, 9, mark_cell('c'));
    assert_all_blank(&s);
    s.put(1, 1, mark_cell('d'));
    assert_eq!(s.get(1, 1), Some(mark_cell('d')));
}

#[test]
fn widgets_drawn_past_the_surface_are_clipped_not_fatal() {
    let mut v: VerticalLayout<Block> = VerticalLayout::new();
    v.add(Block::new(1, 1, 'a'));
    v.add(Block::new(1, 1, 'b'));
    let mut s = Surface::new(1, 1);
    v.draw_at(&mut s, 0, 0, 1, 5);
    assert_eq!(s.get(0, 0), Some(mark_cell('a')));
}
