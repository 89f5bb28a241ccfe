//! The stacking overlay and the scrollable region.

use gridlayout::overlay::Overlay;
use gridlayout::scroll::Scrollable;
use gridlayout::scroll::ScrollMode;
use gridlayout::EmptyElement;
use gridlayout::LayoutElement;
use gridlayout::Size;

struct FixedSize(i32, i32);

impl LayoutElement for FixedSize {
    fn min_size(&self) -> Size {
        Size { width: self.0, height: self.1 }
    }

    fn layout(&self, _x: i32, _y: i32, _width: i32, _height: i32) {}
}

#[test]
fn overlay_needs_room_for_its_largest_child() {
    let overlay = Overlay::builder()
        .add(Box::new(FixedSize(30, 10)))
        .add(Box::new(FixedSize(20, 25)))
        .add(Box::new(EmptyElement))
        .end();
    assert_eq!(overlay.min_size(), Size { width: 30, height: 25 });
}

#[test]
fn empty_overlay_needs_only_its_padding() {
    let overlay = Overlay::builder().with_padding(1, 2, 3, 4).end();
    assert_eq!(overlay.min_size(), Size { width: 4, height: 6 });
}

#[test]
fn overlay_children_share_the_padded_interior() {
    let overlay = Overlay::builder()
        .with_left_padding(5)
        .with_top_padding(6)
        .with_right_padding(7)
        .with_bottom_padding(8)
        .add(Box::new(FixedSize(10, 10)))
        .end();
    let rect = overlay.layout_children(100, 200, 50, 40);
    assert_eq!(rect, (105, 206, 50 - 12, 40 - 14));
}

#[test]
fn scrollable_reserves_scrollbar_room_on_the_scrolling_axis() {
    let s = Scrollable::builder()
        .with_scrollbar_size(16)
        .with_gap(2, 3)
        .add(Box::new(FixedSize(100, 200)));
    // Vertical scrolling: the width must fit the child plus the vertical
    // scrollbar; the height only needs scrollbar room.
    assert_eq!(s.min_size(), Size { width: 100 + 16 + 2, height: 16 + 3 });
}

#[test]
fn scrollable_modes_pick_the_constrained_axis() {
    let horizontal = Scrollable::builder()
        .with_mode(ScrollMode::Horizontal)
        .with_scrollbar_size(16)
        .add(Box::new(FixedSize(100, 200)));
    assert_eq!(horizontal.min_size(), Size { width: 16, height: 200 + 16 });

    let both = Scrollable::builder()
        .with_mode(ScrollMode::Both)
        .with_scrollbar_size(16)
        .add(Box::new(FixedSize(100, 200)));
    assert_eq!(both.min_size(), Size { width: 16, height: 16 });
}

#[test]
fn scrollable_child_keeps_its_minimum_when_the_container_shrinks() {
    let s = Scrollable::builder()
        .with_scrollbar_size(16)
        .add(Box::new(FixedSize(100, 200)));
    // The container is tall enough but too narrow... the width is below
    // the child minimum, so a horizontal overflow costs scrollbar room
    // at the bottom, and the child keeps its minimum width.
    let rect = s.layout_children(0, 0, 80, 300);
    assert_eq!(rect, (0, 0, 100, 300 - 16));
}

#[test]
fn scrollable_child_fills_a_large_container() {
    let s = Scrollable::builder()
        .with_scrollbar_size(16)
        .add(Box::new(FixedSize(100, 200)));
    let rect = s.layout_children(5, 7, 400, 500);
    assert_eq!(rect, (5, 7, 400, 500));
}
