use simple_ui::ui::ui_ctrl::{Control, Ctrl};
use simple_ui::ui::{Container, Layout, LayoutHorizontal, LayoutTable, LayoutVertical};
use simple_ui::utils::ScaleDpi;
use simple_ui::{IRect, ISize};

fn named(name: &str) -> Ctrl {
    let mut c = Ctrl::default();
    c.inner.name = name.to_string();
    c
}

fn rc_of(c: &Container, i: usize) -> IRect {
    *c.get_children()[i].get_real_rc()
}

#[test]
fn horizontal_shares_remaining_space() {
    let dpi = ScaleDpi::new(1, 1);
    let mut root = Container::new(LayoutHorizontal::new());
    root.append_child(Control::Base(named("A")));
    let mut b = named("B");
    b.inner.size.width = Some(30);
    root.append_child(Control::Base(b));
    root.append_child(Control::Base(named("C")));
    root.update_self(ISize::new(100, 20), &dpi);
    root.update(&dpi);
    assert_eq!(rc_of(&root, 0), IRect::new(0, 0, 35, 20));
    assert_eq!(rc_of(&root, 1), IRect::new(35, 0, 65, 20));
    assert_eq!(rc_of(&root, 2), IRect::new(65, 0, 100, 20));
}

#[test]
fn horizontal_clamps_and_collapses_past_the_edge() {
    let dpi = ScaleDpi::new(1, 1);
    let mut root = Container::new(LayoutHorizontal::new());
    let mut a = named("A");
    a.inner.size.width = Some(80);
    root.append_child(Control::Base(a));
    let mut b = named("B");
    b.inner.size.width = Some(50);
    root.append_child(Control::Base(b));
    let mut c = named("C");
    c.inner.size.width = Some(10);
    root.append_child(Control::Base(c));
    root.update_self(ISize::new(100, 20), &dpi);
    root.update(&dpi);
    assert_eq!(rc_of(&root, 0), IRect::new(0, 0, 80, 20));
    assert_eq!(rc_of(&root, 1), IRect::new(80, 0, 100, 20));
    assert_eq!(rc_of(&root, 2), IRect::new(100, 0, 100, 20));
}

#[test]
fn horizontal_cross_axis_hints_and_margin() {
    let dpi = ScaleDpi::new(2, 1);
    let mut root = Container::new(LayoutHorizontal::new());
    let mut a = named("A");
    a.inner.size.width = Some(10);
    a.inner.pos.top = Some(2);
    a.inner.pos.bottom = Some(8);
    root.append_child(Control::Base(a));
    let mut b = named("B");
    b.inner.size.width = Some(10);
    b.inner.size.height = Some(5);
    b.inner.margin = Some(IRect::new(1, 1, 1, 1));
    root.append_child(Control::Base(b));
    root.update_self(ISize::new(100, 40), &dpi);
    root.update(&dpi);
    assert_eq!(rc_of(&root, 0), IRect::new(0, 4, 20, 16));
    assert_eq!(rc_of(&root, 1), IRect::new(22, 2, 38, 8));
}

#[test]
fn vertical_mirrors_horizontal() {
    let dpi = ScaleDpi::new(1, 1);
    let mut root = Container::new(LayoutVertical::new());
    let mut a = named("A");
    a.inner.size.height = Some(10);
    root.append_child(Control::Base(a));
    let mut b = named("B");
    b.inner.size.width = Some(30);
    root.append_child(Control::Base(b));
    root.update_self(ISize::new(50, 100), &dpi);
    root.update(&dpi);
    assert_eq!(rc_of(&root, 0), IRect::new(0, 0, 50, 10));
    assert_eq!(rc_of(&root, 1), IRect::new(0, 10, 30, 100));
}

#[test]
fn flexible_shares_fit_the_extent() {
    let dpi = ScaleDpi::new(1, 1);
    let mut root = Container::new(LayoutHorizontal::new());
    for i in 0..3 {
        let mut c = named("x");
        if i == 0 {
            c.inner.size.width = Some(10);
        }
        root.append_child(Control::Base(c));
    }
    root.update_self(ISize::new(101, 10), &dpi);
    root.update(&dpi);
    // (101 - 10) / 2 = 45 each; the pixel that rounding drops stays unused
    assert_eq!(rc_of(&root, 1), IRect::new(10, 0, 55, 10));
    assert_eq!(rc_of(&root, 2), IRect::new(55, 0, 100, 10));
}

#[test]
fn table_fills_rows_and_zeroes_the_overflow() {
    let dpi = ScaleDpi::new(1, 1);
    let mut root = Container::new(LayoutTable::new(2, 2));
    for _ in 0..5 {
        root.append_child(Control::Base(named("cell")));
    }
    root.update_self(ISize::new(100, 100), &dpi);
    root.update(&dpi);
    assert_eq!(rc_of(&root, 0), IRect::new(0, 0, 50, 50));
    assert_eq!(rc_of(&root, 1), IRect::new(50, 0, 100, 50));
    assert_eq!(rc_of(&root, 2), IRect::new(0, 50, 50, 100));
    assert_eq!(rc_of(&root, 3), IRect::new(50, 50, 100, 100));
    assert_eq!(rc_of(&root, 4), IRect::default());
}

#[test]
fn table_without_rows_places_nothing() {
    let dpi = ScaleDpi::new(1, 1);
    let mut root = Container::new(LayoutTable::new(0, 3));
    root.append_child(Control::Base(named("cell")));
    root.update_self(ISize::new(100, 100), &dpi);
    root.update(&dpi);
    assert_eq!(rc_of(&root, 0), IRect::default());
}

#[test]
fn padding_that_swallows_the_content_zeroes_children() {
    let dpi = ScaleDpi::new(1, 1);
    for layout in [LayoutHorizontal::new(), LayoutVertical::new(), LayoutTable::new(1, 1), Layout::new()] {
        let mut root = Container::new(layout);
        root.ctrl.inner.padding = Some(IRect::new(6, 6, 6, 6));
        let mut a = named("A");
        a.inner.real_rc = IRect::new(1, 1, 5, 5);
        root.append_child(Control::Base(a));
        root.append_child(Control::Base(named("B")));
        root.update_self(ISize::new(10, 10), &dpi);
        assert_eq!(root.ctrl.inner.real_rc, IRect::new(0, 0, 10, 10));
        root.update(&dpi);
        assert_eq!(rc_of(&root, 0), IRect::default());
        assert_eq!(rc_of(&root, 1), IRect::default());
    }
}

#[test]
fn padding_is_scaled() {
    let dpi = ScaleDpi::new(2, 1);
    let mut root = Container::new(LayoutHorizontal::new());
    root.ctrl.inner.padding = Some(IRect::new(1, 2, 3, 4));
    root.append_child(Control::Base(named("A")));
    root.update_self(ISize::new(100, 100), &dpi);
    root.update(&dpi);
    assert_eq!(rc_of(&root, 0), IRect::new(2, 4, 94, 92));
}

#[test]
fn absolute_places_and_clips() {
    let dpi = ScaleDpi::new(2, 1);
    let mut root = Container::new(Layout::new());
    let mut a = named("A");
    a.inner.pos.left = Some(5);
    a.inner.pos.top = Some(5);
    a.inner.size.width = Some(10);
    a.inner.size.height = Some(100);
    root.append_child(Control::Base(a));
    let mut b = named("B");
    b.inner.pos.left = Some(60);
    b.inner.size.width = Some(10);
    b.inner.size.height = Some(10);
    root.append_child(Control::Base(b));
    root.update_self(ISize::new(100, 100), &dpi);
    root.update(&dpi);
    assert_eq!(rc_of(&root, 0), IRect::new(10, 10, 30, 100));
    assert_eq!(rc_of(&root, 1), IRect::default());
}

#[test]
fn root_margin_is_scaled() {
    let dpi = ScaleDpi::new(2, 1);
    let mut root = Container::new(LayoutHorizontal::new());
    root.ctrl.inner.margin = Some(IRect::new(1, 2, 3, 4));
    root.update_self(ISize::new(100, 80), &dpi);
    assert_eq!(root.ctrl.inner.real_rc, IRect::new(2, 4, 94, 72));
}

#[test]
fn nested_children_stay_inside_their_parents() {
    let dpi = ScaleDpi::new(3, 2);
    let mut root = Container::new(LayoutVertical::new());
    let mut inner = Container::new(LayoutHorizontal::new());
    inner.ctrl.inner.padding = Some(IRect::new(2, 2, 2, 2));
    for w in [Some(40), None, Some(500)] {
        let mut c = named("leaf");
        c.inner.size.width = w;
        c.inner.margin = Some(IRect::new(1, 1, 1, 1));
        inner.append_child(Control::Base(c));
    }
    root.append_child(Control::Container(inner));
    root.append_child(Control::Base(named("footer")));
    root.update_self(ISize::new(300, 200), &dpi);
    root.update(&dpi);
    let outer = *root.get_children()[0].get_real_rc();
    match &root.get_children()[0] {
        Control::Container(k) => {
            let content = IRect::new(outer.left + 3, outer.top + 3, outer.right - 3, outer.bottom - 3);
            for child in k.get_children() {
                let rc = *child.get_real_rc();
                let zero = rc == IRect::default();
                let inside = rc.left >= content.left + 1
                    && rc.top >= content.top + 1
                    && rc.right <= content.right - 1
                    && rc.bottom <= content.bottom - 1;
                assert!(zero || inside);
            }
        }
        _ => panic!("expected a container"),
    }
}

#[test]
fn degenerate_content_zeroes_the_whole_subtree() {
    let dpi = ScaleDpi::new(1, 1);
    let mut root = Container::new(LayoutHorizontal::new());
    root.ctrl.inner.padding = Some(IRect::new(6, 6, 6, 6));
    let mut inner = Container::new(LayoutVertical::new());
    inner.ctrl.inner.real_rc = IRect::new(0, 0, 50, 50);
    let mut leaf = named("leaf");
    leaf.inner.real_rc = IRect::new(1, 1, 9, 9);
    inner.append_child(Control::Base(leaf));
    root.append_child(Control::Container(inner));
    root.update_self(ISize::new(10, 10), &dpi);
    root.update(&dpi);
    match &root.get_children()[0] {
        Control::Container(k) => {
            assert_eq!(k.ctrl.inner.real_rc, IRect::default());
            assert_eq!(rc_of(k, 0), IRect::default());
        }
        _ => panic!("expected a container"),
    }
}
