use simple_ui::ui::loader::{load_document, EUILoaderError};
use simple_ui::ui::styles::EUIStatus;
use simple_ui::ui::ui_ctrl::{Control, Ctrl, PaintOp};
use simple_ui::ui::ui_text::Text;
use simple_ui::ui::{Container, ECtrlStatus, ECtrlType, LayoutHorizontal, LayoutVertical};
use simple_ui::utils::ScaleDpi;
use simple_ui::{Color, IPoint, IRect, ISize};

fn named(name: &str) -> Control {
    let mut c = Ctrl::default();
    c.inner.name = name.to_string();
    Control::Base(c)
}

fn sample_tree() -> Container {
    let mut root = Container::new(LayoutVertical::new());
    root.ctrl.inner.name = "root".to_string();
    root.append_child(named("dup"));
    let mut row = Container::new(LayoutHorizontal::new());
    row.ctrl.inner.name = "row".to_string();
    row.append_child(named("left"));
    row.append_child(named("dup"));
    row.append_child(named("right"));
    root.append_child(Control::Container(row));
    root.append_child(named("bottom"));
    root
}

#[test]
fn find_prefers_last_added_and_shallowest() {
    let root = sample_tree();
    // the nested "dup" is added later (inside "row") and is found first
    let found = root.get_ctrl_by_name("dup").unwrap();
    assert_eq!(found.type_(), ECtrlType::BaseCtrl);
    let row = root.get_ctrl_by_name("row").unwrap();
    assert!(row.is_container());
    assert!(root.get_ctrl_by_name("missing").is_none());

    let mut flat = Container::new(LayoutHorizontal::new());
    let mut a = Ctrl::default();
    a.inner.name = "same".to_string();
    a.inner.border_width = 1;
    flat.append_child(Control::Base(a));
    let mut b = Ctrl::default();
    b.inner.name = "same".to_string();
    b.inner.border_width = 2;
    flat.append_child(Control::Base(b));
    assert_eq!(flat.get_ctrl_by_name("same").unwrap().get_inner().border_width, 2);
}

#[test]
fn find_sees_a_sibling_before_a_deeper_match_in_an_earlier_sibling() {
    let mut root = Container::new(LayoutVertical::new());
    let mut row = Container::new(LayoutHorizontal::new());
    let mut deep = Ctrl::default();
    deep.inner.name = "x".to_string();
    deep.inner.round = 1;
    row.append_child(Control::Base(deep));
    root.append_child(Control::Container(row));
    let mut shallow = Ctrl::default();
    shallow.inner.name = "x".to_string();
    shallow.inner.round = 2;
    root.append_child(Control::Base(shallow));
    assert_eq!(root.get_ctrl_by_name("x").unwrap().get_inner().round, 2);
}

#[test]
fn mutable_find_matches_and_writes_through() {
    let mut root = sample_tree();
    {
        let c = root.get_mut_ctrl_by_name("dup").unwrap();
        c.get_mut_inner().round = 7;
    }
    assert_eq!(root.get_ctrl_by_name("dup").unwrap().get_inner().round, 7);
    match &root.get_children()[1] {
        Control::Container(row) => assert_eq!(row.get_children()[1].get_inner().round, 7),
        _ => panic!("expected a container"),
    }
    match &root.get_children()[0] {
        Control::Base(c) => assert_eq!(c.inner.round, 0),
        _ => panic!("expected a plain control"),
    }
    assert!(root.get_mut_ctrl_by_name("missing").is_none());
}

#[test]
fn hit_test_is_stable_and_prefers_the_front() {
    let dpi = ScaleDpi::new(1, 1);
    let mut root = sample_tree();
    root.update_self(ISize::new(90, 90), &dpi);
    root.update(&dpi);
    // vertical root: each child is 30 high; the row splits 90 into thirds
    let p = IPoint::new(45, 45);
    let first = root.get_ctrl_by_pos(&p).unwrap().get_inner().name.clone();
    let second = root.get_ctrl_by_pos(&p).unwrap().get_inner().name.clone();
    assert_eq!(first, "dup");
    assert_eq!(first, second);
    // a shared edge goes to the later child
    assert_eq!(root.get_ctrl_by_pos(&IPoint::new(10, 30)).unwrap().get_inner().name, "left");
    assert_eq!(root.get_ctrl_by_pos(&IPoint::new(10, 60)).unwrap().get_inner().name, "bottom");
}

#[test]
fn hit_test_falls_back_to_the_container() {
    let dpi = ScaleDpi::new(1, 1);
    let mut root = Container::new(LayoutVertical::new());
    let mut row = Container::new(LayoutHorizontal::new());
    row.ctrl.inner.name = "row".to_string();
    row.ctrl.inner.padding = Some(IRect::new(10, 10, 10, 10));
    let mut small = Ctrl::default();
    small.inner.size.width = Some(5);
    row.append_child(Control::Base(small));
    root.append_child(Control::Container(row));
    root.update_self(ISize::new(100, 100), &dpi);
    root.update(&dpi);
    assert_eq!(root.get_ctrl_by_pos(&IPoint::new(90, 90)).unwrap().get_inner().name, "row");
    assert!(root.get_ctrl_by_pos(&IPoint::new(500, 500)).is_none());
}

#[test]
fn degenerate_controls_are_not_hit() {
    let root = sample_tree();
    // nothing laid out yet: every rectangle is the zero rectangle
    assert!(root.get_ctrl_by_pos(&IPoint::new(0, 0)).is_none());
}

#[test]
fn render_paints_frame_then_children() {
    let dpi = ScaleDpi::new(2, 1);
    let mut root = Container::new(LayoutVertical::new());
    root.ctrl.styles.default.bg_color = Some(Color::new(0xFF11_2233));
    root.ctrl.styles.default.border_color = Some(Color::new(0xFF00_0000));
    root.ctrl.inner.border_width = 3;
    let mut t = Text::new("hi", 12);
    t.update_dpi(&dpi);
    root.append_child(Control::Text(t));
    root.update_self(ISize::new(40, 20), &dpi);
    root.update(&dpi);
    let ops = root.render(&dpi);
    assert_eq!(ops.len(), 3);
    match &ops[0] {
        PaintOp::FillRect { rc, color, round } => {
            assert_eq!(*rc, IRect::new(0, 0, 40, 20));
            assert_eq!(color.argb, 0xFF11_2233);
            assert_eq!(*round, 0);
        }
        _ => panic!("expected a fill"),
    }
    match &ops[1] {
        PaintOp::StrokeRect { width, .. } => assert_eq!(*width, 6),
        _ => panic!("expected a stroke"),
    }
    match &ops[2] {
        PaintOp::Text { text, left, bottom, font_size, color } => {
            assert_eq!(text, "hi");
            assert_eq!((*left, *bottom), (0, 20));
            assert_eq!(*font_size, 24);
            assert_eq!(color.argb, 0xFF00_0000);
        }
        _ => panic!("expected text"),
    }
}

#[test]
fn render_skips_degenerate_controls() {
    let dpi = ScaleDpi::new(1, 1);
    let mut root = Container::new(LayoutVertical::new());
    root.ctrl.styles.default.bg_color = Some(Color::new(1));
    root.append_child(Control::Text(Text::new("x", 10)));
    assert!(root.render(&dpi).is_empty());
}

#[test]
fn update_dpi_reaches_nested_texts() {
    let dpi = ScaleDpi::new(3, 1);
    let mut root = Container::new(LayoutVertical::new());
    let mut row = Container::new(LayoutHorizontal::new());
    row.append_child(Control::Text(Text::new("a", 10)));
    root.append_child(Control::Container(row));
    root.update_dpi(&dpi);
    match &root.get_children()[0] {
        Control::Container(row) => match &row.get_children()[0] {
            Control::Text(t) => assert_eq!(t.font_px(), 30),
            _ => panic!("expected text"),
        },
        _ => panic!("expected a container"),
    }
}

#[test]
fn current_style_falls_back_to_default() {
    let mut c = Ctrl::default();
    c.styles.default.bg_color = Some(Color::new(1));
    c.status = ECtrlStatus::Hover;
    assert_eq!(c.get_cur_style().bg_color, Some(Color::new(1)));
    c.styles.hover = Some(simple_ui::ui::styles::StyleInner { bg_color: Some(Color::new(2)), border_color: None });
    assert_eq!(c.get_cur_style().bg_color, Some(Color::new(2)));
    assert!(c.styles.get_inner_style(EUIStatus::Press).is_none());
    c.styles.get_mut_inner_style(EUIStatus::Hover).unwrap().border_color = Some(Color::new(3));
    assert_eq!(c.styles.hover.unwrap().border_color, Some(Color::new(3)));
}

#[test]
fn controls_report_their_kind() {
    assert_eq!(named("a").kind_name(), "BaseCtrl");
    assert_eq!(Control::Text(Text::new("t", 1)).kind_name(), "Text");
    assert_eq!(Control::Container(Container::new(LayoutVertical::new())).type_(), ECtrlType::Container);
    let mut c = named("a");
    c.set_name("b");
    assert_eq!(c.get_inner().name, "b");
}

#[test]
fn loader_reports_parse_errors_and_unsupported_documents() {
    match load_document(b"{ not json") {
        Err(EUILoaderError::ParseJson(m)) => assert!(m.starts_with("serde-error: ") && m.len() > 13),
        _ => panic!("expected a parse error"),
    }
    match load_document(b"{\"type\": \"Container\"}") {
        Err(EUILoaderError::Unknow) => {}
        _ => panic!("expected an unsupported document"),
    }
}
