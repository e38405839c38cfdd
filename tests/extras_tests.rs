use simple_ui::ui::styles::EUIStatus;
use simple_ui::ui::ui_text::Text;
use simple_ui::ui::ui_button::{Button, TButtonDelegate};
use simple_ui::ui::ui_ctrl::{Control, Ctrl};
use simple_ui::ui::{Container, ECtrlType, LayoutHorizontal, LayoutVertical, TCtrl};
use simple_ui::utils::ScaleDpi;
use simple_ui::utils_dbg::{fill_bg_color, ColorCycle};
use simple_ui::{Color, IPoint, IRect, ISize};

struct Nothing;

impl TButtonDelegate for Nothing {
    fn on_click(&self) {}
}

#[test]
fn fill_bg_color_colors_only_what_has_no_background() {
    let mut root = Container::new(LayoutVertical::new());
    let mut kept = Ctrl::default();
    kept.styles.default.bg_color = Some(Color::new(0x1234_5678));
    root.append_child(Control::Base(kept));
    let mut row = Container::new(LayoutHorizontal::new());
    row.append_child(Control::Base(Ctrl::default()));
    root.append_child(Control::Container(row));
    root.append_child(Control::Button(Button::new()));
    let mut colors = ColorCycle::new();
    fill_bg_color(&mut root, &mut colors);
    // root, then the row and the button, then the row's child
    assert_eq!(root.ctrl.styles.default.bg_color, Some(Color::new(0xFF44_4444)));
    match &root.get_children()[0] {
        Control::Base(c) => assert_eq!(c.styles.default.bg_color, Some(Color::new(0x1234_5678))),
        _ => panic!("expected a plain control"),
    }
    match &root.get_children()[1] {
        Control::Container(k) => {
            assert_eq!(k.ctrl.styles.default.bg_color, Some(Color::new(0xFF88_8888)));
            match &k.get_children()[0] {
                Control::Base(c) => assert_eq!(c.styles.default.bg_color, Some(Color::new(0xFFFF_FFFF))),
                _ => panic!("expected a plain control"),
            }
        }
        _ => panic!("expected a container"),
    }
    match &root.get_children()[2] {
        Control::Button(b) => assert_eq!(b.ctrl.styles.default.base.bg_color, Some(Color::new(0xFFCC_CCCC))),
        _ => panic!("expected a button"),
    }
    assert_eq!(colors.next, 4);
}

#[test]
fn color_cycle_wraps_after_ten() {
    let mut colors = ColorCycle::new();
    let first = colors.get_color();
    for _ in 0..9 {
        colors.get_color();
    }
    assert_eq!(colors.get_color(), first);
    assert_eq!(first, Color::new(0xFF44_4444));
}

#[test]
fn hit_test_names_the_background_container() {
    let dpi = ScaleDpi::new(1, 1);
    let mut root = Container::new(LayoutHorizontal::new());
    root.ctrl.inner.name = "root".to_string();
    let mut a = Ctrl::default();
    a.inner.name = "a".to_string();
    a.inner.size.width = Some(10);
    root.append_child(Control::Base(a));
    root.update_self(ISize::new(100, 10), &dpi);
    root.update(&dpi);
    assert_eq!(root.hit_test(&IPoint::new(5, 5)).name, "a");
    assert_eq!(root.hit_test(&IPoint::new(50, 5)).name, "root");
}

#[test]
fn every_kind_offers_the_common_operations() {
    let dpi = ScaleDpi::new(1, 1);
    let mut b = Button::new();
    b.set_delegate(Box::new(Nothing)).ctrl.inner.name = "ok".to_string();
    assert!(b.delegate.is_some());
    assert_eq!(b.ctrl.inner.name, "ok");
    b.get_mut_inner().real_rc = IRect::new(0, 0, 4, 4);
    b.ctrl.styles.default.base.bg_color = Some(Color::new(5));
    assert_eq!(TCtrl::render(&b, &dpi).len(), 1);
    assert_eq!(b.type_(), ECtrlType::Button);
    assert!(!b.is_container());
    assert_eq!(*b.get_real_rc(), IRect::new(0, 0, 4, 4));
    let k = Container::new(LayoutVertical::new());
    assert!(TCtrl::is_container(&k));
    let c = Control::Container(k);
    assert!(TCtrl::is_container(&c));
    assert_eq!(TCtrl::get_inner(&c).name, "");
}

#[test]
fn styles_are_reached_through_any_control() {
    let mut t = Control::Text(Text::new("x", 10));
    assert!(t.get_style(EUIStatus::Hover).is_none());
    assert!(t.get_mut_style(EUIStatus::Hover).is_none());
    t.get_mut_style(EUIStatus::Default).unwrap().bg_color = Some(Color::new(9));
    assert_eq!(t.get_style(EUIStatus::Default).unwrap().bg_color, Some(Color::new(9)));
    match &t {
        Control::Text(inner) => assert_eq!(inner.ctrl.styles.default.font_color, Color::new(0xFF00_0000)),
        _ => panic!("expected text"),
    }
}
