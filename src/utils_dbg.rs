//! A debugging aid: give every control without a background one of a
//! cycle of distinct colors, so that the layout can be seen.
use crate::ui::styles::StyleInner;
use crate::ui::ui_container::{kids_size, Container};
use crate::ui::ui_ctrl::Control;
use crate::utils::Color;
use vstd::prelude::*;

verus! {

/// Dark gray, gray, light gray, white, red, green, blue, yellow, cyan and
/// magenta, in that order.
pub open spec fn palette(i: int) -> Color {
    Color {
        argb: if i == 0 {
            0xFF44_4444
        } else if i == 1 {
            0xFF88_8888
        } else if i == 2 {
            0xFFCC_CCCC
        } else if i == 3 {
            0xFFFF_FFFF
        } else if i == 4 {
            0xFFFF_0000
        } else if i == 5 {
            0xFF00_FF00
        } else if i == 6 {
            0xFF00_00FF
        } else if i == 7 {
            0xFFFF_FF00
        } else if i == 8 {
            0xFF00_FFFF
        } else {
            0xFFFF_00FF
        },
    }
}

pub open spec fn in_palette(c: Color) -> bool {
    exists|i: int| 0 <= i < 10 && palette(i) == c
}

/// The position in the color cycle, handed from call to call.
pub struct ColorCycle {
    pub next: usize,
}

impl ColorCycle {
    pub fn new() -> (r: ColorCycle)
        ensures
            r.next == 0,
    {
        ColorCycle { next: 0 }
    }

    /// The next color of the cycle.
    pub fn get_color(&mut self) -> (r: Color)
        ensures
            r == palette((old(self).next % 10) as int),
            final(self).next == (old(self).next % 10 + 1) % 10,
    {
        let i = self.next % 10;
        let argb: u32 = if i == 0 {
            0xFF44_4444
        } else if i == 1 {
            0xFF88_8888
        } else if i == 2 {
            0xFFCC_CCCC
        } else if i == 3 {
            0xFFFF_FFFF
        } else if i == 4 {
            0xFFFF_0000
        } else if i == 5 {
            0xFF00_FF00
        } else if i == 6 {
            0xFF00_00FF
        } else if i == 7 {
            0xFFFF_FF00
        } else if i == 8 {
            0xFF00_FFFF
        } else {
            0xFFFF_00FF
        };
        self.next = (i + 1) % 10;
        Color { argb }
    }
}

/// `new` is `old` with a background color from the palette where it had none.
pub open spec fn style_filled(old: StyleInner, new: StyleInner) -> bool {
    &&& new.border_color == old.border_color
    &&& old.bg_color is Some ==> new.bg_color == old.bg_color
    &&& old.bg_color is None ==> new.bg_color is Some && in_palette(new.bg_color->0)
}

/// The common part of the default style of `c`.
pub open spec fn default_inner(c: Control) -> StyleInner {
    match c {
        Control::Base(b) => b.styles.default,
        Control::Container(k) => k.ctrl.styles.default,
        Control::Text(t) => t.ctrl.styles.default.base,
        Control::Button(b) => b.ctrl.styles.default.base,
    }
}

/// `c` with the common part of its default style replaced.
pub open spec fn with_default_inner(c: Control, s: StyleInner) -> Control {
    match c {
        Control::Base(b) => Control::Base(
            crate::ui::ui_ctrl::BaseCtrl {
                styles: crate::ui::styles::Styles { default: s, ..b.styles },
                ..b
            },
        ),
        Control::Container(k) => Control::Container(
            Container {
                ctrl: crate::ui::ui_ctrl::BaseCtrl {
                    styles: crate::ui::styles::Styles { default: s, ..k.ctrl.styles },
                    ..k.ctrl
                },
                ..k
            },
        ),
        Control::Text(t) => Control::Text(
            crate::ui::ui_text::Text {
                ctrl: crate::ui::ui_ctrl::BaseCtrl {
                    styles: crate::ui::styles::Styles {
                        default: crate::ui::ui_text::TextStyle { base: s, ..t.ctrl.styles.default },
                        ..t.ctrl.styles
                    },
                    ..t.ctrl
                },
                ..t
            },
        ),
        Control::Button(b) => Control::Button(
            crate::ui::ui_button::Button {
                ctrl: crate::ui::ui_ctrl::BaseCtrl {
                    styles: crate::ui::styles::Styles {
                        default: crate::ui::ui_button::ButtonStyle { base: s },
                        ..b.ctrl.styles
                    },
                    ..b.ctrl
                },
                ..b
            },
        ),
    }
}

/// `new` is `old` with every control of the subtree given a background.
pub open spec fn container_filled(old: Container, new: Container) -> bool
    decreases old,
{
    &&& new.layout == old.layout
    &&& new.ctrl.inner == old.ctrl.inner
    &&& new.ctrl.status == old.ctrl.status
    &&& new.ctrl.styles.hover == old.ctrl.styles.hover
    &&& new.ctrl.styles.press == old.ctrl.styles.press
    &&& new.ctrl.styles.disable == old.ctrl.styles.disable
    &&& style_filled(old.ctrl.styles.default, new.ctrl.styles.default)
    &&& new.children@.len() == old.children@.len()
    &&& forall|i: int|
        0 <= i < old.children@.len() ==> control_filled(#[trigger] old.children@[i], new.children@[i])
}

pub open spec fn control_filled(old: Control, new: Control) -> bool
    decreases old,
{
    match old {
        Control::Container(k) => new is Container && container_filled(k, new->Container_0),
        _ => new == with_default_inner(old, default_inner(new)) && style_filled(
            default_inner(old),
            default_inner(new),
        ),
    }
}

fn fill_style(s: &mut StyleInner, colors: &mut ColorCycle)
    ensures
        style_filled(*old(s), *final(s)),
{
    if s.bg_color.is_none() {
        let c = colors.get_color();
        assert(in_palette(c)) by {
            assert(0 <= (old(colors).next % 10) as int && (old(colors).next % 10) < 10);
        }
        s.bg_color = Some(c);
    }
}

/// Gives `ctrl` a background color of its own if its default style has none.
fn update_color(ctrl: &mut Control, colors: &mut ColorCycle)
    ensures
        *final(ctrl) == with_default_inner(*old(ctrl), default_inner(*final(ctrl))),
        style_filled(default_inner(*old(ctrl)), default_inner(*final(ctrl))),
{
    match ctrl {
        Control::Base(b) => fill_style(&mut b.styles.default, colors),
        Control::Container(k) => fill_style(&mut k.ctrl.styles.default, colors),
        Control::Text(t) => fill_style(&mut t.ctrl.styles.default.base, colors),
        Control::Button(b) => fill_style(&mut b.ctrl.styles.default.base, colors),
    }
}

/// Gives the root, then each child, then the subtree of each child
/// container (the last added first), a background where it has none.
pub fn fill_bg_color(root: &mut Container, colors: &mut ColorCycle)
    ensures
        container_filled(*old(root), *final(root)),
    decreases kids_size(old(root).children@),
{
    fill_style(&mut root.ctrl.styles.default, colors);
    let ghost start = *old(root);
    let ghost after_root = *root;
    let n = root.children.len();
    let mut i: usize = 0;
    while i < n
        invariant
            n == start.children@.len(),
            0 <= i <= n,
            root.ctrl == after_root.ctrl,
            root.layout == start.layout,
            root.children@.len() == n,
            forall|j: int| 0 <= j < i && !(start.children@[j] is Container) ==> control_filled(
                #[trigger] start.children@[j], root.children@[j]),
            forall|j: int| 0 <= j < i ==> style_filled(
                default_inner(#[trigger] start.children@[j]), default_inner(root.children@[j])),
            forall|j: int| 0 <= j < i ==> #[trigger] root.children@[j] == with_default_inner(
                start.children@[j],
                default_inner(root.children@[j]),
            ),
            forall|j: int| i <= j < n ==> #[trigger] root.children@[j] == start.children@[j],
        decreases n - i,
    {
        let ghost before = root.children@;
        update_color(&mut root.children[i], colors);
        proof {
            let j = i as int;
            assert(forall|m: int| 0 <= m < n && m != j ==> root.children@[m] == before[m]);
        }
        i += 1;
    }
    let ghost mid = *root;
    let mut i = n;
    while i > 0
        invariant
            n == start.children@.len(),
            0 <= i <= n,
            start == *old(root),
            root.ctrl == after_root.ctrl,
            root.layout == start.layout,
            root.children@.len() == n,
            mid.children@.len() == n,
            forall|j: int| i <= j < n ==> control_filled(#[trigger] start.children@[j], root.children@[j]),
            forall|j: int| 0 <= j < i ==> #[trigger] root.children@[j] == mid.children@[j],
            forall|j: int| 0 <= j < n && !(start.children@[j] is Container) ==> control_filled(
                #[trigger] start.children@[j], mid.children@[j]),
            forall|j: int| 0 <= j < n ==> style_filled(
                default_inner(#[trigger] start.children@[j]), default_inner(mid.children@[j])),
            forall|j: int| 0 <= j < n ==> #[trigger] mid.children@[j] == with_default_inner(
                start.children@[j],
                default_inner(mid.children@[j]),
            ),
        decreases i,
    {
        i -= 1;
        let ghost before = root.children@;
        proof {
            crate::ui::ui_container::lemma_kid_size(start.children@, i as int);
        }
        match &mut root.children[i] {
            Control::Container(k) => {
                proof {
                    let orig = start.children@[i as int];
                    assert(crate::ui::ui_container::ctrl_size(orig) == 1 + kids_size(
                        orig->Container_0.children@,
                    ));
                }
                fill_bg_color(k, colors);
            },
            _ => {},
        }
        proof {
            let j = i as int;
            assert(forall|m: int| 0 <= m < n && m != j ==> root.children@[m] == before[m]);
            if start.children@[j] is Container {
                let k0 = start.children@[j]->Container_0;
                let k1 = mid.children@[j]->Container_0;
                let k2 = root.children@[j]->Container_0;
                assert(container_filled(k1, k2));
                assert(k1.children == k0.children);
                assert(k1.ctrl.styles.default == default_inner(mid.children@[j]));
                assert(container_filled(k0, k2));
            }
        }
    }
}

} // verus!
