//! A control that shows one line of text.
use crate::ui::styles::{StyleInner, TStyle};
use crate::ui::ui_ctrl::{frame_ops, BaseCtrl, CtrlStyle, PaintOp, TCtrl, TCtrlInner};
use crate::ui::ECtrlType;
use crate::utils::{Color, ScaleDpi, TScaleDpi};
use vstd::prelude::*;

verus! {

/// The style of a text: the common attributes and a font color.
#[derive(Clone, Copy, Debug, PartialEq, Eq, Structural)]
pub struct TextStyle {
    pub base: CtrlStyle,
    pub font_color: Color,
}

impl TStyle for TextStyle {
    open spec fn style_inner(&self) -> StyleInner {
        self.base
    }

    open spec fn with_style_inner(&self, s: StyleInner) -> TextStyle {
        TextStyle { base: s, ..*self }
    }

    fn get_inner(&self) -> (r: &StyleInner) {
        &self.base
    }

    fn get_mut_inner(&mut self) -> (r: &mut StyleInner) {
        &mut self.base
    }
}

impl Default for TextStyle {
    /// No background, no border, black text.
    fn default() -> (r: TextStyle)
        ensures
            r.base == (StyleInner { bg_color: None, border_color: None }),
            r.font_color == (Color { argb: 0xFF00_0000 }),
    {
        TextStyle { base: StyleInner::new(), font_color: Color::new(0xFF00_0000) }
    }
}

pub struct Text {
    pub ctrl: BaseCtrl<TextStyle>,
    pub text: String,
    /// In logical units.
    pub font_size: i32,
    /// The factor that the font was last sized for.
    pub dpi_cache: ScaleDpi,
}

/// What a text paints: its background and border, then its string on one
/// line along the bottom edge, in the font size for the cached factor.
pub open spec fn text_ops(t: Text, dpi: ScaleDpi) -> Seq<PaintOp> {
    let rc = t.ctrl.inner.real_rc;
    if rc.degenerate() {
        seq![]
    } else {
        frame_ops(t.ctrl.inner, t.ctrl.cur_style().base, dpi).push(
            PaintOp::Text {
                text: t.text,
                left: rc.left,
                bottom: rc.bottom,
                font_size: t.dpi_cache.scale_int(t.font_size as int) as i32,
                color: t.ctrl.cur_style().font_color,
            },
        )
    }
}

impl Text {
    pub fn new(d: &str, font_size: i32) -> (r: Text)
        ensures
            r.text@ == d@,
            r.font_size == font_size,
            r.ctrl.inner.name@ == Seq::<char>::empty(),
            r.ctrl.inner.real_rc == crate::utils::IRect::zero(),
            r.ctrl.inner.size == (crate::utils::ISizeOpt { width: None, height: None }),
            r.ctrl.inner.pos == (crate::utils::IRectOpt { left: None, top: None, right: None, bottom: None }),
            r.ctrl.inner.padding is None,
            r.ctrl.inner.margin is None,
            r.ctrl.styles.default == (TextStyle {
                base: StyleInner { bg_color: None, border_color: None },
                font_color: Color { argb: 0xFF00_0000 },
            }),
            r.ctrl.styles.hover is None,
            r.ctrl.styles.press is None,
            r.ctrl.styles.disable is None,
            r.dpi_cache.factor_num() == 1,
            r.dpi_cache.factor_den() == 1,
    {
        Text {
            ctrl: BaseCtrl::new(TextStyle::default()),
            text: d.to_owned(),
            font_size,
            dpi_cache: ScaleDpi::default(),
        }
    }

    pub fn set_text(&mut self, t: String)
        ensures
            *final(self) == (Text { text: t, ..*old(self) }),
    {
        self.text = t;
    }

    /// Sizes the font for a new factor.
    pub fn update_dpi(&mut self, dpi: &ScaleDpi)
        ensures
            *final(self) == (Text { dpi_cache: *dpi, ..*old(self) }),
    {
        self.dpi_cache = *dpi;
    }

    /// The font size in pixels.
    pub fn font_px(&self) -> (r: i32)
        ensures
            r == self.dpi_cache.scale_int(self.font_size as int),
    {
        self.dpi_cache.scale(self.font_size)
    }

    pub fn render(&self, dpi: &ScaleDpi) -> (r: Vec<PaintOp>)
        ensures
            r@ == text_ops(*self, *dpi),
    {
        if self.ctrl.inner.empty_paint() {
            return Vec::new();
        }
        let style = self.ctrl.get_cur_style();
        let mut ops = self.ctrl.inner.render(dpi, &style.base);
        let rc = self.ctrl.inner.real_rc;
        ops.push(
            PaintOp::Text {
                text: self.text.clone(),
                left: rc.left,
                bottom: rc.bottom,
                font_size: self.font_px(),
                color: style.font_color,
            },
        );
        ops
    }
}

impl TCtrl for Text {
    open spec fn ctrl_inner(&self) -> TCtrlInner {
        self.ctrl.inner
    }

    open spec fn with_ctrl_inner(&self, i: TCtrlInner) -> Text {
        Text { ctrl: BaseCtrl { inner: i, ..self.ctrl }, ..*self }
    }

    open spec fn ctrl_kind(&self) -> ECtrlType {
        ECtrlType::Text
    }

    open spec fn ctrl_paint(&self, dpi: ScaleDpi) -> Seq<PaintOp> {
        text_ops(*self, dpi)
    }

    fn get_inner(&self) -> (r: &TCtrlInner) {
        &self.ctrl.inner
    }

    fn get_mut_inner(&mut self) -> (r: &mut TCtrlInner) {
        &mut self.ctrl.inner
    }

    fn type_(&self) -> (r: ECtrlType) {
        ECtrlType::Text
    }

    fn render(&self, dpi: &ScaleDpi) -> (r: Vec<PaintOp>) {
        Text::render(self, dpi)
    }
}

} // verus!
