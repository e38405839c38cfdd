//! A clickable control.
use crate::ui::styles::{StyleInner, TStyle};
use crate::ui::ui_ctrl::{frame_ops, BaseCtrl, CtrlStyle, PaintOp, TCtrl, TCtrlInner};
use crate::ui::ECtrlType;
use crate::utils::ScaleDpi;
use vstd::prelude::*;

verus! {

/// What a button calls when it is clicked.
pub trait TButtonDelegate {
    fn on_click(&self);
}

/// The style of a button.
#[derive(Clone, Copy, Debug, PartialEq, Eq, Structural)]
pub struct ButtonStyle {
    pub base: CtrlStyle,
}

impl TStyle for ButtonStyle {
    open spec fn style_inner(&self) -> StyleInner {
        self.base
    }

    open spec fn with_style_inner(&self, s: StyleInner) -> ButtonStyle {
        ButtonStyle { base: s }
    }

    fn get_inner(&self) -> (r: &StyleInner) {
        &self.base
    }

    fn get_mut_inner(&mut self) -> (r: &mut StyleInner) {
        &mut self.base
    }
}

impl Default for ButtonStyle {
    fn default() -> (r: ButtonStyle)
        ensures
            r.base == (StyleInner { bg_color: None, border_color: None }),
    {
        ButtonStyle { base: StyleInner::new() }
    }
}

pub struct Button {
    pub ctrl: BaseCtrl<ButtonStyle>,
    pub delegate: Option<Box<dyn TButtonDelegate>>,
}

impl Button {
    pub open spec fn has_delegate(self) -> bool {
        self.delegate is Some
    }

    pub fn new() -> (r: Button)
        ensures
            r.ctrl.inner.name@ == Seq::<char>::empty(),
            r.ctrl.inner.real_rc == crate::utils::IRect::zero(),
            r.ctrl.inner.size == (crate::utils::ISizeOpt { width: None, height: None }),
            r.ctrl.inner.pos == (crate::utils::IRectOpt { left: None, top: None, right: None, bottom: None }),
            r.ctrl.inner.padding is None,
            r.ctrl.inner.margin is None,
            r.ctrl.styles.default == (ButtonStyle { base: StyleInner { bg_color: None, border_color: None } }),
            r.ctrl.styles.hover is None,
            r.ctrl.styles.press is None,
            r.ctrl.styles.disable is None,
            !r.has_delegate(),
    {
        Button { ctrl: BaseCtrl::new(ButtonStyle::default()), delegate: None }
    }

    /// Sets what is called on a click, replacing any earlier delegate.
    /// Verus keeps no identity for a boxed trait object once it is moved, so
    /// the contract can say that a delegate is set but not which one.
    pub fn set_delegate(&mut self, delegate: Box<dyn TButtonDelegate>) -> (r: &mut Button)
        ensures
            r.ctrl == old(self).ctrl,
            r.has_delegate(),
            *final(self) == *final(r),
    {
        self.delegate = Some(delegate);
        self
    }

    pub fn render(&self, dpi: &ScaleDpi) -> (r: Vec<PaintOp>)
        ensures
            r@ == frame_ops(self.ctrl.inner, self.ctrl.cur_style().base, *dpi),
    {
        self.ctrl.inner.render(dpi, &self.ctrl.get_cur_style().base)
    }
}

impl Default for Button {
    fn default() -> (r: Button)
        ensures
            r.ctrl.inner.real_rc == crate::utils::IRect::zero(),
            !r.has_delegate(),
    {
        Button::new()
    }
}

impl TCtrl for Button {
    open spec fn ctrl_inner(&self) -> TCtrlInner {
        self.ctrl.inner
    }

    open spec fn with_ctrl_inner(&self, i: TCtrlInner) -> Button {
        Button { ctrl: BaseCtrl { inner: i, ..self.ctrl }, ..*self }
    }

    open spec fn ctrl_kind(&self) -> ECtrlType {
        ECtrlType::Button
    }

    open spec fn ctrl_paint(&self, dpi: ScaleDpi) -> Seq<PaintOp> {
        frame_ops(self.ctrl.inner, self.ctrl.cur_style().base, dpi)
    }

    fn get_inner(&self) -> (r: &TCtrlInner) {
        &self.ctrl.inner
    }

    fn get_mut_inner(&mut self) -> (r: &mut TCtrlInner) {
        &mut self.ctrl.inner
    }

    fn type_(&self) -> (r: ECtrlType) {
        ECtrlType::Button
    }

    fn render(&self, dpi: &ScaleDpi) -> (r: Vec<PaintOp>) {
        Button::render(self, dpi)
    }
}

} // verus!
