//! What every control has: geometry, identity, styles and state.
use crate::ui::styles::{StyleInner, Styles, TStyle};
use crate::ui::ui_button::Button;
use crate::ui::ui_container::Container;
use crate::ui::ui_text::Text;
use crate::ui::{ECtrlStatus, ECtrlType};
use crate::utils::{Color, IRect, IRectOpt, ISizeOpt, ScaleDpi, TScaleDpi};
use vstd::prelude::*;

verus! {

/// One drawing command for the 2D backend. Rectangles are in pixels.
#[derive(Debug)]
pub enum PaintOp {
    /// Fill `rc`; corners are rounded with radius `round` when it is not 0.
    FillRect { rc: IRect, color: Color, round: i32 },
    /// Stroke the outline of `rc` with a pen `width` pixels wide.
    StrokeRect { rc: IRect, color: Color, round: i32, width: i32 },
    /// Draw `text` on one line, starting at `left`, with its bottom at `bottom`.
    Text { text: String, left: i32, bottom: i32, font_size: i32, color: Color },
}

/// Geometry and identity shared by every kind of control.
pub struct TCtrlInner {
    pub name: String,
    pub border_width: i32,
    pub round: i32,
    /// Where the control ends up, in pixels; written by layout.
    pub real_rc: IRect,
    pub content_rc: IRect,
    pub size: ISizeOpt,
    pub pos: IRectOpt,
    pub padding: Option<IRect>,
    pub margin: Option<IRect>,
}

/// The commands that paint the background and border of a control.
pub open spec fn frame_ops(inner: TCtrlInner, style: StyleInner, dpi: ScaleDpi) -> Seq<PaintOp> {
    if inner.real_rc.degenerate() {
        seq![]
    } else {
        let fill = match style.bg_color {
            Some(c) => seq![PaintOp::FillRect { rc: inner.real_rc, color: c, round: inner.round }],
            None => seq![],
        };
        let stroke = if inner.border_width != 0 && style.border_color is Some {
            seq![
                PaintOp::StrokeRect {
                    rc: inner.real_rc,
                    color: style.border_color->0,
                    round: inner.round,
                    width: dpi.scale_int(inner.border_width as int) as i32,
                },
            ]
        } else {
            seq![]
        };
        fill + stroke
    }
}

impl TCtrlInner {
    pub fn new() -> (r: TCtrlInner)
        ensures
            r.name@ == Seq::<char>::empty(),
            r.border_width == 0,
            r.round == 0,
            r.real_rc == IRect::zero(),
            r.content_rc == IRect::zero(),
            r.size == (ISizeOpt { width: None, height: None }),
            r.pos == (IRectOpt { left: None, top: None, right: None, bottom: None }),
            r.padding is None,
            r.margin is None,
    {
        TCtrlInner {
            name: String::new(),
            border_width: 0,
            round: 0,
            real_rc: IRect::default(),
            content_rc: IRect::default(),
            size: ISizeOpt::default(),
            pos: IRectOpt::default(),
            padding: None,
            margin: None,
        }
    }

    /// Paints background and border, nothing when the rectangle is degenerate.
    pub fn render(&self, dpi: &ScaleDpi, style: &StyleInner) -> (r: Vec<PaintOp>)
        ensures
            r@ == frame_ops(*self, *style, *dpi),
    {
        let mut ops: Vec<PaintOp> = Vec::new();
        if self.empty_paint() {
            return ops;
        }
        match style.bg_color {
            Some(c) => {
                ops.push(PaintOp::FillRect { rc: self.real_rc, color: c, round: self.round });
            },
            None => {},
        }
        if self.border_width != 0 {
            match style.border_color {
                Some(c) => {
                    ops.push(
                        PaintOp::StrokeRect {
                            rc: self.real_rc,
                            color: c,
                            round: self.round,
                            width: dpi.scale(self.border_width),
                        },
                    );
                },
                None => {},
            }
        }
        assert(ops@ =~= frame_ops(*self, *style, *dpi));
        ops
    }

    /// Whether the control is skipped when painting and hit-testing.
    pub fn empty_paint(&self) -> (r: bool)
        ensures
            r == self.real_rc.degenerate(),
    {
        self.real_rc.is_degenerate()
    }
}

impl Default for TCtrlInner {
    fn default() -> (r: TCtrlInner)
        ensures
            r.name@ == Seq::<char>::empty(),
            r.real_rc == IRect::zero(),
            r.size == (ISizeOpt { width: None, height: None }),
            r.pos == (IRectOpt { left: None, top: None, right: None, bottom: None }),
            r.padding is None,
            r.margin is None,
    {
        TCtrlInner::new()
    }
}

/// The style of a plain control: just the common attributes.
pub type CtrlStyle = StyleInner;

impl TStyle for StyleInner {
    open spec fn style_inner(&self) -> StyleInner {
        *self
    }

    open spec fn with_style_inner(&self, s: StyleInner) -> StyleInner {
        s
    }

    fn get_inner(&self) -> (r: &StyleInner) {
        self
    }

    fn get_mut_inner(&mut self) -> (r: &mut StyleInner) {
        self
    }
}

/// Geometry, styles and interaction state of a control with style type `T`.
pub struct BaseCtrl<T: TStyle> {
    pub inner: TCtrlInner,
    pub styles: Styles<T>,
    pub status: ECtrlStatus,
}

impl<T: TStyle> BaseCtrl<T> {
    /// The style in use: the one for the current state, else the default one.
    pub open spec fn cur_style(self) -> T {
        match self.status {
            ECtrlStatus::Default => self.styles.default,
            ECtrlStatus::Hover => match self.styles.hover {
                Some(s) => s,
                None => self.styles.default,
            },
            ECtrlStatus::Press => match self.styles.press {
                Some(s) => s,
                None => self.styles.default,
            },
            ECtrlStatus::Disable => match self.styles.disable {
                Some(s) => s,
                None => self.styles.default,
            },
        }
    }

    pub fn new(default_style: T) -> (r: BaseCtrl<T>)
        ensures
            r.inner.name@ == Seq::<char>::empty(),
            r.inner.real_rc == IRect::zero(),
            r.inner.size == (ISizeOpt { width: None, height: None }),
            r.inner.pos == (IRectOpt { left: None, top: None, right: None, bottom: None }),
            r.inner.padding is None,
            r.inner.margin is None,
            r.styles.default == default_style,
            r.styles.hover is None,
            r.styles.press is None,
            r.styles.disable is None,
            r.status == ECtrlStatus::Default,
    {
        BaseCtrl { inner: TCtrlInner::new(), styles: Styles::new(default_style), status: ECtrlStatus::Default }
    }

    pub fn get_cur_style(&self) -> (r: &T)
        ensures
            *r == self.cur_style(),
    {
        match self.status {
            ECtrlStatus::Default => &self.styles.default,
            ECtrlStatus::Hover => match &self.styles.hover {
                Some(s) => s,
                None => &self.styles.default,
            },
            ECtrlStatus::Press => match &self.styles.press {
                Some(s) => s,
                None => &self.styles.default,
            },
            ECtrlStatus::Disable => match &self.styles.disable {
                Some(s) => s,
                None => &self.styles.default,
            },
        }
    }
}

/// A plain control: a rectangle with a background and a border.
pub type Ctrl = BaseCtrl<CtrlStyle>;

impl Default for BaseCtrl<CtrlStyle> {
    fn default() -> (r: Ctrl)
        ensures
            r.inner.name@ == Seq::<char>::empty(),
            r.inner.real_rc == IRect::zero(),
            r.styles.default == (StyleInner { bg_color: None, border_color: None }),
            r.styles.hover is None,
            r.styles.press is None,
            r.styles.disable is None,
            r.status == ECtrlStatus::Default,
    {
        BaseCtrl::new(StyleInner::new())
    }
}

/// What every kind of control offers.
pub trait TCtrl: Sized {
    /// The shared geometry and identity record.
    spec fn ctrl_inner(&self) -> TCtrlInner;

    /// The same control with its shared record replaced.
    spec fn with_ctrl_inner(&self, i: TCtrlInner) -> Self;

    spec fn ctrl_kind(&self) -> ECtrlType;

    /// The drawing commands for the control and everything below it.
    spec fn ctrl_paint(&self, dpi: ScaleDpi) -> Seq<PaintOp>;

    fn get_inner(&self) -> (r: &TCtrlInner)
        ensures
            *r == self.ctrl_inner(),
    ;

    fn get_mut_inner(&mut self) -> (r: &mut TCtrlInner)
        ensures
            *r == old(self).ctrl_inner(),
            *final(self) == old(self).with_ctrl_inner(*final(r)),
    ;

    fn type_(&self) -> (r: ECtrlType)
        ensures
            r == self.ctrl_kind(),
    ;

    fn is_container(&self) -> (r: bool)
        ensures
            r == (self.ctrl_kind() == ECtrlType::Container),
    {
        self.type_() == ECtrlType::Container
    }

    fn get_real_rc(&self) -> (r: &IRect)
        ensures
            *r == self.ctrl_inner().real_rc,
    {
        &self.get_inner().real_rc
    }

    fn render(&self, dpi: &ScaleDpi) -> (r: Vec<PaintOp>)
        ensures
            r@ == self.ctrl_paint(*dpi),
    ;
}

impl TCtrl for Ctrl {
    open spec fn ctrl_inner(&self) -> TCtrlInner {
        self.inner
    }

    open spec fn with_ctrl_inner(&self, i: TCtrlInner) -> Ctrl {
        BaseCtrl { inner: i, ..*self }
    }

    open spec fn ctrl_kind(&self) -> ECtrlType {
        ECtrlType::BaseCtrl
    }

    open spec fn ctrl_paint(&self, dpi: ScaleDpi) -> Seq<PaintOp> {
        frame_ops(self.inner, self.cur_style(), dpi)
    }

    fn get_inner(&self) -> (r: &TCtrlInner) {
        &self.inner
    }

    fn get_mut_inner(&mut self) -> (r: &mut TCtrlInner) {
        &mut self.inner
    }

    fn type_(&self) -> (r: ECtrlType) {
        ECtrlType::BaseCtrl
    }

    fn render(&self, dpi: &ScaleDpi) -> (r: Vec<PaintOp>) {
        self.inner.render(dpi, self.get_cur_style())
    }
}

/// A node of the control tree: one of the closed set of control kinds.
pub enum Control {
    Base(Ctrl),
    Container(Container),
    Text(Text),
    Button(Button),
}

impl Control {
    /// The shared geometry and identity record.
    pub open spec fn inner(self) -> TCtrlInner {
        match self {
            Control::Base(c) => c.inner,
            Control::Container(k) => k.ctrl.inner,
            Control::Text(t) => t.ctrl.inner,
            Control::Button(b) => b.ctrl.inner,
        }
    }

    /// The same control with its shared record replaced.
    pub open spec fn with_inner(self, i: TCtrlInner) -> Control {
        match self {
            Control::Base(c) => Control::Base(BaseCtrl { inner: i, ..c }),
            Control::Container(k) => Control::Container(
                Container { ctrl: BaseCtrl { inner: i, ..k.ctrl }, ..k },
            ),
            Control::Text(t) => Control::Text(Text { ctrl: BaseCtrl { inner: i, ..t.ctrl }, ..t }),
            Control::Button(b) => Control::Button(
                Button { ctrl: BaseCtrl { inner: i, ..b.ctrl }, ..b },
            ),
        }
    }

    /// The same control placed at `rc`.
    pub open spec fn with_rc(self, rc: IRect) -> Control {
        self.with_inner(TCtrlInner { real_rc: rc, ..self.inner() })
    }

    pub open spec fn kind(self) -> ECtrlType {
        match self {
            Control::Base(_) => ECtrlType::BaseCtrl,
            Control::Container(_) => ECtrlType::Container,
            Control::Text(_) => ECtrlType::Text,
            Control::Button(_) => ECtrlType::Button,
        }
    }

    pub fn get_inner(&self) -> (r: &TCtrlInner)
        ensures
            *r == self.inner(),
    {
        match self {
            Control::Base(c) => &c.inner,
            Control::Container(k) => &k.ctrl.inner,
            Control::Text(t) => &t.ctrl.inner,
            Control::Button(b) => &b.ctrl.inner,
        }
    }

    pub fn get_mut_inner(&mut self) -> (r: &mut TCtrlInner)
        ensures
            *r == old(self).inner(),
            *final(self) == old(self).with_inner(*final(r)),
    {
        match self {
            Control::Base(c) => &mut c.inner,
            Control::Container(k) => &mut k.ctrl.inner,
            Control::Text(t) => &mut t.ctrl.inner,
            Control::Button(b) => &mut b.ctrl.inner,
        }
    }

    /// Places the control at `rc`.
    pub fn set_real_rc(&mut self, rc: IRect)
        ensures
            *final(self) == old(self).with_rc(rc),
    {
        let inner = self.get_mut_inner();
        inner.real_rc = rc;
    }

    pub fn get_real_rc(&self) -> (r: &IRect)
        ensures
            *r == self.inner().real_rc,
    {
        &self.get_inner().real_rc
    }

    pub fn type_(&self) -> (r: ECtrlType)
        ensures
            r == self.kind(),
    {
        match self {
            Control::Base(_) => ECtrlType::BaseCtrl,
            Control::Container(_) => ECtrlType::Container,
            Control::Text(_) => ECtrlType::Text,
            Control::Button(_) => ECtrlType::Button,
        }
    }

    pub fn kind_name(&self) -> (r: &'static str)
        ensures
            self.kind() == ECtrlType::BaseCtrl ==> r@ == "BaseCtrl"@,
            self.kind() == ECtrlType::Container ==> r@ == "Container"@,
            self.kind() == ECtrlType::Text ==> r@ == "Text"@,
            self.kind() == ECtrlType::Button ==> r@ == "Button"@,
    {
        match self {
            Control::Base(_) => "BaseCtrl",
            Control::Container(_) => "Container",
            Control::Text(_) => "Text",
            Control::Button(_) => "Button",
        }
    }

    pub fn is_container(&self) -> (r: bool)
        ensures
            r == (self is Container),
    {
        match self {
            Control::Container(_) => true,
            _ => false,
        }
    }

    /// Renames the control.
    pub fn set_name(&mut self, name: &str) -> (r: &mut Control)
        ensures
            *r == old(self).with_inner(TCtrlInner { name: r.inner().name, ..old(self).inner() }),
            r.inner().name@ == name@,
            *final(self) == *final(r),
    {
        let inner = self.get_mut_inner();
        inner.name = name.to_owned();
        self
    }
}

} // verus!
