//! The composite control.
use crate::ui::layout::{content_rect, fits, lemma_arrange_fits, LayoutStrategy, TLayout};
use crate::ui::styles::StyleInner;
use crate::ui::ui_ctrl::{frame_ops, BaseCtrl, Control, Ctrl, PaintOp, TCtrl, TCtrlInner};
use crate::ui::ECtrlType;
use crate::ui::ui_text::{text_ops, Text};
use crate::utils::{
    contains, in_rc, lemma_scale_nonneg, IPoint, IRect, ISize, ScaleDpi, TScaleDpi, clamp_i64, sat,
};
use vstd::prelude::*;

verus! {

/// A control that owns an ordered sequence of children and places them with
/// its layout strategy. The last child added is the frontmost.
pub struct Container {
    pub ctrl: Ctrl,
    pub layout: LayoutStrategy,
    pub children: Vec<Control>,
}

// ---------------------------------------------------------------------------
// Tree measures

/// Number of controls in the subtree of `c`.
pub open spec fn ctrl_size(c: Control) -> nat
    decreases c,
{
    match c {
        Control::Container(k) => 1 + kids_size(k.children@),
        _ => 1,
    }
}

/// Number of controls in the subtrees of `kids`.
pub open spec fn kids_size(kids: Seq<Control>) -> nat
    decreases kids,
{
    if kids.len() == 0 {
        0
    } else {
        kids_size(kids.drop_last()) + ctrl_size(kids.last())
    }
}

pub proof fn lemma_kid_size(kids: Seq<Control>, i: int)
    requires
        0 <= i < kids.len(),
    ensures
        ctrl_size(kids[i]) <= kids_size(kids),
    decreases kids.len(),
{
    if i < kids.len() - 1 {
        lemma_kid_size(kids.drop_last(), i);
    }
}

// ---------------------------------------------------------------------------
// Lookup by name

/// The indices that lead from `kids` to the first control named `name`,
/// trying children from the last added to the first, each one before its
/// own descendants.
pub open spec fn name_path(kids: Seq<Control>, name: Seq<char>) -> Option<Seq<int>>
    decreases kids,
{
    if kids.len() == 0 {
        None
    } else {
        let i = kids.len() - 1;
        if kids[i].inner().name@ == name {
            Some(seq![i])
        } else {
            match name_path_below(kids[i], name) {
                Some(p) => Some(seq![i] + p),
                None => name_path(kids.drop_last(), name),
            }
        }
    }
}

/// The path to a control named `name` strictly below `c`.
pub open spec fn name_path_below(c: Control, name: Seq<char>) -> Option<Seq<int>>
    decreases c,
{
    match c {
        Control::Container(k) => name_path(k.children@, name),
        _ => None,
    }
}

/// The control that `path` leads to from `kids`.
pub open spec fn at_path(kids: Seq<Control>, path: Seq<int>) -> Control
    decreases path.len(),
{
    if path.len() <= 1 {
        kids[path[0]]
    } else {
        at_path(kids[path[0]]->Container_0.children@, path.drop_first())
    }
}

/// `path` leads from `kids` through containers to an existing control.
pub open spec fn valid_path(kids: Seq<Control>, path: Seq<int>) -> bool
    decreases path.len(),
{
    &&& path.len() >= 1
    &&& 0 <= path[0] < kids.len()
    &&& path.len() > 1 ==> kids[path[0]] is Container && valid_path(
        kids[path[0]]->Container_0.children@,
        path.drop_first(),
    )
}

/// `new` is `old` with the control at `path` replaced by `c`.
pub open spec fn replaced_at(old: Seq<Control>, new: Seq<Control>, path: Seq<int>, c: Control) -> bool
    decreases path.len(),
{
    &&& path.len() >= 1
    &&& new.len() == old.len()
    &&& 0 <= path[0] < old.len()
    &&& forall|j: int| 0 <= j < old.len() && j != path[0] ==> #[trigger] new[j] == old[j]
    &&& if path.len() == 1 {
        new[path[0]] == c
    } else {
        &&& old[path[0]] is Container
        &&& new[path[0]] is Container
        &&& new[path[0]]->Container_0.ctrl == old[path[0]]->Container_0.ctrl
        &&& new[path[0]]->Container_0.layout == old[path[0]]->Container_0.layout
        &&& replaced_at(
            old[path[0]]->Container_0.children@,
            new[path[0]]->Container_0.children@,
            path.drop_first(),
            c,
        )
    }
}

// ---------------------------------------------------------------------------
// Hit-testing

/// The frontmost control under `pt` among `kids` and their descendants:
/// the last added child whose non-degenerate rectangle holds `pt`, or, if
/// that child is a container, what is hit inside it, or else the container.
pub open spec fn hit_in(kids: Seq<Control>, pt: IPoint) -> Option<Control>
    decreases kids,
{
    if kids.len() == 0 {
        None
    } else {
        let c = kids.last();
        if !c.inner().real_rc.degenerate() && contains(c.inner().real_rc, pt) {
            match hit_below(c, pt) {
                Some(x) => Some(x),
                None => Some(c),
            }
        } else {
            hit_in(kids.drop_last(), pt)
        }
    }
}

pub open spec fn hit_below(c: Control, pt: IPoint) -> Option<Control>
    decreases c,
{
    match c {
        Control::Container(k) => hit_in(k.children@, pt),
        _ => None,
    }
}

// ---------------------------------------------------------------------------
// Update

/// `new` is `old` after a layout pass that first places `old` at `rc`:
/// its children are placed by its strategy, then each updated in turn.
pub open spec fn container_updated(old: Container, rc: IRect, new: Container, dpi: ScaleDpi) -> bool
    decreases old,
{
    let rects = old.layout.arrange(
        content_rect(rc, old.ctrl.inner.padding, dpi),
        old.children@,
        dpi,
    );
    &&& new.ctrl == (BaseCtrl { inner: TCtrlInner { real_rc: rc, ..old.ctrl.inner }, ..old.ctrl })
    &&& new.layout == old.layout
    &&& new.children@.len() == old.children@.len()
    &&& forall|i: int|
        0 <= i < old.children@.len() ==> control_updated(
            #[trigger] old.children@[i],
            rects[i],
            new.children@[i],
            dpi,
        )
}

/// `new` is `old` placed at `rc` and, if a container, laid out again.
pub open spec fn control_updated(old: Control, rc: IRect, new: Control, dpi: ScaleDpi) -> bool
    decreases old,
{
    match old {
        Control::Container(k) => new is Container && container_updated(
            k,
            rc,
            new->Container_0,
            dpi,
        ),
        _ => new == old.with_rc(rc),
    }
}

// ---------------------------------------------------------------------------
// Window, DPI and painting

/// The integer paths of a path held as indices.
pub open spec fn path_ints(p: Seq<usize>) -> Seq<int> {
    p.map_values(|x: usize| x as int)
}

/// The rectangle of a root container in a window of `size` pixels: the
/// whole window less the scaled margin.
pub open spec fn window_rect(size: ISize, margin: Option<IRect>, dpi: ScaleDpi) -> IRect {
    match margin {
        Some(m) => {
            let s = m.scale_spec(dpi);
            IRect {
                left: s.left,
                top: s.top,
                right: sat(size.width - s.right) as i32,
                bottom: sat(size.height - s.bottom) as i32,
            }
        },
        None => IRect { left: 0, top: 0, right: size.width, bottom: size.height },
    }
}

/// `new` is `old` after a DPI change: every text below it has its font sized
/// for `dpi`; nothing else changes.
pub open spec fn container_rescaled(old: Container, new: Container, dpi: ScaleDpi) -> bool
    decreases old,
{
    &&& new.ctrl == old.ctrl
    &&& new.layout == old.layout
    &&& new.children@.len() == old.children@.len()
    &&& forall|i: int|
        0 <= i < old.children@.len() ==> control_rescaled(
            #[trigger] old.children@[i],
            new.children@[i],
            dpi,
        )
}

pub open spec fn control_rescaled(old: Control, new: Control, dpi: ScaleDpi) -> bool
    decreases old,
{
    match old {
        Control::Text(t) => new == Control::Text(Text { dpi_cache: dpi, ..t }),
        Control::Container(k) => new is Container && container_rescaled(k, new->Container_0, dpi),
        _ => new == old,
    }
}

/// What a control and everything below it paint, back to front.
pub open spec fn ctrl_ops(c: Control, dpi: ScaleDpi) -> Seq<PaintOp>
    decreases c,
{
    match c {
        Control::Base(b) => frame_ops(b.inner, b.cur_style(), dpi),
        Control::Button(b) => frame_ops(b.ctrl.inner, b.ctrl.cur_style().base, dpi),
        Control::Text(t) => text_ops(t, dpi),
        Control::Container(k) => if k.ctrl.inner.real_rc.degenerate() {
            seq![]
        } else {
            frame_ops(k.ctrl.inner, k.ctrl.cur_style(), dpi) + kids_ops(k.children@, dpi)
        },
    }
}

/// What `kids` paint, the first added first.
pub open spec fn kids_ops(kids: Seq<Control>, dpi: ScaleDpi) -> Seq<PaintOp>
    decreases kids,
{
    if kids.len() == 0 {
        seq![]
    } else {
        kids_ops(kids.drop_last(), dpi) + ctrl_ops(kids.last(), dpi)
    }
}

// ---------------------------------------------------------------------------
// Search helpers

proof fn lemma_name_path_valid(kids: Seq<Control>, name: Seq<char>)
    ensures
        name_path(kids, name) matches Some(p) ==> valid_path(kids, p) && at_path(kids, p).inner().name@
            == name,
    decreases kids,
{
    if kids.len() > 0 {
        let i = kids.len() - 1;
        if kids[i].inner().name@ == name {
            assert(valid_path(kids, seq![i]));
        } else {
            let below = name_path_below(kids[i], name);
            match kids[i] {
                Control::Container(k) => {
                    lemma_name_path_valid(k.children@, name);
                    match name_path(k.children@, name) {
                        Some(p) => {
                            let q = seq![i] + p;
                            assert(q.drop_first() =~= p);
                            assert(q[0] == i);
                            assert(valid_path(kids, q));
                            assert(at_path(kids, q) == at_path(k.children@, p));
                        },
                        None => {},
                    }
                },
                _ => {},
            }
            if below is None {
                let rest = kids.drop_last();
                lemma_name_path_valid(rest, name);
                match name_path(rest, name) {
                    Some(p) => {
                        assert(rest[p[0]] == kids[p[0]]);
                        assert(valid_path(kids, p));
                        assert(at_path(kids, p) == at_path(rest, p));
                    },
                    None => {},
                }
            }
        }
    }
}

/// The path, in indices, to the first control named `name` below `kids`.
fn path_in(kids: &Vec<Control>, name: &String) -> (r: Option<Vec<usize>>)
    ensures
        name_path(kids@, name@) is None ==> r is None,
        name_path(kids@, name@) matches Some(p) ==> r is Some && path_ints(r->0@) == p,
    decreases kids_size(kids@),
{
    let mut i = kids.len();
    assert(kids@.take(i as int) =~= kids@);
    while i > 0
        invariant
            i <= kids@.len(),
            name_path(kids@, name@) == name_path(kids@.take(i as int), name@),
        decreases i,
    {
        let ghost pre = kids@.take(i as int);
        assert(pre.drop_last() =~= kids@.take(i - 1));
        assert(pre.last() == kids@[i - 1]);
        let c = &kids[i - 1];
        if c.get_inner().name == *name {
            let v = vec![i - 1];
            assert(path_ints(v@) =~= seq![(i - 1) as int]);
            return Some(v);
        }
        match c {
            Control::Container(k) => {
                proof {
                    lemma_kid_size(kids@, i - 1);
                }
                assert(name_path_below(kids@[i - 1], name@) == name_path(k.children@, name@));
                assert(name_path(pre, name@) == match name_path(k.children@, name@) {
                    Some(p) => Some(seq![(i - 1) as int] + p),
                    None => name_path(pre.drop_last(), name@),
                });
                let sub = path_in(&k.children, name);
                match sub {
                    Some(mut tail) => {
                        let mut v = vec![i - 1];
                        v.append(&mut tail);
                        assert(path_ints(v@) =~= seq![(i - 1) as int] + name_path(k.children@, name@)->0);
                        return Some(v);
                    },
                    None => {},
                }
            },
            _ => {},
        }
        i -= 1;
    }
    None
}

/// The control that `path[k..]` leads to from `kids`.
fn descend<'a>(kids: &'a Vec<Control>, path: &Vec<usize>, k: usize) -> (r: &'a Control)
    requires
        k < path@.len(),
        valid_path(kids@, path_ints(path@).skip(k as int)),
    ensures
        *r == at_path(kids@, path_ints(path@).skip(k as int)),
    decreases path@.len() - k,
{
    let ghost p = path_ints(path@).skip(k as int);
    let i = path[k];
    assert(p[0] == i);
    let len = path.len();
    if k + 1 == len {
        &kids[i]
    } else {
        assert(p.drop_first() =~= path_ints(path@).skip(k + 1));
        match &kids[i] {
            Control::Container(c) => descend(&c.children, path, k + 1),
            other => other,
        }
    }
}

/// A mutable reference to the control that `path[k..]` leads to from `kids`.
fn descend_mut<'a>(kids: &'a mut Vec<Control>, path: &Vec<usize>, k: usize) -> (r: &'a mut Control)
    requires
        k < path@.len(),
        valid_path(old(kids)@, path_ints(path@).skip(k as int)),
    ensures
        *r == at_path(old(kids)@, path_ints(path@).skip(k as int)),
        replaced_at(old(kids)@, final(kids)@, path_ints(path@).skip(k as int), *final(r)),
    decreases path@.len() - k,
{
    let ghost p = path_ints(path@).skip(k as int);
    let i = path[k];
    assert(p[0] == i);
    let len = path.len();
    if k + 1 == len {
        &mut kids[i]
    } else {
        assert(p.drop_first() =~= path_ints(path@).skip(k + 1));
        match &mut kids[i] {
            Control::Container(c) => descend_mut(&mut c.children, path, k + 1),
            other => other,
        }
    }
}

/// The frontmost control under `pt` among `kids` and their descendants.
fn hit_in_kids<'a>(kids: &'a Vec<Control>, pt: &IPoint) -> (r: Option<&'a Control>)
    ensures
        hit_in(kids@, *pt) is None ==> r is None,
        hit_in(kids@, *pt) matches Some(c) ==> r is Some && *r->0 == c,
    decreases kids_size(kids@),
{
    let mut i = kids.len();
    assert(kids@.take(i as int) =~= kids@);
    while i > 0
        invariant
            i <= kids@.len(),
            hit_in(kids@, *pt) == hit_in(kids@.take(i as int), *pt),
        decreases i,
    {
        let ghost pre = kids@.take(i as int);
        assert(pre.drop_last() =~= kids@.take(i - 1));
        assert(pre.last() == kids@[i - 1]);
        let c = &kids[i - 1];
        if !c.get_inner().empty_paint() && in_rc(&c.get_inner().real_rc, pt) {
            match c {
                Control::Container(k) => {
                    proof {
                        lemma_kid_size(kids@, i - 1);
                    }
                    assert(hit_below(kids@[i - 1], *pt) == hit_in(k.children@, *pt));
                    assert(hit_in(pre, *pt) == match hit_in(k.children@, *pt) {
                        Some(x) => Some(x),
                        None => Some(kids@[i - 1]),
                    });
                    let below = hit_in_kids(&k.children, pt);
                    if below.is_some() {
                        return below;
                    }
                    return Some(c);
                },
                _ => {
                    return Some(c);
                },
            }
        }
        i -= 1;
    }
    None
}

impl Container {
    pub fn new(layout: LayoutStrategy) -> (r: Container)
        ensures
            r.ctrl.inner.name@ == Seq::<char>::empty(),
            r.ctrl.inner.real_rc == IRect::zero(),
            r.ctrl.inner.padding is None,
            r.ctrl.inner.margin is None,
            r.ctrl.styles.default == (StyleInner { bg_color: None, border_color: None }),
            r.ctrl.styles.hover is None,
            r.ctrl.styles.press is None,
            r.ctrl.styles.disable is None,
            r.layout == layout,
            r.children@ == Seq::<Control>::empty(),
    {
        Container { ctrl: BaseCtrl::new(StyleInner::new()), layout, children: Vec::new() }
    }

    /// Sizes a root container to a window of `window_size` pixels.
    pub fn update_self(&mut self, window_size: ISize, dpi: &ScaleDpi)
        ensures
            *final(self) == (Container {
                ctrl: BaseCtrl {
                    inner: TCtrlInner {
                        real_rc: window_rect(window_size, old(self).ctrl.inner.margin, *dpi),
                        ..old(self).ctrl.inner
                    },
                    ..old(self).ctrl
                },
                ..*old(self)
            }),
    {
        self.ctrl.inner.real_rc = match self.ctrl.inner.margin {
            Some(margin) => {
                let m = dpi.scale(margin);
                IRect::new(
                    m.left,
                    m.top,
                    clamp_i64(window_size.width as i64 - m.right as i64),
                    clamp_i64(window_size.height as i64 - m.bottom as i64),
                )
            },
            None => IRect::new(0, 0, window_size.width, window_size.height),
        };
    }

    pub fn get_children(&self) -> (r: &Vec<Control>)
        ensures
            r@ == self.children@,
    {
        &self.children
    }

    pub fn get_mut_children(&mut self) -> (r: &mut Vec<Control>)
        ensures
            r@ == old(self).children@,
            final(self).ctrl == old(self).ctrl,
            final(self).layout == old(self).layout,
            final(self).children@ == final(r)@,
    {
        &mut self.children
    }

    /// Adds `c` after the existing children, so that it is painted last.
    pub fn append_child(&mut self, c: Control)
        ensures
            final(self).ctrl == old(self).ctrl,
            final(self).layout == old(self).layout,
            final(self).children@ == old(self).children@.push(c),
    {
        self.children.push(c);
    }

    /// The first control named `name` below this container, searching
    /// children from the last added to the first, each one before its own
    /// descendants.
    pub fn get_ctrl_by_name(&self, name: &str) -> (r: Option<&Control>)
        ensures
            name_path(self.children@, name@) is None ==> r is None,
            name_path(self.children@, name@) matches Some(p) ==> r is Some && *r->0 == at_path(
                self.children@,
                p,
            ),
    {
        let key = name.to_owned();
        proof {
            lemma_name_path_valid(self.children@, name@);
        }
        match path_in(&self.children, &key) {
            None => None,
            Some(path) => {
                assert(path_ints(path@).skip(0) =~= path_ints(path@));
                Some(descend(&self.children, &path, 0))
            },
        }
    }

    /// The same search as `get_ctrl_by_name`, giving mutable access.
    pub fn get_mut_ctrl_by_name(&mut self, name: &str) -> (r: Option<&mut Control>)
        ensures
            name_path(old(self).children@, name@) is None ==> r is None && *final(self) == *old(
                self,
            ),
            name_path(old(self).children@, name@) matches Some(p) ==> {
                &&& r is Some
                &&& *r->0 == at_path(old(self).children@, p)
                &&& final(self).ctrl == old(self).ctrl
                &&& final(self).layout == old(self).layout
                &&& replaced_at(old(self).children@, final(self).children@, p, *final(r->0))
            },
    {
        let key = name.to_owned();
        proof {
            lemma_name_path_valid(self.children@, name@);
        }
        match path_in(&self.children, &key) {
            None => None,
            Some(path) => {
                assert(path_ints(path@).skip(0) =~= path_ints(path@));
                Some(descend_mut(&mut self.children, &path, 0))
            },
        }
    }

    /// The record of the frontmost control under `point` (in pixels), or of
    /// this container when no child is hit: the container is the background
    /// that catches every point that falls on no child.
    pub fn hit_test(&self, point: &IPoint) -> (r: &TCtrlInner)
        ensures
            hit_in(self.children@, *point) is None ==> *r == self.ctrl.inner,
            hit_in(self.children@, *point) matches Some(c) ==> *r == c.inner(),
    {
        match hit_in_kids(&self.children, point) {
            Some(c) => c.get_inner(),
            None => &self.ctrl.inner,
        }
    }

    pub fn get_ctrl_by_pos(&self, point: &IPoint) -> (r: Option<&Control>)
        ensures
            hit_in(self.children@, *point) is None ==> r is None,
            hit_in(self.children@, *point) matches Some(c) ==> r is Some && *r->0 == c,
    {
        hit_in_kids(&self.children, point)
    }

    /// Places child `i` at `rc`.
    pub fn set_child_rc(&mut self, i: usize, rc: IRect)
        requires
            i < old(self).children.len(),
        ensures
            final(self).ctrl == old(self).ctrl,
            final(self).layout == old(self).layout,
            final(self).children@ == old(self).children@.update(
                i as int,
                old(self).children@[i as int].with_rc(rc),
            ),
    {
        self.children[i].set_real_rc(rc);
    }

    /// Lays the children out from this container's current rectangle, then
    /// lets each child container lay out its own children.
    pub fn update(&mut self, dpi: &ScaleDpi)
        ensures
            container_updated(*old(self), old(self).ctrl.inner.real_rc, *final(self), *dpi),
        decreases kids_size(old(self).children@),
    {
        let ghost start = *self;
        let ghost rects = start.layout.arrange(
            content_rect(start.ctrl.inner.real_rc, start.ctrl.inner.padding, *dpi),
            start.children@,
            *dpi,
        );
        let layout = self.layout;
        layout.update(self, dpi);
        let ghost mid = *self;
        assert(rects.len() == start.children@.len());
        let n = self.children.len();
        let mut i: usize = 0;
        while i < n
            invariant
                n == start.children@.len(),
                0 <= i <= n,
                start == *old(self),
                self.ctrl == start.ctrl,
                self.layout == start.layout,
                mid.children@.len() == n,
                rects.len() == n,
                self.children@.len() == n,
                forall|j: int| 0 <= j < n ==> #[trigger] mid.children@[j] == start.children@[j].with_rc(rects[j]),
                forall|j: int| i <= j < n ==> #[trigger] self.children@[j] == mid.children@[j],
                forall|j: int|
                    0 <= j < i ==> control_updated(
                        #[trigger] start.children@[j],
                        rects[j],
                        self.children@[j],
                        *dpi,
                    ),
            decreases n - i,
        {
            proof {
                lemma_kid_size(start.children@, i as int);
            }
            let ghost before = self.children@;
            match &mut self.children[i] {
                Control::Container(k) => {
                    proof {
                        let orig = start.children@[i as int];
                        assert(orig is Container);
                        assert(k.children == orig->Container_0.children);
                        assert(ctrl_size(orig) == 1 + kids_size(orig->Container_0.children@));
                    }
                    k.update(dpi);
                },
                _ => {},
            }
            proof {
                let j = i as int;
                assert(forall|m: int| 0 <= m < n && m != j ==> self.children@[m] == before[m]);
            }
            i += 1;
        }
        proof {
            assert(start.ctrl == (BaseCtrl {
                inner: TCtrlInner { real_rc: start.ctrl.inner.real_rc, ..start.ctrl.inner },
                ..start.ctrl
            }));
        }
    }

    /// Sizes the fonts of every text below this container for `dpi`.
    pub fn update_dpi(&mut self, dpi: &ScaleDpi)
        ensures
            container_rescaled(*old(self), *final(self), *dpi),
        decreases kids_size(old(self).children@),
    {
        let ghost start = *self;
        let n = self.children.len();
        let mut i: usize = 0;
        while i < n
            invariant
                n == start.children@.len(),
                0 <= i <= n,
                start == *old(self),
                self.ctrl == start.ctrl,
                self.layout == start.layout,
                self.children@.len() == n,
                forall|j: int| i <= j < n ==> #[trigger] self.children@[j] == start.children@[j],
                forall|j: int|
                    0 <= j < i ==> control_rescaled(
                        #[trigger] start.children@[j],
                        self.children@[j],
                        *dpi,
                    ),
            decreases n - i,
        {
            proof {
                lemma_kid_size(start.children@, i as int);
            }
            let ghost before = self.children@;
            match &mut self.children[i] {
                Control::Container(k) => {
                    proof {
                        let orig = start.children@[i as int];
                        assert(ctrl_size(orig) == 1 + kids_size(orig->Container_0.children@));
                    }
                    k.update_dpi(dpi);
                },
                Control::Text(t) => {
                    t.update_dpi(dpi);
                },
                _ => {},
            }
            proof {
                let j = i as int;
                assert(forall|m: int| 0 <= m < n && m != j ==> self.children@[m] == before[m]);
            }
            i += 1;
        }
    }

    /// Paints the container, then its children in the order they were
    /// added; nothing when its rectangle is degenerate.
    pub fn render(&self, dpi: &ScaleDpi) -> (r: Vec<PaintOp>)
        ensures
            r@ == ctrl_ops(Control::Container(*self), *dpi),
        decreases self,
    {
        if self.ctrl.inner.empty_paint() {
            return Vec::new();
        }
        let mut ops = self.ctrl.inner.render(dpi, self.ctrl.get_cur_style());
        let ghost own = ops@;
        let n = self.children.len();
        let mut i: usize = 0;
        while i < n
            invariant
                n == self.children@.len(),
                0 <= i <= n,
                ops@ == own + kids_ops(self.children@.take(i as int), *dpi),
            decreases n - i,
        {
            proof {
                assert(self.children@.take(i + 1).drop_last() =~= self.children@.take(i as int));
                assert(self.children@.take(i + 1).last() == self.children@[i as int]);
                assert(decreases_to!(*self => self.children@[i as int]));
            }
            let mut sub = self.children[i].render(dpi);
            ops.append(&mut sub);
            proof {
                assert(own + kids_ops(self.children@.take(i + 1), *dpi) =~= own + kids_ops(
                    self.children@.take(i as int),
                    *dpi,
                ) + ctrl_ops(self.children@[i as int], *dpi));
            }
            i += 1;
        }
        assert(self.children@.take(n as int) =~= self.children@);
        ops
    }
}

impl Control {
    /// Lays out the control's subtree (only containers have one).
    pub fn update(&mut self, dpi: &ScaleDpi)
        ensures
            control_updated(*old(self), old(self).inner().real_rc, *final(self), *dpi),
    {
        match self {
            Control::Container(k) => k.update(dpi),
            _ => {},
        }
        proof {
            assert(old(self).with_rc(old(self).inner().real_rc) == *old(self));
        }
    }

    /// Propagates a new DPI factor into the control's subtree.
    pub fn update_dpi(&mut self, dpi: &ScaleDpi)
        ensures
            control_rescaled(*old(self), *final(self), *dpi),
    {
        match self {
            Control::Container(k) => k.update_dpi(dpi),
            Control::Text(t) => t.update_dpi(dpi),
            _ => {},
        }
    }

    /// The drawing commands for the control and everything below it.
    pub fn render(&self, dpi: &ScaleDpi) -> (r: Vec<PaintOp>)
        ensures
            r@ == ctrl_ops(*self, *dpi),
        decreases self,
    {
        match self {
            Control::Base(b) => b.inner.render(dpi, b.get_cur_style()),
            Control::Container(k) => k.render(dpi),
            Control::Text(t) => t.render(dpi),
            Control::Button(b) => b.render(dpi),
        }
    }

    /// The style that the control has for `status`, if any.
    pub fn get_style(&self, status: crate::ui::styles::EUIStatus) -> (r: Option<&StyleInner>)
        ensures
            style_of(*self, status) is None ==> r is None,
            style_of(*self, status) matches Some(st) ==> r is Some && *r->0 == st,
    {
        match self {
            Control::Base(b) => b.styles.get_inner_style(status),
            Control::Container(k) => k.ctrl.styles.get_inner_style(status),
            Control::Text(t) => t.ctrl.styles.get_inner_style(status),
            Control::Button(b) => b.ctrl.styles.get_inner_style(status),
        }
    }

    /// Mutable access to the style that the control has for `status`, if any.
    pub fn get_mut_style(&mut self, status: crate::ui::styles::EUIStatus) -> (r: Option<&mut StyleInner>)
        ensures
            style_of(*old(self), status) is None ==> r is None && *final(self) == *old(self),
            style_of(*old(self), status) matches Some(st) ==> {
                &&& r is Some
                &&& *r->0 == st
                &&& *final(self) == with_style_of(*old(self), status, *final(r->0))
            },
    {
        match self {
            Control::Base(b) => b.styles.get_mut_inner_style(status),
            Control::Container(k) => k.ctrl.styles.get_mut_inner_style(status),
            Control::Text(t) => t.ctrl.styles.get_mut_inner_style(status),
            Control::Button(b) => b.ctrl.styles.get_mut_inner_style(status),
        }
    }
}

/// `c` with the common part of its style for `status` replaced by `st`;
/// meaningful where `c` has a style for `status`.
pub open spec fn with_style_of(c: Control, status: crate::ui::styles::EUIStatus, st: StyleInner) -> Control {
    match c {
        Control::Base(b) => Control::Base(
            BaseCtrl { styles: b.styles.with_style(status, st), ..b },
        ),
        Control::Container(k) => Control::Container(
            Container { ctrl: BaseCtrl { styles: k.ctrl.styles.with_style(status, st), ..k.ctrl }, ..k },
        ),
        Control::Text(t) => Control::Text(
            Text {
                ctrl: BaseCtrl {
                    styles: t.ctrl.styles.with_style(
                        status,
                        crate::ui::ui_text::TextStyle { base: st, ..t.ctrl.styles.style_for(status)->0 },
                    ),
                    ..t.ctrl
                },
                ..t
            },
        ),
        Control::Button(b) => Control::Button(
            crate::ui::ui_button::Button {
                ctrl: BaseCtrl {
                    styles: b.ctrl.styles.with_style(status, crate::ui::ui_button::ButtonStyle { base: st }),
                    ..b.ctrl
                },
                ..b
            },
        ),
    }
}

/// The common style attributes that `c` has for `status`, if any.
pub open spec fn style_of(c: Control, status: crate::ui::styles::EUIStatus) -> Option<StyleInner> {
    match c {
        Control::Base(b) => b.styles.style_for(status),
        Control::Container(k) => k.ctrl.styles.style_for(status),
        Control::Text(t) => match t.ctrl.styles.style_for(status) {
            Some(s) => Some(s.base),
            None => None,
        },
        Control::Button(b) => match b.ctrl.styles.style_for(status) {
            Some(s) => Some(s.base),
            None => None,
        },
    }
}

impl TCtrl for Container {
    open spec fn ctrl_inner(&self) -> TCtrlInner {
        self.ctrl.inner
    }

    open spec fn with_ctrl_inner(&self, i: TCtrlInner) -> Container {
        Container { ctrl: BaseCtrl { inner: i, ..self.ctrl }, ..*self }
    }

    open spec fn ctrl_kind(&self) -> ECtrlType {
        ECtrlType::Container
    }

    open spec fn ctrl_paint(&self, dpi: ScaleDpi) -> Seq<PaintOp> {
        ctrl_ops(Control::Container(*self), dpi)
    }

    fn get_inner(&self) -> (r: &TCtrlInner) {
        &self.ctrl.inner
    }

    fn get_mut_inner(&mut self) -> (r: &mut TCtrlInner) {
        &mut self.ctrl.inner
    }

    fn type_(&self) -> (r: ECtrlType) {
        ECtrlType::Container
    }

    fn render(&self, dpi: &ScaleDpi) -> (r: Vec<PaintOp>) {
        Container::render(self, dpi)
    }
}

impl TCtrl for Control {
    open spec fn ctrl_inner(&self) -> TCtrlInner {
        self.inner()
    }

    open spec fn with_ctrl_inner(&self, i: TCtrlInner) -> Control {
        self.with_inner(i)
    }

    open spec fn ctrl_kind(&self) -> ECtrlType {
        self.kind()
    }

    open spec fn ctrl_paint(&self, dpi: ScaleDpi) -> Seq<PaintOp> {
        ctrl_ops(*self, dpi)
    }

    fn get_inner(&self) -> (r: &TCtrlInner) {
        Control::get_inner(self)
    }

    fn get_mut_inner(&mut self) -> (r: &mut TCtrlInner) {
        Control::get_mut_inner(self)
    }

    fn type_(&self) -> (r: ECtrlType) {
        Control::type_(self)
    }

    fn render(&self, dpi: &ScaleDpi) -> (r: Vec<PaintOp>) {
        Control::render(self, dpi)
    }
}

// ---------------------------------------------------------------------------
// Laws

/// After an update every child of a container is the zero rectangle or lies
/// within the container's content rectangle. Horizontal and vertical layouts
/// also keep it within the content rectangle less the child's own scaled
/// margin; table and absolute layouts do not apply margins, so for them that
/// holds of the children without one. `rc` is where the container itself was
/// placed, so the law holds of every container in an updated tree.
pub proof fn lemma_update_fits(old: Container, rc: IRect, new: Container, dpi: ScaleDpi)
    requires
        container_updated(old, rc, new, dpi),
    ensures
        new.ctrl.inner.real_rc == rc,
        forall|i: int|
            0 <= i < old.children@.len() ==> {
                let content = content_rect(rc, old.ctrl.inner.padding, dpi);
                let margin = old.children@[i].inner().margin;
                let placed = #[trigger] new.children@[i].inner().real_rc;
                &&& (old.layout is Horizontal || old.layout is Vertical || margin is None) ==> fits(
                    placed,
                    content,
                    margin,
                    dpi,
                )
                &&& (old.layout is Table || old.layout is Absolute) ==> fits(placed, content, None, dpi)
            },
{
    let content = content_rect(rc, old.ctrl.inner.padding, dpi);
    let rects = old.layout.arrange(content, old.children@, dpi);
    lemma_arrange_fits(old.layout, content, old.children@, dpi);
    assert forall|i: int| 0 <= i < old.children@.len() implies new.children@[i].inner().real_rc
        == rects[i] by {
        assert(control_updated(old.children@[i], rects[i], new.children@[i], dpi));
        assert(rects[i] == old.layout.arrange(content, old.children@, dpi)[i]);
    }
}

/// Every edge of the padding of every container in the subtree of `c` is
/// absent or not negative.
pub open spec fn paddings_nonneg(c: Control) -> bool
    decreases c,
{
    match c {
        Control::Container(k) => {
            &&& (k.ctrl.inner.padding matches Some(p) ==> p.left >= 0 && p.top >= 0 && p.right >= 0
                && p.bottom >= 0)
            &&& forall|i: int|
                0 <= i < k.children@.len() ==> paddings_nonneg(#[trigger] k.children@[i])
        },
        _ => true,
    }
}

/// `c` and everything below it sit at the zero rectangle.
pub open spec fn subtree_zero(c: Control) -> bool
    decreases c,
{
    &&& c.inner().real_rc == IRect::zero()
    &&& match c {
        Control::Container(k) => forall|i: int|
            0 <= i < k.children@.len() ==> subtree_zero(#[trigger] k.children@[i]),
        _ => true,
    }
}

/// When the content rectangle of a container is degenerate (its padding
/// swallows it, say), an update places every child at the zero rectangle,
/// whatever the strategy. Below a child container placed there, a padding
/// with no negative edge leaves no room either, so the whole subtree ends at
/// the zero rectangle; a negative padding would open room again.
pub proof fn lemma_degenerate_content_zeroes(old: Container, rc: IRect, new: Container, dpi: ScaleDpi)
    requires
        container_updated(old, rc, new, dpi),
        content_rect(rc, old.ctrl.inner.padding, dpi).degenerate(),
        dpi.factor_num() > 0,
        dpi.factor_den() > 0,
    ensures
        forall|i: int| 0 <= i < old.children@.len() ==> (#[trigger] new.children@[i]).inner().real_rc
            == IRect::zero(),
        forall|i: int|
            0 <= i < old.children@.len() && paddings_nonneg(#[trigger] old.children@[i])
                ==> subtree_zero(new.children@[i]),
    decreases old,
{
    let content = content_rect(rc, old.ctrl.inner.padding, dpi);
    let rects = old.layout.arrange(content, old.children@, dpi);
    lemma_arrange_fits(old.layout, content, old.children@, dpi);
    assert forall|i: int| 0 <= i < old.children@.len() implies rects[i] == IRect::zero() by {
        assert(rects[i] == old.layout.arrange(content, old.children@, dpi)[i]);
    }
    assert forall|i: int| 0 <= i < old.children@.len() implies (#[trigger] new.children@[i]).inner().real_rc
        == IRect::zero() && (paddings_nonneg(old.children@[i]) ==> subtree_zero(new.children@[i])) by {
        let c = old.children@[i];
        assert(control_updated(c, rects[i], new.children@[i], dpi));
        if let Control::Container(k) = c {
            let nk = new.children@[i]->Container_0;
            assert(decreases_to!(old => k)) by {
                assert(decreases_to!(old => old.children));
                assert(decreases_to!(old.children => old.children@));
                assert(decreases_to!(old.children@ => old.children@[i]));
            }
            if paddings_nonneg(c) {
                let inner_content = content_rect(IRect::zero(), k.ctrl.inner.padding, dpi);
                match k.ctrl.inner.padding {
                    Some(p) => {
                        lemma_scale_nonneg(dpi, p.left as int);
                        lemma_scale_nonneg(dpi, p.right as int);
                        lemma_scale_nonneg(dpi, p.top as int);
                        lemma_scale_nonneg(dpi, p.bottom as int);
                    },
                    None => {},
                }
                assert(inner_content.degenerate());
                lemma_degenerate_content_zeroes(k, IRect::zero(), nk, dpi);
                assert forall|m: int| 0 <= m < nk.children@.len() implies subtree_zero(
                    #[trigger] nk.children@[m],
                ) by {
                    assert(paddings_nonneg(k.children@[m]));
                }
            }
        }
    }
}

/// Of children that share a name, the last added is found: when child `i`
/// is named `name` and no later child, nor anything below one, is, the
/// search ends at child `i`.
pub proof fn lemma_last_added_wins(kids: Seq<Control>, i: int, name: Seq<char>)
    requires
        0 <= i < kids.len(),
        kids[i].inner().name@ == name,
        forall|j: int|
            i < j < kids.len() ==> (#[trigger] kids[j]).inner().name@ != name && name_path_below(
                kids[j],
                name,
            ) is None,
    ensures
        name_path(kids, name) == Some(seq![i]),
    decreases kids.len(),
{
    if i < kids.len() - 1 {
        let rest = kids.drop_last();
        assert(kids[kids.len() - 1] == kids.last());
        lemma_last_added_wins(rest, i, name);
    }
}

/// Hit-testing reads the tree and the point and nothing else: asked twice
/// of the same children and point it gives the same control.
pub proof fn lemma_hit_test_stable(a: Container, b: Container, pt: IPoint)
    requires
        a.children@ == b.children@,
    ensures
        hit_in(a.children@, pt) == hit_in(b.children@, pt),
{
}

} // verus!
