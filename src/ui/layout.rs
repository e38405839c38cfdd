//! Layout strategies: from a container's content rectangle and its
//! children's hints to a rectangle for each child.
use crate::ui::ui_container::Container;
use crate::ui::ui_ctrl::{Control, TCtrlInner};
use crate::utils::{
    clip_rect, or_default, sat, trunc_div, IPointOpt, IRect, ISizeOpt, ScaleDpi, TScaleDpi,
    cal_real_rc, clamp_i64, lemma_scale_nonneg, max_int, min_int,
};
use vstd::prelude::*;

verus! {

/// `rc` with each edge moved inward by the matching edge of `by`.
pub open spec fn inset(rc: IRect, by: IRect) -> IRect {
    IRect {
        left: sat(rc.left + by.left) as i32,
        top: sat(rc.top + by.top) as i32,
        right: sat(rc.right - by.right) as i32,
        bottom: sat(rc.bottom - by.bottom) as i32,
    }
}

/// `rc` less an optional inset given in logical units.
pub open spec fn inset_scaled(rc: IRect, by: Option<IRect>, dpi: ScaleDpi) -> IRect {
    match by {
        Some(v) => inset(rc, v.scale_spec(dpi)),
        None => rc,
    }
}

/// The area in which a container lays out its children: its rectangle less
/// its scaled padding.
pub open spec fn content_rect(rc: IRect, padding: Option<IRect>, dpi: ScaleDpi) -> IRect {
    inset_scaled(rc, padding, dpi)
}

/// Each child of `new` is the child of `old` at the same index, placed at
/// the rectangle of the same index.
pub open spec fn placed(old: Seq<Control>, new: Seq<Control>, rects: Seq<IRect>) -> bool {
    &&& new.len() == old.len()
    &&& forall|i: int| 0 <= i < old.len() ==> #[trigger] new[i] == old[i].with_rc(rects[i])
}

pub open spec fn zero_rects(n: nat) -> Seq<IRect> {
    Seq::new(n, |i: int| IRect::zero())
}

/// A policy that places the children of a container.
pub trait TLayout {
    /// The rectangles of children `kids` in the content rectangle `content`.
    spec fn arrange(&self, content: IRect, kids: Seq<Control>, dpi: ScaleDpi) -> Seq<IRect>;

    fn update(&self, c: &mut Container, dpi: &ScaleDpi)
        ensures
            final(c).ctrl == old(c).ctrl,
            final(c).layout == old(c).layout,
            placed(
                old(c).children@,
                final(c).children@,
                self.arrange(
                    content_rect(old(c).ctrl.inner.real_rc, old(c).ctrl.inner.padding, *dpi),
                    old(c).children@,
                    *dpi,
                ),
            ),
    ;
}

// ---------------------------------------------------------------------------
// Horizontal and vertical

/// `r` with its axes swapped.
pub open spec fn transpose(r: IRect) -> IRect {
    IRect { left: r.top, top: r.left, right: r.bottom, bottom: r.right }
}

/// `r` seen with the primary axis first: unchanged for a horizontal layout,
/// swapped for a vertical one.
pub open spec fn to_uv(r: IRect, vertical: bool) -> IRect {
    if vertical {
        transpose(r)
    } else {
        r
    }
}

/// The start and end hints of a child on the cross axis.
pub open spec fn uv_point(c: TCtrlInner, vertical: bool) -> IPointOpt {
    if vertical {
        IPointOpt { x: c.pos.left, y: c.pos.right }
    } else {
        IPointOpt { x: c.pos.top, y: c.pos.bottom }
    }
}

/// The size hints of a child: `width` on the primary axis, `height` on the
/// cross axis.
pub open spec fn uv_size(c: TCtrlInner, vertical: bool) -> ISizeOpt {
    if vertical {
        ISizeOpt { width: c.size.height, height: c.size.width }
    } else {
        c.size
    }
}

pub open spec fn clamp_int(v: int, lo: int, hi: int) -> int {
    max_int(lo, min_int(v, hi))
}

/// Sum of the scaled primary-axis sizes of the children that give one.
pub open spec fn fixed_total(kids: Seq<Control>, vertical: bool, dpi: ScaleDpi) -> int
    decreases kids.len(),
{
    if kids.len() == 0 {
        0
    } else {
        fixed_total(kids.drop_last(), vertical, dpi) + match uv_size(
            kids.last().inner(),
            vertical,
        ).width {
            Some(w) => dpi.scale_int(w as int),
            None => 0,
        }
    }
}

/// Number of children without a primary-axis size.
pub open spec fn flexible_count(kids: Seq<Control>, vertical: bool) -> int
    decreases kids.len(),
{
    if kids.len() == 0 {
        0
    } else {
        flexible_count(kids.drop_last(), vertical) + if uv_size(
            kids.last().inner(),
            vertical,
        ).width is None {
            1int
        } else {
            0int
        }
    }
}

/// The extent that each flexible child gets: the space left by the fixed
/// ones, shared equally and rounded toward zero.
pub open spec fn default_extent(extent: int, total: int, count: int) -> int {
    if count == 0 {
        0
    } else {
        trunc_div(extent - total, count)
    }
}

/// Near edge of a child on the cross axis (`area` in primary-first form).
pub open spec fn uv_top(area: IRect, p: IPointOpt, dpi: ScaleDpi) -> int {
    clamp_int(
        area.top + match p.x {
            Some(v) => dpi.scale_int(v as int),
            None => 0,
        },
        area.top as int,
        area.bottom as int,
    )
}

/// Far edge of a child on the cross axis: from the end hint, else from the
/// size hint, else the far edge of the content.
pub open spec fn uv_bottom(area: IRect, p: IPointOpt, s: ISizeOpt, dpi: ScaleDpi) -> int {
    match p.y {
        Some(v) => clamp_int(area.top + dpi.scale_int(v as int), area.top as int, area.bottom as int),
        None => match s.height {
            Some(v) => clamp_int(
                area.top + dpi.scale_int(v as int),
                area.top as int,
                area.bottom as int,
            ),
            None => area.bottom as int,
        },
    }
}

/// Far edge of a child on the primary axis, which is also where the next
/// child starts. A child that starts at or past the far edge of `area`
/// collapses to zero width. The far edge never passes the far edge of `area`,
/// and never falls before the start either: a negative size hint gives zero
/// width rather than a rectangle turned inside out.
pub open spec fn uv_far(area: IRect, offset: int, default: int, s: ISizeOpt, dpi: ScaleDpi) -> int {
    if offset >= area.right {
        offset
    } else {
        let v = match s.width {
            Some(w) => offset + dpi.scale_int(w as int),
            None => if default <= 0 {
                offset
            } else {
                offset + default
            },
        };
        clamp_int(v, offset, area.right as int)
    }
}

/// Where the primary axis stands after the children `kids`.
pub open spec fn linear_offset(
    area: IRect,
    kids: Seq<Control>,
    default: int,
    vertical: bool,
    dpi: ScaleDpi,
) -> int
    decreases kids.len(),
{
    if kids.len() == 0 {
        area.left as int
    } else {
        uv_far(
            area,
            linear_offset(area, kids.drop_last(), default, vertical, dpi),
            default,
            uv_size(kids.last().inner(), vertical),
            dpi,
        )
    }
}

/// The rectangle of one child in primary-first form.
pub open spec fn uv_rect(
    area: IRect,
    offset: int,
    default: int,
    p: IPointOpt,
    s: ISizeOpt,
    dpi: ScaleDpi,
) -> IRect {
    IRect {
        left: offset as i32,
        top: uv_top(area, p, dpi) as i32,
        right: uv_far(area, offset, default, s, dpi) as i32,
        bottom: uv_bottom(area, p, s, dpi) as i32,
    }
}

/// The default extent of a row (or column) of `kids` in `content`.
pub open spec fn linear_default(content: IRect, kids: Seq<Control>, vertical: bool, dpi: ScaleDpi) -> int {
    let area = to_uv(content, vertical);
    default_extent(
        area.right - area.left,
        fixed_total(kids, vertical, dpi),
        flexible_count(kids, vertical),
    )
}

/// The rectangle of child `i` of a row (or column) before its margin.
pub open spec fn linear_slot(
    content: IRect,
    kids: Seq<Control>,
    i: int,
    vertical: bool,
    dpi: ScaleDpi,
) -> IRect {
    let area = to_uv(content, vertical);
    let default = linear_default(content, kids, vertical, dpi);
    let c = kids[i].inner();
    to_uv(
        uv_rect(
            area,
            linear_offset(area, kids.take(i), default, vertical, dpi),
            default,
            uv_point(c, vertical),
            uv_size(c, vertical),
            dpi,
        ),
        vertical,
    )
}

/// The children one after another along one axis, each then less its margin.
pub open spec fn linear_rects(content: IRect, kids: Seq<Control>, vertical: bool, dpi: ScaleDpi) -> Seq<IRect> {
    if content.degenerate() {
        zero_rects(kids.len())
    } else {
        Seq::new(
            kids.len(),
            |i: int| inset_scaled(linear_slot(content, kids, i, vertical, dpi), kids[i].inner().margin, dpi),
        )
    }
}

// ---------------------------------------------------------------------------
// Table

/// The rectangle of cell `i` of a grid with `row` columns and `line` rows,
/// filled one row at a time; the zero rectangle past the last cell.
pub open spec fn table_cell(content: IRect, row: int, line: int, i: int) -> IRect {
    if row <= 0 || line <= 0 || i / row >= line {
        IRect::zero()
    } else {
        let w = (content.right - content.left) / row;
        let h = (content.bottom - content.top) / line;
        let l = content.left + w * (i % row);
        let t = content.top + h * (i / row);
        IRect { left: l as i32, top: t as i32, right: (l + w) as i32, bottom: (t + h) as i32 }
    }
}

pub open spec fn table_rects(content: IRect, row: int, line: int, n: nat) -> Seq<IRect> {
    if content.degenerate() {
        zero_rects(n)
    } else {
        Seq::new(n, |i: int| table_cell(content, row, line, i))
    }
}

// ---------------------------------------------------------------------------
// Absolute

/// The rectangle that a child asks for, in logical units relative to the
/// content: its position edges, with left and top 0 and right and bottom
/// from the size where absent.
pub open spec fn absolute_rc(c: TCtrlInner) -> IRect {
    let l = or_default(c.pos.left, 0);
    let t = or_default(c.pos.top, 0);
    IRect {
        left: l,
        top: t,
        right: match c.pos.right {
            Some(v) => v,
            None => sat(or_default(c.size.width, 0) + l) as i32,
        },
        bottom: match c.pos.bottom {
            Some(v) => v,
            None => sat(or_default(c.size.height, 0) + t) as i32,
        },
    }
}

pub open spec fn absolute_rects(content: IRect, kids: Seq<Control>, dpi: ScaleDpi) -> Seq<IRect> {
    if content.degenerate() {
        zero_rects(kids.len())
    } else {
        Seq::new(kids.len(), |i: int| clip_rect(content, absolute_rc(kids[i].inner()).scale_spec(dpi)))
    }
}

// ---------------------------------------------------------------------------
// Strategies

/// Children left to right.
#[derive(Clone, Copy, Debug, PartialEq, Eq, Structural)]
pub struct LayoutHorizontal {}

/// Children top to bottom.
#[derive(Clone, Copy, Debug, PartialEq, Eq, Structural)]
pub struct LayoutVertical {}

/// Children in a grid of `row` columns and `line` rows.
#[derive(Clone, Copy, Debug, PartialEq, Eq, Structural)]
pub struct LayoutTable {
    pub row: usize,
    pub line: usize,
}

/// Children at the positions they give.
#[derive(Clone, Copy, Debug, PartialEq, Eq, Structural)]
pub struct Layout {}

/// The strategy that a container owns.
#[derive(Clone, Copy, Debug, PartialEq, Eq, Structural)]
pub enum LayoutStrategy {
    Horizontal(LayoutHorizontal),
    Vertical(LayoutVertical),
    Table(LayoutTable),
    Absolute(Layout),
}

impl LayoutHorizontal {
    pub fn new() -> (r: LayoutStrategy)
        ensures
            r == LayoutStrategy::Horizontal(LayoutHorizontal {}),
    {
        LayoutStrategy::Horizontal(LayoutHorizontal {})
    }
}

impl LayoutVertical {
    pub fn new() -> (r: LayoutStrategy)
        ensures
            r == LayoutStrategy::Vertical(LayoutVertical {}),
    {
        LayoutStrategy::Vertical(LayoutVertical {})
    }
}

impl LayoutTable {
    pub fn new(row: usize, line: usize) -> (r: LayoutStrategy)
        ensures
            r == LayoutStrategy::Table(LayoutTable { row, line }),
    {
        LayoutStrategy::Table(LayoutTable { row, line })
    }
}

impl Layout {
    pub fn new() -> (r: LayoutStrategy)
        ensures
            r == LayoutStrategy::Absolute(Layout {}),
    {
        LayoutStrategy::Absolute(Layout {})
    }
}

// ---------------------------------------------------------------------------
// Execution

/// The content rectangle of `c`; when it is degenerate every child is
/// placed at the zero rectangle and there is nothing more to lay out.
fn get_layout_real_rc(c: &mut Container, dpi: &ScaleDpi) -> (r: Option<IRect>)
    ensures
        final(c).ctrl == old(c).ctrl,
        final(c).layout == old(c).layout,
        ({
            let content = content_rect(old(c).ctrl.inner.real_rc, old(c).ctrl.inner.padding, *dpi);
            if content.degenerate() {
                r is None && placed(old(c).children@, final(c).children@, zero_rects(old(c).children@.len()))
            } else {
                r == Some(content) && final(c).children@ == old(c).children@
            }
        }),
{
    let rc = inset_by(c.ctrl.inner.real_rc, c.ctrl.inner.padding, dpi);
    if rc.is_degenerate() {
        let n = c.children.len();
        let mut i: usize = 0;
        while i < n
            invariant
                n == old(c).children@.len(),
                c.ctrl == old(c).ctrl,
                c.layout == old(c).layout,
                c.children@.len() == n,
                forall|j: int| 0 <= j < i ==> #[trigger] c.children@[j] == old(c).children@[j].with_rc(IRect::zero()),
                forall|j: int| i <= j < n ==> #[trigger] c.children@[j] == old(c).children@[j],
            decreases n - i,
        {
            c.set_child_rc(i, IRect::default());
            i += 1;
        }
        return None;
    }
    Some(rc)
}

/// `rc` less an optional inset given in logical units.
fn inset_by(rc: IRect, by: Option<IRect>, dpi: &ScaleDpi) -> (r: IRect)
    ensures
        r == inset_scaled(rc, by, *dpi),
{
    match by {
        Some(v) => {
            let s = dpi.scale(v);
            IRect::new(
                clamp_i64(rc.left as i64 + s.left as i64),
                clamp_i64(rc.top as i64 + s.top as i64),
                clamp_i64(rc.right as i64 - s.right as i64),
                clamp_i64(rc.bottom as i64 - s.bottom as i64),
            )
        },
        None => rc,
    }
}

fn clamp_between(v: i128, lo: i32, hi: i32) -> (r: i32)
    requires
        lo <= hi,
    ensures
        r == clamp_int(v as int, lo as int, hi as int),
{
    if v > hi as i128 {
        hi
    } else if v < lo as i128 {
        lo
    } else {
        v as i32
    }
}

/// Places one child along the primary axis of `area` (given primary-first)
/// at `offset`, and moves `offset` to its far edge.
fn layout_uv(
    area: IRect,
    offset: &mut i32,
    default_size: i128,
    child_point: &IPointOpt,
    child_size: &ISizeOpt,
    dpi: &ScaleDpi,
) -> (r: IRect)
    requires
        area.left <= *old(offset),
        area.top <= area.bottom,
        -0x1_0000_0000_0000_0000_0000_0000 < default_size < 0x1_0000_0000_0000_0000_0000_0000,
    ensures
        r == uv_rect(area, *old(offset) as int, default_size as int, *child_point, *child_size, *dpi),
        *final(offset) == uv_far(area, *old(offset) as int, default_size as int, *child_size, *dpi),
        *old(offset) <= area.right ==> area.left <= *final(offset) <= area.right,
        *old(offset) >= area.right ==> *final(offset) == *old(offset) && r.left == *old(offset)
            && r.right == *old(offset),
{
    let top = clamp_between(
        area.top as i128 + match child_point.x {
            Some(v) => dpi.scale(v) as i128,
            None => 0,
        },
        area.top,
        area.bottom,
    );
    let bottom = match child_point.y {
        Some(v) => clamp_between(area.top as i128 + dpi.scale(v) as i128, area.top, area.bottom),
        None => match child_size.height {
            Some(v) => clamp_between(area.top as i128 + dpi.scale(v) as i128, area.top, area.bottom),
            None => area.bottom,
        },
    };
    let left = *offset;
    let right = if left >= area.right {
        left
    } else {
        let v: i128 = match child_size.width {
            Some(w) => left as i128 + dpi.scale(w) as i128,
            None => if default_size <= 0 {
                left as i128
            } else {
                left as i128 + default_size
            },
        };
        let v = clamp_between(v, left, area.right);
        *offset = v;
        v
    };
    IRect::new(left, top, right, bottom)
}

/// Lays the children of `c` out one after another, left to right, or top to
/// bottom when `vertical`.
fn layout_linear(c: &mut Container, dpi: &ScaleDpi, vertical: bool)
    ensures
        final(c).ctrl == old(c).ctrl,
        final(c).layout == old(c).layout,
        placed(
            old(c).children@,
            final(c).children@,
            linear_rects(
                content_rect(old(c).ctrl.inner.real_rc, old(c).ctrl.inner.padding, *dpi),
                old(c).children@,
                vertical,
                *dpi,
            ),
        ),
{
    let ghost content_s = content_rect(c.ctrl.inner.real_rc, c.ctrl.inner.padding, *dpi);
    let content = match get_layout_real_rc(c, dpi) {
        None => {
            return;
        },
        Some(rc) => rc,
    };
    let area = if vertical {
        IRect::new(content.top, content.left, content.bottom, content.right)
    } else {
        content
    };
    assert(area == to_uv(content, vertical));
    let ghost kids = c.children@;
    let n = c.children.len();

    let mut total: i128 = 0;
    let mut count: i128 = 0;
    let mut i: usize = 0;
    while i < n
        invariant
            kids == c.children@,
            n == kids.len(),
            0 <= i <= n,
            total == fixed_total(kids.take(i as int), vertical, *dpi),
            count == flexible_count(kids.take(i as int), vertical),
            -(i * 0x8000_0000) <= total <= i * 0x8000_0000,
            0 <= count <= i,
        decreases n - i,
    {
        let inner = c.children[i].get_inner();
        let w = if vertical {
            inner.size.height
        } else {
            inner.size.width
        };
        proof {
            assert(kids.take(i + 1).drop_last() =~= kids.take(i as int));
            assert(kids.take(i + 1).last() == kids[i as int]);
        }
        match w {
            Some(v) => {
                total = total + dpi.scale(v) as i128;
            },
            None => {
                count = count + 1;
            },
        }
        i += 1;
    }
    assert(kids.take(n as int) =~= kids);

    let extent: i128 = area.right as i128 - area.left as i128;
    let default_size: i128 = if count == 0 {
        0
    } else {
        let a = extent - total;
        if a >= 0 {
            proof {
                assert((a as int) / (count as int) <= a) by (nonlinear_arith)
                    requires
                        a >= 0,
                        count >= 1,
                ;
            }
            a / count
        } else {
            let b = -a;
            proof {
                assert((b as int) / (count as int) <= b) by (nonlinear_arith)
                    requires
                        b >= 0,
                        count >= 1,
                ;
            }
            -(b / count)
        }
    };
    assert(default_size == linear_default(content, kids, vertical, *dpi));

    let ghost rects = linear_rects(content, kids, vertical, *dpi);
    let ghost ctrl0 = c.ctrl;
    let ghost layout0 = c.layout;
    let mut offset: i32 = area.left;
    let mut i: usize = 0;
    while i < n
        invariant
            n == kids.len(),
            0 <= i <= n,
            c.ctrl == ctrl0,
            c.layout == layout0,
            c.children@.len() == n,
            !content.degenerate(),
            area == to_uv(content, vertical),
            rects == linear_rects(content, kids, vertical, *dpi),
            default_size == linear_default(content, kids, vertical, *dpi),
            -0x1_0000_0000_0000_0000_0000_0000 < default_size < 0x1_0000_0000_0000_0000_0000_0000,
            forall|j: int| 0 <= j < i ==> #[trigger] c.children@[j] == kids[j].with_rc(rects[j]),
            forall|j: int| i <= j < n ==> #[trigger] c.children@[j] == kids[j],
            offset == linear_offset(area, kids.take(i as int), default_size as int, vertical, *dpi),
            area.left <= offset <= area.right,
        decreases n - i,
    {
        let inner = c.children[i].get_inner();
        let point = if vertical {
            IPointOpt::new(inner.pos.left, inner.pos.right)
        } else {
            IPointOpt::new(inner.pos.top, inner.pos.bottom)
        };
        let size = if vertical {
            ISizeOpt::new(inner.size.height, inner.size.width)
        } else {
            inner.size
        };
        let margin = inner.margin;
        proof {
            assert(kids.take(i + 1).drop_last() =~= kids.take(i as int));
            assert(kids.take(i + 1).last() == kids[i as int]);
        }
        let uv = layout_uv(area, &mut offset, default_size, &point, &size, dpi);
        let placed_rc = if vertical {
            IRect::new(uv.top, uv.left, uv.bottom, uv.right)
        } else {
            uv
        };
        let rc = inset_by(placed_rc, margin, dpi);
        assert(rc == rects[i as int]);
        c.set_child_rc(i, rc);
        i += 1;
    }
}

/// Lays the children of `c` out in the cells of a grid, one row at a time.
fn layout_table(t: &LayoutTable, c: &mut Container, dpi: &ScaleDpi)
    ensures
        final(c).ctrl == old(c).ctrl,
        final(c).layout == old(c).layout,
        placed(
            old(c).children@,
            final(c).children@,
            table_rects(
                content_rect(old(c).ctrl.inner.real_rc, old(c).ctrl.inner.padding, *dpi),
                t.row as int,
                t.line as int,
                old(c).children@.len(),
            ),
        ),
{
    let content = match get_layout_real_rc(c, dpi) {
        None => {
            return;
        },
        Some(rc) => rc,
    };
    let ghost kids = c.children@;
    let ghost ctrl0 = c.ctrl;
    let ghost layout0 = c.layout;
    let ghost rects = table_rects(content, t.row as int, t.line as int, kids.len());
    let n = c.children.len();
    let width: i64 = content.width();
    let height: i64 = content.height();
    let mut i: usize = 0;
    while i < n
        invariant
            n == kids.len(),
            0 <= i <= n,
            c.ctrl == ctrl0,
            c.layout == layout0,
            c.children@.len() == n,
            !content.degenerate(),
            width == content.right - content.left,
            height == content.bottom - content.top,
            rects == table_rects(content, t.row as int, t.line as int, kids.len()),
            forall|j: int| 0 <= j < i ==> #[trigger] c.children@[j] == kids[j].with_rc(rects[j]),
            forall|j: int| i <= j < n ==> #[trigger] c.children@[j] == kids[j],
        decreases n - i,
    {
        let rc = if t.row == 0 || t.line == 0 {
            IRect::default()
        } else {
            let cur_row = i % t.row;
            let cur_line = i / t.row;
            if cur_line >= t.line {
                IRect::default()
            } else {
                let row_size: i128 = width as i128 / t.row as i128;
                let line_size: i128 = height as i128 / t.line as i128;
                proof {
                    assert(0 <= row_size <= width) by (nonlinear_arith)
                        requires
                            width >= 1,
                            t.row >= 1,
                            row_size == (width as int) / (t.row as int),
                    ;
                    assert(0 <= line_size <= height) by (nonlinear_arith)
                        requires
                            height >= 1,
                            t.line >= 1,
                            line_size == (height as int) / (t.line as int),
                    ;
                    assert(0 <= row_size * cur_row <= 0x1_0000_0000 * 0x1_0000_0000_0000_0000)
                        by (nonlinear_arith)
                        requires
                            0 <= row_size <= 0x1_0000_0000,
                            0 <= cur_row <= 0x1_0000_0000_0000_0000,
                    ;
                    assert(0 <= line_size * cur_line <= 0x1_0000_0000 * 0x1_0000_0000_0000_0000)
                        by (nonlinear_arith)
                        requires
                            0 <= line_size <= 0x1_0000_0000,
                            0 <= cur_line <= 0x1_0000_0000_0000_0000,
                    ;
                }
                let left: i128 = content.left as i128 + row_size * cur_row as i128;
                let top: i128 = content.top as i128 + line_size * cur_line as i128;
                IRect::new(left as i32, top as i32, (left + row_size) as i32, (top + line_size) as i32)
            }
        };
        assert(rc == rects[i as int]);
        c.set_child_rc(i, rc);
        i += 1;
    }
}

/// Places each child of `c` where its position and size say, cut to the
/// content rectangle.
fn layout_absolute(c: &mut Container, dpi: &ScaleDpi)
    ensures
        final(c).ctrl == old(c).ctrl,
        final(c).layout == old(c).layout,
        placed(
            old(c).children@,
            final(c).children@,
            absolute_rects(
                content_rect(old(c).ctrl.inner.real_rc, old(c).ctrl.inner.padding, *dpi),
                old(c).children@,
                *dpi,
            ),
        ),
{
    let content = match get_layout_real_rc(c, dpi) {
        None => {
            return;
        },
        Some(rc) => rc,
    };
    let ghost kids = c.children@;
    let ghost ctrl0 = c.ctrl;
    let ghost layout0 = c.layout;
    let ghost rects = absolute_rects(content, kids, *dpi);
    let n = c.children.len();
    let mut i: usize = 0;
    while i < n
        invariant
            n == kids.len(),
            0 <= i <= n,
            c.ctrl == ctrl0,
            c.layout == layout0,
            c.children@.len() == n,
            !content.degenerate(),
            rects == absolute_rects(content, kids, *dpi),
            forall|j: int| 0 <= j < i ==> #[trigger] c.children@[j] == kids[j].with_rc(rects[j]),
            forall|j: int| i <= j < n ==> #[trigger] c.children@[j] == kids[j],
        decreases n - i,
    {
        let inner = c.children[i].get_inner();
        let left = inner.pos.left.unwrap_or(0);
        let top = inner.pos.top.unwrap_or(0);
        let right = match inner.pos.right {
            Some(v) => v,
            None => clamp_i64(inner.size.width.unwrap_or(0) as i64 + left as i64),
        };
        let bottom = match inner.pos.bottom {
            Some(v) => v,
            None => clamp_i64(inner.size.height.unwrap_or(0) as i64 + top as i64),
        };
        let rc = cal_real_rc(&content, dpi.scale(IRect::new(left, top, right, bottom)));
        assert(rc == rects[i as int]);
        c.set_child_rc(i, rc);
        i += 1;
    }
}

impl TLayout for LayoutHorizontal {
    open spec fn arrange(&self, content: IRect, kids: Seq<Control>, dpi: ScaleDpi) -> Seq<IRect> {
        linear_rects(content, kids, false, dpi)
    }

    fn update(&self, c: &mut Container, dpi: &ScaleDpi) {
        layout_linear(c, dpi, false)
    }
}

impl TLayout for LayoutVertical {
    open spec fn arrange(&self, content: IRect, kids: Seq<Control>, dpi: ScaleDpi) -> Seq<IRect> {
        linear_rects(content, kids, true, dpi)
    }

    fn update(&self, c: &mut Container, dpi: &ScaleDpi) {
        layout_linear(c, dpi, true)
    }
}

impl TLayout for LayoutTable {
    open spec fn arrange(&self, content: IRect, kids: Seq<Control>, dpi: ScaleDpi) -> Seq<IRect> {
        table_rects(content, self.row as int, self.line as int, kids.len())
    }

    fn update(&self, c: &mut Container, dpi: &ScaleDpi) {
        layout_table(self, c, dpi)
    }
}

impl TLayout for Layout {
    open spec fn arrange(&self, content: IRect, kids: Seq<Control>, dpi: ScaleDpi) -> Seq<IRect> {
        absolute_rects(content, kids, dpi)
    }

    fn update(&self, c: &mut Container, dpi: &ScaleDpi) {
        layout_absolute(c, dpi)
    }
}

impl TLayout for LayoutStrategy {
    open spec fn arrange(&self, content: IRect, kids: Seq<Control>, dpi: ScaleDpi) -> Seq<IRect> {
        match *self {
            LayoutStrategy::Horizontal(h) => h.arrange(content, kids, dpi),
            LayoutStrategy::Vertical(v) => v.arrange(content, kids, dpi),
            LayoutStrategy::Table(t) => t.arrange(content, kids, dpi),
            LayoutStrategy::Absolute(a) => a.arrange(content, kids, dpi),
        }
    }

    fn update(&self, c: &mut Container, dpi: &ScaleDpi) {
        match self {
            LayoutStrategy::Horizontal(h) => h.update(c, dpi),
            LayoutStrategy::Vertical(v) => v.update(c, dpi),
            LayoutStrategy::Table(t) => t.update(c, dpi),
            LayoutStrategy::Absolute(a) => a.update(c, dpi),
        }
    }
}

// ---------------------------------------------------------------------------
// Laws

/// `rc` is the zero rectangle or lies within `content` less `margin`.
pub open spec fn fits(rc: IRect, content: IRect, margin: Option<IRect>, dpi: ScaleDpi) -> bool {
    rc == IRect::zero() || rc.inside(inset_scaled(content, margin, dpi))
}

proof fn lemma_inset_inside(a: IRect, b: IRect, by: Option<IRect>, dpi: ScaleDpi)
    requires
        a.inside(b),
    ensures
        inset_scaled(a, by, dpi).inside(inset_scaled(b, by, dpi)),
{
}

proof fn lemma_offset_bounds(area: IRect, kids: Seq<Control>, default: int, vertical: bool, dpi: ScaleDpi)
    requires
        area.left <= area.right,
    ensures
        area.left <= linear_offset(area, kids, default, vertical, dpi) <= area.right,
    decreases kids.len(),
{
    if kids.len() > 0 {
        lemma_offset_bounds(area, kids.drop_last(), default, vertical, dpi);
    }
}

proof fn lemma_slot_inside(content: IRect, kids: Seq<Control>, i: int, vertical: bool, dpi: ScaleDpi)
    requires
        !content.degenerate(),
        0 <= i < kids.len(),
    ensures
        linear_slot(content, kids, i, vertical, dpi).inside(content),
{
    let area = to_uv(content, vertical);
    let default = linear_default(content, kids, vertical, dpi);
    lemma_offset_bounds(area, kids.take(i), default, vertical, dpi);
}

proof fn lemma_cell_bounds(content: IRect, row: int, line: int, i: int)
    requires
        !content.degenerate(),
        0 <= i,
        row > 0,
        line > 0,
        i / row < line,
    ensures
        ({
            let w = (content.right - content.left) / row;
            let h = (content.bottom - content.top) / line;
            &&& w >= 0 && h >= 0
            &&& content.left <= content.left + w * (i % row)
            &&& content.left + w * (i % row) + w <= content.right
            &&& content.top <= content.top + h * (i / row)
            &&& content.top + h * (i / row) + h <= content.bottom
        }),
{
    let w = (content.right - content.left) / row;
    let h = (content.bottom - content.top) / line;
    let c = i % row;
    let r = i / row;
    assert(0 <= c < row) by (nonlinear_arith)
        requires
            row > 0,
            c == i % row,
    ;
    assert(0 <= r) by (nonlinear_arith)
        requires
            row > 0,
            i >= 0,
            r == i / row,
    ;
    assert(0 <= w && w * row <= content.right - content.left) by (nonlinear_arith)
        requires
            row > 0,
            content.right - content.left > 0,
            w == (content.right - content.left) / row,
    ;
    assert(0 <= h && h * line <= content.bottom - content.top) by (nonlinear_arith)
        requires
            line > 0,
            content.bottom - content.top > 0,
            h == (content.bottom - content.top) / line,
    ;
    assert(0 <= w * c && w * c + w <= w * row) by (nonlinear_arith)
        requires
            0 <= c < row,
            w >= 0,
    ;
    assert(0 <= h * r && h * r + h <= h * line) by (nonlinear_arith)
        requires
            0 <= r < line,
            h >= 0,
    ;
}

proof fn lemma_cell_inside(content: IRect, row: int, line: int, i: int, dpi: ScaleDpi)
    requires
        !content.degenerate(),
        0 <= i,
    ensures
        fits(table_cell(content, row, line, i), content, None, dpi),
{
    if row > 0 && line > 0 && i / row < line {
        lemma_cell_bounds(content, row, line, i);
    }
}

/// Every rectangle that a strategy hands out is the zero rectangle or lies
/// in the content rectangle; horizontal and vertical layouts further inset
/// each child by its own scaled margin.
pub proof fn lemma_arrange_fits(s: LayoutStrategy, content: IRect, kids: Seq<Control>, dpi: ScaleDpi)
    ensures
        s.arrange(content, kids, dpi).len() == kids.len(),
        forall|i: int|
            0 <= i < kids.len() ==> {
                let rc = #[trigger] s.arrange(content, kids, dpi)[i];
                &&& (s is Horizontal || s is Vertical) ==> fits(rc, content, kids[i].inner().margin, dpi)
                &&& (s is Table || s is Absolute) ==> fits(rc, content, None, dpi)
            },
{
    assert forall|i: int| 0 <= i < kids.len() implies {
        let rc = #[trigger] s.arrange(content, kids, dpi)[i];
        &&& (s is Horizontal || s is Vertical) ==> fits(rc, content, kids[i].inner().margin, dpi)
        &&& (s is Table || s is Absolute) ==> fits(rc, content, None, dpi)
    } by {
        if !content.degenerate() {
            match s {
                LayoutStrategy::Horizontal(_) => {
                    lemma_slot_inside(content, kids, i, false, dpi);
                    lemma_inset_inside(
                        linear_slot(content, kids, i, false, dpi),
                        content,
                        kids[i].inner().margin,
                        dpi,
                    );
                },
                LayoutStrategy::Vertical(_) => {
                    lemma_slot_inside(content, kids, i, true, dpi);
                    lemma_inset_inside(
                        linear_slot(content, kids, i, true, dpi),
                        content,
                        kids[i].inner().margin,
                        dpi,
                    );
                },
                LayoutStrategy::Table(t) => {
                    lemma_cell_inside(content, t.row as int, t.line as int, i, dpi);
                },
                LayoutStrategy::Absolute(_) => {},
            }
        }
    }
}

/// The fixed sizes along the primary axis and the flexible children's equal
/// shares add up to the content's extent, give or take what rounding toward
/// zero drops: never more than one pixel per flexible child beyond it, and
/// not beyond it at all when the fixed sizes fit.
pub proof fn lemma_linear_shares(content: IRect, kids: Seq<Control>, vertical: bool, dpi: ScaleDpi)
    requires
        flexible_count(kids, vertical) > 0 || fixed_total(kids, vertical, dpi) <= to_uv(
            content,
            vertical,
        ).right - to_uv(content, vertical).left,
    ensures
        ({
            let area = to_uv(content, vertical);
            let extent = area.right - area.left;
            let total = fixed_total(kids, vertical, dpi);
            let count = flexible_count(kids, vertical);
            let share = linear_default(content, kids, vertical, dpi);
            &&& count > 0 ==> total + count * share <= extent + count - 1
            &&& total <= extent ==> total + count * share <= extent
        }),
{
    let area = to_uv(content, vertical);
    let extent = area.right - area.left;
    let total = fixed_total(kids, vertical, dpi);
    let count = flexible_count(kids, vertical);
    let share = linear_default(content, kids, vertical, dpi);
    lemma_flexible_count_nonneg(kids, vertical);
    if count > 0 {
        let a = extent - total;
        if a >= 0 {
            assert(count * (a / count) <= a) by (nonlinear_arith)
                requires
                    a >= 0,
                    count > 0,
            ;
        } else {
            let b = -a;
            assert(count * (b / count) >= b - count + 1) by (nonlinear_arith)
                requires
                    b >= 0,
                    count > 0,
            ;
            assert(count * share == -(count * (b / count))) by (nonlinear_arith)
                requires
                    share == -(b / count),
            ;
        }
    }
}

/// The extent that a child takes along the primary axis when nothing is
/// cut: its scaled size, or the flexible share.
pub open spec fn primary_extent(c: TCtrlInner, vertical: bool, share: int, dpi: ScaleDpi) -> int {
    match uv_size(c, vertical).width {
        Some(w) => dpi.scale_int(w as int),
        None => if share <= 0 {
            0
        } else {
            share
        },
    }
}

/// No child gives a negative size along the primary axis.
pub open spec fn primary_hints_nonneg(kids: Seq<Control>, vertical: bool) -> bool {
    forall|j: int|
        0 <= j < kids.len() ==> (uv_size(#[trigger] kids[j].inner(), vertical).width matches Some(w)
            ==> w >= 0)
}

proof fn lemma_offset_exact(area: IRect, kids: Seq<Control>, share: int, vertical: bool, dpi: ScaleDpi)
    requires
        area.left <= area.right,
        share >= 0,
        dpi.factor_num() > 0,
        dpi.factor_den() > 0,
        primary_hints_nonneg(kids, vertical),
        fixed_total(kids, vertical, dpi) + share * flexible_count(kids, vertical) <= area.right
            - area.left,
    ensures
        linear_offset(area, kids, share, vertical, dpi) == area.left + fixed_total(kids, vertical, dpi)
            + share * flexible_count(kids, vertical),
    decreases kids.len(),
{
    if kids.len() > 0 {
        let rest = kids.drop_last();
        let c = kids.last().inner();
        assert(primary_hints_nonneg(rest, vertical)) by {
            assert forall|j: int| 0 <= j < rest.len() implies (uv_size(#[trigger] rest[j].inner(), vertical).width matches Some(w) ==> w >= 0) by {
                assert(rest[j] == kids[j]);
            }
        }
        assert(kids[kids.len() - 1] == kids.last());
        let term = match uv_size(c, vertical).width {
            Some(w) => dpi.scale_int(w as int),
            None => 0,
        };
        match uv_size(c, vertical).width {
            Some(w) => {
                lemma_scale_nonneg(dpi, w as int);
            },
            None => {},
        }
        lemma_flexible_count_nonneg(rest, vertical);
        let flex = if uv_size(c, vertical).width is None { 1int } else { 0int };
        assert(share * flexible_count(kids, vertical) == share * flexible_count(rest, vertical) + share
            * flex) by (nonlinear_arith)
            requires
                flexible_count(kids, vertical) == flexible_count(rest, vertical) + flex,
        ;
        assert(share * flex >= 0) by (nonlinear_arith)
            requires
                share >= 0,
                flex >= 0,
        ;
        lemma_offset_exact(area, rest, share, vertical, dpi);
    }
}

proof fn lemma_prefix_total(kids: Seq<Control>, j: int, share: int, vertical: bool, dpi: ScaleDpi)
    requires
        0 <= j <= kids.len(),
        share >= 0,
        dpi.factor_num() > 0,
        dpi.factor_den() > 0,
        primary_hints_nonneg(kids, vertical),
    ensures
        primary_hints_nonneg(kids.take(j), vertical),
        fixed_total(kids.take(j), vertical, dpi) + share * flexible_count(kids.take(j), vertical)
            <= fixed_total(kids, vertical, dpi) + share * flexible_count(kids, vertical),
    decreases kids.len(),
{
    assert(primary_hints_nonneg(kids.take(j), vertical)) by {
        assert forall|m: int| 0 <= m < kids.take(j).len() implies (uv_size(#[trigger] kids.take(j)[m].inner(), vertical).width matches Some(w) ==> w >= 0) by {
            assert(kids.take(j)[m] == kids[m]);
        }
    }
    if j == kids.len() {
        assert(kids.take(j) =~= kids);
    } else {
        let rest = kids.drop_last();
        assert(rest.take(j) =~= kids.take(j));
        assert(primary_hints_nonneg(rest, vertical)) by {
            assert forall|m: int| 0 <= m < rest.len() implies (uv_size(#[trigger] rest[m].inner(), vertical).width matches Some(w) ==> w >= 0) by {
                assert(rest[m] == kids[m]);
            }
        }
        lemma_prefix_total(rest, j, share, vertical, dpi);
        let c = kids.last().inner();
        assert(kids[kids.len() - 1] == kids.last());
        match uv_size(c, vertical).width {
            Some(w) => {
                lemma_scale_nonneg(dpi, w as int);
            },
            None => {},
        }
        let flex = if uv_size(c, vertical).width is None { 1int } else { 0int };
        assert(share * flexible_count(kids, vertical) == share * flexible_count(rest, vertical) + share
            * flex) by (nonlinear_arith)
            requires
                flexible_count(kids, vertical) == flexible_count(rest, vertical) + flex,
        ;
        assert(share * flex >= 0) by (nonlinear_arith)
            requires
                share >= 0,
                flex >= 0,
        ;
    }
}

/// Where the fixed sizes fit, nothing is cut: each child spans exactly its
/// scaled size, or the flexible share, along the primary axis, and the
/// children, one after another, cover the fixed sizes plus one share per
/// flexible child, which falls short of the content's extent by less than
/// one pixel per flexible child.
pub proof fn lemma_linear_extents(content: IRect, kids: Seq<Control>, vertical: bool, dpi: ScaleDpi)
    requires
        !content.degenerate(),
        dpi.factor_num() > 0,
        dpi.factor_den() > 0,
        primary_hints_nonneg(kids, vertical),
        fixed_total(kids, vertical, dpi) <= to_uv(content, vertical).right - to_uv(
            content,
            vertical,
        ).left,
    ensures
        ({
            let area = to_uv(content, vertical);
            let extent = area.right - area.left;
            let total = fixed_total(kids, vertical, dpi);
            let count = flexible_count(kids, vertical);
            let share = linear_default(content, kids, vertical, dpi);
            &&& share >= 0
            &&& linear_offset(area, kids, share, vertical, dpi) - area.left == total + count * share
            &&& total + count * share <= extent
            &&& count > 0 ==> extent - count < total + count * share
            &&& forall|i: int|
                0 <= i < kids.len() ==> {
                    let slot = to_uv(#[trigger] linear_slot(content, kids, i, vertical, dpi), vertical);
                    slot.right - slot.left == primary_extent(kids[i].inner(), vertical, share, dpi)
                }
        }),
{
    let area = to_uv(content, vertical);
    let extent = area.right - area.left;
    let total = fixed_total(kids, vertical, dpi);
    let count = flexible_count(kids, vertical);
    let share = linear_default(content, kids, vertical, dpi);
    lemma_flexible_count_nonneg(kids, vertical);
    if count > 0 {
        let a = extent - total;
        assert(share == a / count);
        assert(a / count >= 0 && count * (a / count) <= a && count * (a / count) > a - count)
            by (nonlinear_arith)
            requires
                a >= 0,
                count > 0,
        ;
    }
    assert(share * count == count * share) by (nonlinear_arith);
    lemma_offset_exact(area, kids, share, vertical, dpi);
    assert forall|i: int| 0 <= i < kids.len() implies {
        let slot = to_uv(#[trigger] linear_slot(content, kids, i, vertical, dpi), vertical);
        slot.right - slot.left == primary_extent(kids[i].inner(), vertical, share, dpi)
    } by {
        let pre = kids.take(i);
        let next = kids.take(i + 1);
        lemma_prefix_total(kids, i + 1, share, vertical, dpi);
        lemma_prefix_total(kids, i, share, vertical, dpi);
        lemma_flexible_count_nonneg(next, vertical);
        assert(share * flexible_count(next, vertical) >= 0) by (nonlinear_arith)
            requires
                share >= 0,
                flexible_count(next, vertical) >= 0,
        ;
        lemma_offset_exact(area, next, share, vertical, dpi);
        lemma_offset_exact(area, pre, share, vertical, dpi);
        assert(next.drop_last() =~= pre);
        assert(next.last() == kids[i]);
        let c = kids[i].inner();
        match uv_size(c, vertical).width {
            Some(w) => {
                lemma_scale_nonneg(dpi, w as int);
            },
            None => {},
        }
        let flex = if uv_size(c, vertical).width is None { 1int } else { 0int };
        assert(share * flexible_count(next, vertical) == share * flexible_count(pre, vertical) + share
            * flex) by (nonlinear_arith)
            requires
                flexible_count(next, vertical) == flexible_count(pre, vertical) + flex,
        ;
        let off = linear_offset(area, pre, share, vertical, dpi);
        let far = uv_far(area, off, share, uv_size(c, vertical), dpi);
        assert(far == linear_offset(area, next, share, vertical, dpi));
        lemma_offset_bounds(area, pre, share, vertical, dpi);
        lemma_offset_bounds(area, next, share, vertical, dpi);
        assert(far - off == primary_extent(c, vertical, share, dpi));
        let uv = uv_rect(area, off, share, uv_point(c, vertical), uv_size(c, vertical), dpi);
        assert(uv.right - uv.left == far - off);
        assert(to_uv(to_uv(uv_rect(area, linear_offset(area, pre, share, vertical, dpi), share,
            uv_point(c, vertical), uv_size(c, vertical), dpi), vertical), vertical) == uv_rect(area,
            linear_offset(area, pre, share, vertical, dpi), share, uv_point(c, vertical), uv_size(c,
            vertical), dpi));
    }
}

proof fn lemma_flexible_count_nonneg(kids: Seq<Control>, vertical: bool)
    ensures
        flexible_count(kids, vertical) >= 0,
    decreases kids.len(),
{
    if kids.len() > 0 {
        lemma_flexible_count_nonneg(kids.drop_last(), vertical);
    }
}

/// A table fills its grid one row at a time in the order the children were
/// added: child `i` gets column `i % row` of grid row `i / row`, and every
/// child from index `row * line` on gets the zero rectangle.
pub proof fn lemma_table_order(content: IRect, row: int, line: int, n: nat, i: int)
    requires
        0 <= i < n,
        row > 0,
        line > 0,
    ensures
        i >= row * line ==> table_rects(content, row, line, n)[i] == IRect::zero(),
        i < row * line && !content.degenerate() ==> ({
            let w = (content.right - content.left) / row;
            let h = (content.bottom - content.top) / line;
            let rc = table_rects(content, row, line, n)[i];
            &&& rc.left == content.left + w * (i % row)
            &&& rc.top == content.top + h * (i / row)
            &&& rc.right == rc.left + w
            &&& rc.bottom == rc.top + h
        }),
{
    if i >= row * line {
        assert(i / row >= line) by (nonlinear_arith)
            requires
                i >= row * line,
                row > 0,
        ;
    } else {
        assert(i / row < line) by (nonlinear_arith)
            requires
                0 <= i < row * line,
                row > 0,
        ;
        if !content.degenerate() {
            lemma_cell_bounds(content, row, line, i);
        }

    }
}

} // verus!
