//! Geometry in pixels and logical units, and DPI scaling between the two.
use vstd::arithmetic::div_mod::{lemma_fundamental_div_mod, lemma_mod_pos_bound};
use vstd::prelude::*;

verus! {

/// Clamps a mathematical integer into the range of `i32`.
pub open spec fn sat(v: int) -> int {
    if v < i32::MIN {
        i32::MIN as int
    } else if v > i32::MAX {
        i32::MAX as int
    } else {
        v
    }
}

/// Division that rounds toward zero, as Rust's integer division does.
pub open spec fn trunc_div(a: int, d: int) -> int {
    if a >= 0 {
        a / d
    } else {
        -((-a) / d)
    }
}

pub open spec fn min_int(a: int, b: int) -> int {
    if a <= b {
        a
    } else {
        b
    }
}

pub open spec fn max_int(a: int, b: int) -> int {
    if a >= b {
        a
    } else {
        b
    }
}

/// Saturating conversion from `i64` to `i32`.
pub fn clamp_i64(v: i64) -> (r: i32)
    ensures
        r == sat(v as int),
{
    if v < i32::MIN as i64 {
        i32::MIN
    } else if v > i32::MAX as i64 {
        i32::MAX
    } else {
        v as i32
    }
}

/// An ARGB color packed in 32 bits.
#[derive(Clone, Copy, Debug, PartialEq, Eq, Structural)]
pub struct Color {
    pub argb: u32,
}

impl Color {
    pub fn new(argb: u32) -> (r: Color)
        ensures
            r.argb == argb,
    {
        Color { argb }
    }
}

/// An integer rectangle given by its four edges.
#[derive(Clone, Copy, Debug, PartialEq, Eq, Structural)]
pub struct IRect {
    pub left: i32,
    pub top: i32,
    pub right: i32,
    pub bottom: i32,
}

impl IRect {
    /// The rectangle that is neither drawn nor hit.
    pub open spec fn zero() -> IRect {
        IRect { left: 0, top: 0, right: 0, bottom: 0 }
    }

    /// Zero or negative width or height.
    pub open spec fn degenerate(self) -> bool {
        self.right - self.left <= 0 || self.bottom - self.top <= 0
    }

    /// Every edge of `self` lies within `outer` (an inverted rectangle may too).
    pub open spec fn inside(self, outer: IRect) -> bool {
        &&& outer.left <= self.left
        &&& outer.top <= self.top
        &&& self.right <= outer.right
        &&& self.bottom <= outer.bottom
    }

    pub fn new(left: i32, top: i32, right: i32, bottom: i32) -> (r: IRect)
        ensures
            r == (IRect { left, top, right, bottom }),
    {
        IRect { left, top, right, bottom }
    }

    pub fn width(&self) -> (w: i64)
        ensures
            w == self.right - self.left,
    {
        self.right as i64 - self.left as i64
    }

    pub fn height(&self) -> (h: i64)
        ensures
            h == self.bottom - self.top,
    {
        self.bottom as i64 - self.top as i64
    }

    pub fn is_degenerate(&self) -> (r: bool)
        ensures
            r == self.degenerate(),
    {
        self.width() <= 0 || self.height() <= 0
    }
}

impl Default for IRect {
    fn default() -> (r: IRect)
        ensures
            r == IRect::zero(),
    {
        IRect { left: 0, top: 0, right: 0, bottom: 0 }
    }
}

#[derive(Clone, Copy, Debug, PartialEq, Eq, Structural)]
pub struct IPoint {
    pub x: i32,
    pub y: i32,
}

impl IPoint {
    pub fn new(x: i32, y: i32) -> (r: IPoint)
        ensures
            r == (IPoint { x, y }),
    {
        IPoint { x, y }
    }
}

impl Default for IPoint {
    fn default() -> (r: IPoint)
        ensures
            r == (IPoint { x: 0, y: 0 }),
    {
        IPoint { x: 0, y: 0 }
    }
}

#[derive(Clone, Copy, Debug, PartialEq, Eq, Structural)]
pub struct ISize {
    pub width: i32,
    pub height: i32,
}

impl ISize {
    pub fn new(width: i32, height: i32) -> (r: ISize)
        ensures
            r == (ISize { width, height }),
    {
        ISize { width, height }
    }
}

impl Default for ISize {
    fn default() -> (r: ISize)
        ensures
            r == (ISize { width: 0, height: 0 }),
    {
        ISize { width: 0, height: 0 }
    }
}

////////////////////////////////////////////////////////////
// DPI

/// A DPI scale factor, held exactly as the fraction `num / den`.
#[derive(Clone, Copy, Debug, PartialEq, Eq)]
pub struct ScaleDpi {
    num: u32,
    den: u32,
}

impl ScaleDpi {
    #[verifier::type_invariant]
    spec fn positive(self) -> bool {
        self.num > 0 && self.den > 0
    }

    /// Numerator of the factor.
    pub closed spec fn factor_num(self) -> int {
        self.num as int
    }

    /// Denominator of the factor.
    pub closed spec fn factor_den(self) -> int {
        self.den as int
    }

    /// Logical units to pixels: multiply by the factor, round toward zero,
    /// saturate into `i32`.
    pub open spec fn scale_int(self, v: int) -> int {
        sat(trunc_div(v * self.factor_num(), self.factor_den()))
    }

    /// Pixels to logical units: divide by the factor, round toward zero,
    /// saturate into `i32`.
    pub open spec fn rescale_int(self, v: int) -> int {
        sat(trunc_div(v * self.factor_den(), self.factor_num()))
    }

    pub fn new(num: u32, den: u32) -> (r: ScaleDpi)
        requires
            num > 0,
            den > 0,
        ensures
            r.factor_num() == num,
            r.factor_den() == den,
    {
        ScaleDpi { num, den }
    }

    pub fn scale<T: TScaleDpi>(&self, v: T) -> (r: T)
        ensures
            r == v.scale_spec(*self),
    {
        v.scale(self)
    }

    pub fn rescale<T: TScaleDpi>(&self, v: T) -> (r: T)
        ensures
            r == v.rescale_spec(*self),
    {
        v.rescale(self)
    }

    fn mul_div(v: i32, m: u32, d: u32) -> (r: i32)
        requires
            d > 0,
        ensures
            r == sat(trunc_div(v * m, d as int)),
    {
        assert(-0x8000_0000 * 0xFFFF_FFFF <= v as int * m as int <= 0x8000_0000 * 0xFFFF_FFFF)
            by (nonlinear_arith)
            requires
                -0x8000_0000 <= v <= 0x7FFF_FFFF,
                0 <= m <= 0xFFFF_FFFF,
        ;
        let p: i64 = (v as i64) * (m as i64);
        let q: i64 = if p >= 0 {
            ((p as u64) / (d as u64)) as i64
        } else {
            let n: u64 = (-p) as u64;
            -((n / (d as u64)) as i64)
        };
        clamp_i64(q)
    }

    fn scale_i32(&self, v: i32) -> (r: i32)
        ensures
            r == self.scale_int(v as int),
    {
        proof {
            use_type_invariant(self);
        }
        Self::mul_div(v, self.num, self.den)
    }

    fn rescale_i32(&self, v: i32) -> (r: i32)
        ensures
            r == self.rescale_int(v as int),
    {
        proof {
            use_type_invariant(self);
        }
        Self::mul_div(v, self.den, self.num)
    }
}

impl Default for ScaleDpi {
    fn default() -> (r: ScaleDpi)
        ensures
            r.factor_num() == 1,
            r.factor_den() == 1,
    {
        ScaleDpi { num: 1, den: 1 }
    }
}

/// Values that can be moved between logical units and pixels.
pub trait TScaleDpi: Sized {
    spec fn scale_spec(self, dpi: ScaleDpi) -> Self;

    spec fn rescale_spec(self, dpi: ScaleDpi) -> Self;

    fn scale(self, dpi: &ScaleDpi) -> (r: Self)
        ensures
            r == self.scale_spec(*dpi),
    ;

    fn rescale(self, dpi: &ScaleDpi) -> (r: Self)
        ensures
            r == self.rescale_spec(*dpi),
    ;
}

impl TScaleDpi for i32 {
    open spec fn scale_spec(self, dpi: ScaleDpi) -> i32 {
        dpi.scale_int(self as int) as i32
    }

    open spec fn rescale_spec(self, dpi: ScaleDpi) -> i32 {
        dpi.rescale_int(self as int) as i32
    }

    fn scale(self, dpi: &ScaleDpi) -> (r: i32) {
        dpi.scale_i32(self)
    }

    fn rescale(self, dpi: &ScaleDpi) -> (r: i32) {
        dpi.rescale_i32(self)
    }
}

impl TScaleDpi for IRect {
    open spec fn scale_spec(self, dpi: ScaleDpi) -> IRect {
        IRect {
            left: dpi.scale_int(self.left as int) as i32,
            top: dpi.scale_int(self.top as int) as i32,
            right: dpi.scale_int(self.right as int) as i32,
            bottom: dpi.scale_int(self.bottom as int) as i32,
        }
    }

    open spec fn rescale_spec(self, dpi: ScaleDpi) -> IRect {
        IRect {
            left: dpi.rescale_int(self.left as int) as i32,
            top: dpi.rescale_int(self.top as int) as i32,
            right: dpi.rescale_int(self.right as int) as i32,
            bottom: dpi.rescale_int(self.bottom as int) as i32,
        }
    }

    fn scale(self, dpi: &ScaleDpi) -> (r: IRect) {
        IRect::new(
            dpi.scale_i32(self.left),
            dpi.scale_i32(self.top),
            dpi.scale_i32(self.right),
            dpi.scale_i32(self.bottom),
        )
    }

    fn rescale(self, dpi: &ScaleDpi) -> (r: IRect) {
        IRect::new(
            dpi.rescale_i32(self.left),
            dpi.rescale_i32(self.top),
            dpi.rescale_i32(self.right),
            dpi.rescale_i32(self.bottom),
        )
    }
}

impl TScaleDpi for IPoint {
    open spec fn scale_spec(self, dpi: ScaleDpi) -> IPoint {
        IPoint { x: dpi.scale_int(self.x as int) as i32, y: dpi.scale_int(self.y as int) as i32 }
    }

    open spec fn rescale_spec(self, dpi: ScaleDpi) -> IPoint {
        IPoint { x: dpi.rescale_int(self.x as int) as i32, y: dpi.rescale_int(self.y as int) as i32 }
    }

    fn scale(self, dpi: &ScaleDpi) -> (r: IPoint) {
        IPoint::new(dpi.scale_i32(self.x), dpi.scale_i32(self.y))
    }

    fn rescale(self, dpi: &ScaleDpi) -> (r: IPoint) {
        IPoint::new(dpi.rescale_i32(self.x), dpi.rescale_i32(self.y))
    }
}

/// A value of no sign keeps no sign in pixels.
pub proof fn lemma_scale_nonneg(dpi: ScaleDpi, v: int)
    requires
        dpi.factor_num() > 0,
        dpi.factor_den() > 0,
        v >= 0,
    ensures
        dpi.scale_int(v) >= 0,
{
    let n = dpi.factor_num();
    let d = dpi.factor_den();
    assert(v * n >= 0) by (nonlinear_arith)
        requires
            v >= 0,
            n > 0,
    ;
    assert((v * n) / d >= 0) by (nonlinear_arith)
        requires
            v * n >= 0,
            d > 0,
    ;
}

/// Moving a value to pixels and back loses less than one logical unit plus
/// the inverse of the factor: `num * |back - v| < num + den`, wherever the
/// scaled value still fits in `i32`.
pub proof fn lemma_scale_round_trip(dpi: ScaleDpi, v: int)
    requires
        dpi.factor_num() > 0,
        dpi.factor_den() > 0,
        i32::MIN <= v <= i32::MAX,
        i32::MIN <= trunc_div(v * dpi.factor_num(), dpi.factor_den()) <= i32::MAX,
    ensures
        dpi.factor_num() * (dpi.rescale_int(dpi.scale_int(v)) - v) < dpi.factor_num()
            + dpi.factor_den(),
        dpi.factor_num() * (v - dpi.rescale_int(dpi.scale_int(v))) < dpi.factor_num()
            + dpi.factor_den(),
{
    let n = dpi.factor_num();
    let d = dpi.factor_den();
    let s = trunc_div(v * n, d);
    assert(dpi.scale_int(v) == s);
    if v >= 0 {
        let a = v * n;
        assert(a >= 0) by (nonlinear_arith)
            requires
                v >= 0,
                n > 0,
                a == v * n,
        ;
        lemma_fundamental_div_mod(a, d);
        lemma_mod_pos_bound(a, d);
        assert(s >= 0) by (nonlinear_arith)
            requires
                a >= 0,
                d > 0,
                s == a / d,
        ;
        let b = s * d;
        assert(b >= 0) by (nonlinear_arith)
            requires
                s >= 0,
                d > 0,
                b == s * d,
        ;
        lemma_fundamental_div_mod(b, n);
        lemma_mod_pos_bound(b, n);
        let r = b / n;
        assert(r * n <= b < r * n + n) by (nonlinear_arith)
            requires
                b == n * r + b % n,
                0 <= b % n < n,
        ;
        assert(b <= a < b + d) by (nonlinear_arith)
            requires
                a == d * s + a % d,
                0 <= a % d < d,
                b == s * d,
        ;
        assert(r <= v) by (nonlinear_arith)
            requires
                r * n <= b,
                b <= a,
                a == v * n,
                n > 0,
        ;
        assert(0 <= r) by (nonlinear_arith)
            requires
                b >= 0,
                n > 0,
                r == b / n,
        ;
        assert(n * (v - r) < n + d) by (nonlinear_arith)
            requires
                b < r * n + n,
                a < b + d,
                a == v * n,
        ;
        assert(n * (r - v) <= 0) by (nonlinear_arith)
            requires
                r <= v,
                n > 0,
        ;
        assert(dpi.rescale_int(s) == r);
    } else {
        let a = (-v) * n;
        assert(a > 0) by (nonlinear_arith)
            requires
                v < 0,
                n > 0,
                a == (-v) * n,
        ;
        assert(v * n == -a) by (nonlinear_arith)
            requires
                a == (-v) * n,
        ;
        lemma_fundamental_div_mod(a, d);
        lemma_mod_pos_bound(a, d);
        let q = a / d;
        assert(q >= 0) by (nonlinear_arith)
            requires
                a >= 0,
                d > 0,
                q == a / d,
        ;
        assert(s == -q);
        let b = q * d;
        assert(b >= 0) by (nonlinear_arith)
            requires
                q >= 0,
                d > 0,
                b == q * d,
        ;
        assert(s * d == -b) by (nonlinear_arith)
            requires
                s == -q,
                b == q * d,
        ;
        lemma_fundamental_div_mod(b, n);
        lemma_mod_pos_bound(b, n);
        let p = b / n;
        assert(p * n <= b < p * n + n) by (nonlinear_arith)
            requires
                b == n * p + b % n,
                0 <= b % n < n,
        ;
        assert(b <= a < b + d) by (nonlinear_arith)
            requires
                a == d * q + a % d,
                0 <= a % d < d,
                b == q * d,
        ;
        assert(p <= -v) by (nonlinear_arith)
            requires
                p * n <= b,
                b <= a,
                a == (-v) * n,
                n > 0,
        ;
        assert(0 <= p) by (nonlinear_arith)
            requires
                b >= 0,
                n > 0,
                p == b / n,
        ;
        assert(n * ((-v) - p) < n + d) by (nonlinear_arith)
            requires
                b < p * n + n,
                a < b + d,
                a == (-v) * n,
        ;
        assert(n * (p - (-v)) <= 0) by (nonlinear_arith)
            requires
                p <= -v,
                n > 0,
        ;
        if b == 0 {
            assert(p == 0) by (nonlinear_arith)
                requires
                    b == 0,
                    n > 0,
                    p == b / n,
            ;
        }
        assert(dpi.rescale_int(s) == -p);
        assert(n * (-p - v) == n * ((-v) - p)) by (nonlinear_arith);
        assert(n * (v - (-p)) == n * (p - (-v))) by (nonlinear_arith);
    }
}

/// Scaling a rectangle to pixels and back gives every edge again, within
/// the tolerance of `lemma_scale_round_trip`, wherever no edge saturates.
pub proof fn lemma_rect_round_trip(dpi: ScaleDpi, rc: IRect)
    requires
        dpi.factor_num() > 0,
        dpi.factor_den() > 0,
        i32::MIN <= trunc_div(rc.left * dpi.factor_num(), dpi.factor_den()) <= i32::MAX,
        i32::MIN <= trunc_div(rc.top * dpi.factor_num(), dpi.factor_den()) <= i32::MAX,
        i32::MIN <= trunc_div(rc.right * dpi.factor_num(), dpi.factor_den()) <= i32::MAX,
        i32::MIN <= trunc_div(rc.bottom * dpi.factor_num(), dpi.factor_den()) <= i32::MAX,
    ensures
        ({
            let back = rc.scale_spec(dpi).rescale_spec(dpi);
            let n = dpi.factor_num();
            let d = dpi.factor_den();
            &&& n * (back.left - rc.left) < n + d && n * (rc.left - back.left) < n + d
            &&& n * (back.top - rc.top) < n + d && n * (rc.top - back.top) < n + d
            &&& n * (back.right - rc.right) < n + d && n * (rc.right - back.right) < n + d
            &&& n * (back.bottom - rc.bottom) < n + d && n * (rc.bottom - back.bottom) < n + d
        }),
{
    lemma_scale_round_trip(dpi, rc.left as int);
    lemma_scale_round_trip(dpi, rc.top as int);
    lemma_scale_round_trip(dpi, rc.right as int);
    lemma_scale_round_trip(dpi, rc.bottom as int);
}

////////////////////////////////////////////////////////////
// Optional geometry

/// A rectangle whose edges may each be absent.
#[derive(Clone, Copy, Debug, PartialEq, Eq, Structural)]
pub struct IRectOpt {
    pub left: Option<i32>,
    pub top: Option<i32>,
    pub right: Option<i32>,
    pub bottom: Option<i32>,
}

pub open spec fn or_default(v: Option<i32>, default: i32) -> i32 {
    match v {
        Some(x) => x,
        None => default,
    }
}

impl IRectOpt {
    pub fn to_rc(&self, default: i32) -> (r: IRect)
        ensures
            r == (IRect {
                left: or_default(self.left, default),
                top: or_default(self.top, default),
                right: or_default(self.right, default),
                bottom: or_default(self.bottom, default),
            }),
    {
        IRect::new(
            self.left.unwrap_or(default),
            self.top.unwrap_or(default),
            self.right.unwrap_or(default),
            self.bottom.unwrap_or(default),
        )
    }
}

impl Default for IRectOpt {
    fn default() -> (r: IRectOpt)
        ensures
            r == (IRectOpt { left: None, top: None, right: None, bottom: None }),
    {
        IRectOpt { left: None, top: None, right: None, bottom: None }
    }
}

/// A size whose width and height may each be absent.
#[derive(Clone, Copy, Debug, PartialEq, Eq, Structural)]
pub struct ISizeOpt {
    pub width: Option<i32>,
    pub height: Option<i32>,
}

impl ISizeOpt {
    pub fn new(w: Option<i32>, h: Option<i32>) -> (r: ISizeOpt)
        ensures
            r == (ISizeOpt { width: w, height: h }),
    {
        ISizeOpt { width: w, height: h }
    }

    pub fn to_size(&self, default: i32) -> (r: ISize)
        ensures
            r == (ISize {
                width: or_default(self.width, default),
                height: or_default(self.height, default),
            }),
    {
        ISize::new(self.width.unwrap_or(default), self.height.unwrap_or(default))
    }
}

impl Default for ISizeOpt {
    fn default() -> (r: ISizeOpt)
        ensures
            r == (ISizeOpt { width: None, height: None }),
    {
        ISizeOpt { width: None, height: None }
    }
}

/// A point whose coordinates may each be absent.
#[derive(Clone, Copy, Debug, PartialEq, Eq, Structural)]
pub struct IPointOpt {
    pub x: Option<i32>,
    pub y: Option<i32>,
}

impl IPointOpt {
    pub fn new(x: Option<i32>, y: Option<i32>) -> (r: IPointOpt)
        ensures
            r == (IPointOpt { x, y }),
    {
        IPointOpt { x, y }
    }

    pub fn _to_point(self, default: i32) -> (r: IPoint)
        ensures
            r == (IPoint { x: or_default(self.x, default), y: or_default(self.y, default) }),
    {
        IPoint::new(self.x.unwrap_or(default), self.y.unwrap_or(default))
    }
}

impl Default for IPointOpt {
    fn default() -> (r: IPointOpt)
        ensures
            r == (IPointOpt { x: None, y: None }),
    {
        IPointOpt { x: None, y: None }
    }
}

////////////////////////////////////////////////////////////
// Placement

/// `rc`, given relative to the origin of `real_rc`, moved into place and cut
/// to `real_rc`; the zero rectangle when `rc` is degenerate or nothing of it
/// is left inside `real_rc`.
pub open spec fn clip_rect(real_rc: IRect, rc: IRect) -> IRect {
    let l = rc.left + real_rc.left;
    let t = rc.top + real_rc.top;
    let r = min_int(rc.right + real_rc.left, real_rc.right as int);
    let b = min_int(rc.bottom + real_rc.top, real_rc.bottom as int);
    let l2 = max_int(l, real_rc.left as int);
    let t2 = max_int(t, real_rc.top as int);
    if rc.degenerate() || l >= real_rc.right || t >= real_rc.bottom || r <= l2 || b <= t2 {
        IRect::zero()
    } else {
        IRect { left: l2 as i32, top: t2 as i32, right: r as i32, bottom: b as i32 }
    }
}

pub fn cal_real_rc(real_rc: &IRect, rc: IRect) -> (r: IRect)
    ensures
        r == clip_rect(*real_rc, rc),
        r == IRect::zero() || (!r.degenerate() && r.inside(*real_rc)),
{
    if rc.width() <= 0 || rc.height() <= 0 {
        return IRect::default();
    }
    let left: i64 = rc.left as i64 + real_rc.left as i64;
    if left >= real_rc.right as i64 {
        return IRect::default();
    }
    let top: i64 = rc.top as i64 + real_rc.top as i64;
    if top >= real_rc.bottom as i64 {
        return IRect::default();
    }
    let mut right: i64 = rc.right as i64 + real_rc.left as i64;
    if right > real_rc.right as i64 {
        right = real_rc.right as i64;
    }
    let mut bottom: i64 = rc.bottom as i64 + real_rc.top as i64;
    if bottom > real_rc.bottom as i64 {
        bottom = real_rc.bottom as i64;
    }
    let left = if left < real_rc.left as i64 {
        real_rc.left as i64
    } else {
        left
    };
    let top = if top < real_rc.top as i64 {
        real_rc.top as i64
    } else {
        top
    };
    if right <= left || bottom <= top {
        return IRect::default();
    }
    IRect::new(left as i32, top as i32, right as i32, bottom as i32)
}

/// Whether `pos` lies in `rc`, edges included.
pub open spec fn contains(rc: IRect, pos: IPoint) -> bool {
    pos.x >= rc.left && pos.x <= rc.right && pos.y >= rc.top && pos.y <= rc.bottom
}

pub fn in_rc(rc: &IRect, pos: &IPoint) -> (r: bool)
    ensures
        r == contains(*rc, *pos),
{
    pos.x >= rc.left && pos.x <= rc.right && pos.y >= rc.top && pos.y <= rc.bottom
}

} // verus!
