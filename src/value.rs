//! The animatable values and their interpolation.
use crate::curves::bounded;
use crate::fixed::{floor_div, ONE};
use vstd::prelude::*;

verus! {

/// A color as four 8-bit channels.
#[derive(Clone, Copy, Debug, PartialEq, Eq, Structural)]
pub struct Color {
    pub a: u8,
    pub r: u8,
    pub g: u8,
    pub b: u8,
}

/// A 2-D point with fixed-point coordinates.
#[derive(Clone, Copy, Debug, PartialEq, Eq, Structural)]
pub struct Point {
    pub x: i64,
    pub y: i64,
}

/// An animatable value. Numbers and point coordinates are fixed-point
/// (`ONE` is 1). A gradient is an opaque descriptor and is never
/// interpolated.
#[derive(Debug)]
pub enum Value {
    Color(Color),
    Number(i64),
    Gradient(String),
    Point(Point),
}

/// The kind of a [`Value`].
#[derive(Clone, Copy, Debug, PartialEq, Eq, Structural)]
pub enum ValueKind {
    Color,
    Number,
    Gradient,
    Point,
}

pub open spec fn kind_of(v: Value) -> ValueKind {
    match v {
        Value::Color(_) => ValueKind::Color,
        Value::Number(_) => ValueKind::Number,
        Value::Gradient(_) => ValueKind::Gradient,
        Value::Point(_) => ValueKind::Point,
    }
}

impl Clone for Value {
    fn clone(&self) -> (r: Self)
        ensures
            r == *self,
    {
        match self {
            Value::Color(c) => Value::Color(*c),
            Value::Number(n) => Value::Number(*n),
            Value::Gradient(g) => Value::Gradient(g.clone()),
            Value::Point(p) => Value::Point(*p),
        }
    }
}

/// Whether two values are the same, gradients compared by their text.
pub open spec fn same_value(a: Value, b: Value) -> bool {
    match (a, b) {
        (Value::Color(x), Value::Color(y)) => x == y,
        (Value::Number(x), Value::Number(y)) => x == y,
        (Value::Gradient(x), Value::Gradient(y)) => x@ == y@,
        (Value::Point(x), Value::Point(y)) => x == y,
        _ => false,
    }
}

/// Two values can be interpolated: the same kind, and not gradients.
pub open spec fn interpolable(a: Value, b: Value) -> bool {
    match (a, b) {
        (Value::Color(_), Value::Color(_)) => true,
        (Value::Number(_), Value::Number(_)) => true,
        (Value::Point(_), Value::Point(_)) => true,
        _ => false,
    }
}

pub open spec fn clamp(v: int, lo: int, hi: int) -> int {
    if v < lo {
        lo
    } else if v > hi {
        hi
    } else {
        v
    }
}

/// `a * (1 - x) + b * x` in fixed point, rounded down.
pub open spec fn blend(a: int, b: int, x: int) -> int {
    (a * (ONE - x) + b * x) / (ONE as int)
}

/// A number blended at `x`, saturated to the `i64` range.
pub open spec fn lerp_number_spec(a: int, b: int, x: int) -> int {
    clamp(blend(a, b, x), i64::MIN as int, i64::MAX as int)
}

/// A channel blended at `x`, truncated and saturated to `0..=255`.
pub open spec fn lerp_channel_spec(a: int, b: int, x: int) -> int {
    clamp(blend(a, b, x), 0, 255)
}

pub open spec fn lerp_color_spec(s: Color, e: Color, x: int) -> Color {
    Color {
        a: lerp_channel_spec(s.a as int, e.a as int, x) as u8,
        r: lerp_channel_spec(s.r as int, e.r as int, x) as u8,
        g: lerp_channel_spec(s.g as int, e.g as int, x) as u8,
        b: lerp_channel_spec(s.b as int, e.b as int, x) as u8,
    }
}

pub open spec fn lerp_point_spec(s: Point, e: Point, x: int) -> Point {
    Point {
        x: lerp_number_spec(s.x as int, e.x as int, x) as i64,
        y: lerp_number_spec(s.y as int, e.y as int, x) as i64,
    }
}

/// Interpolation between two values of one kind at eased progress `x`.
pub open spec fn lerp_spec(a: Value, b: Value, x: int) -> Value {
    match (a, b) {
        (Value::Color(s), Value::Color(e)) => Value::Color(lerp_color_spec(s, e, x)),
        (Value::Number(s), Value::Number(e)) => Value::Number(lerp_number_spec(s as int, e as int, x) as i64),
        (Value::Point(s), Value::Point(e)) => Value::Point(lerp_point_spec(s, e, x)),
        _ => a,
    }
}

proof fn lemma_product_bound(a: int, b: int, ka: int, kb: int)
    requires
        -ka <= a <= ka,
        -kb <= b <= kb,
    ensures
        -(ka * kb) <= a * b <= ka * kb,
{
    assert(-(ka * kb) <= a * b <= ka * kb) by (nonlinear_arith)
        requires
            -ka <= a <= ka,
            -kb <= b <= kb,
    ;
}

fn blend_exec(a: i64, b: i64, x: i64) -> (r: i128)
    requires
        bounded(x as int),
    ensures
        r == blend(a as int, b as int, x as int),
{
    let w: i128 = ONE as i128 - x as i128;
    proof {
        lemma_product_bound(a as int, w as int, 0x8000_0000_0000_0000, 0x2000_0000_0000_0000);
        lemma_product_bound(b as int, x as int, 0x8000_0000_0000_0000, 0x2000_0000_0000_0000);
    }
    let n: i128 = a as i128 * w + b as i128 * x as i128;
    floor_div(n, ONE as i128)
}

/// Blends two numbers; see [`lerp_number_spec`].
pub fn lerp_number(a: i64, b: i64, x: i64) -> (r: i64)
    requires
        bounded(x as int),
    ensures
        r == lerp_number_spec(a as int, b as int, x as int),
{
    let v: i128 = blend_exec(a, b, x);
    if v < i64::MIN as i128 {
        i64::MIN
    } else if v > i64::MAX as i128 {
        i64::MAX
    } else {
        v as i64
    }
}

fn lerp_channel(a: u8, b: u8, x: i64) -> (r: u8)
    requires
        bounded(x as int),
    ensures
        r == lerp_channel_spec(a as int, b as int, x as int),
{
    let v: i128 = blend_exec(a as i64, b as i64, x);
    if v < 0 {
        0
    } else if v > 255 {
        255
    } else {
        v as u8
    }
}

impl Color {
    pub fn from_argb(a: u8, r: u8, g: u8, b: u8) -> (c: Color)
        ensures
            c == (Color { a, r, g, b }),
    {
        Color { a, r, g, b }
    }

    /// An opaque color.
    pub fn from_rgb(r: u8, g: u8, b: u8) -> (c: Color)
        ensures
            c == (Color { a: 255, r, g, b }),
    {
        Color { a: 255, r, g, b }
    }

    /// Blends each channel on its own.
    pub fn lerp(&self, end: &Color, x: i64) -> (c: Color)
        requires
            bounded(x as int),
        ensures
            c == lerp_color_spec(*self, *end, x as int),
    {
        Color {
            a: lerp_channel(self.a, end.a, x),
            r: lerp_channel(self.r, end.r, x),
            g: lerp_channel(self.g, end.g, x),
            b: lerp_channel(self.b, end.b, x),
        }
    }
}

impl Point {
    pub fn new(x: i64, y: i64) -> (p: Point)
        ensures
            p == (Point { x, y }),
    {
        Point { x, y }
    }

    /// Blends each coordinate on its own.
    pub fn lerp(&self, end: &Point, x: i64) -> (p: Point)
        requires
            bounded(x as int),
        ensures
            p == lerp_point_spec(*self, *end, x as int),
    {
        Point { x: lerp_number(self.x, end.x, x), y: lerp_number(self.y, end.y, x) }
    }
}

impl Value {
    /// Interpolates towards `end` at eased progress `x`.
    pub fn lerp(&self, end: &Value, x: i64) -> (r: Value)
        requires
            interpolable(*self, *end),
            bounded(x as int),
        ensures
            r == lerp_spec(*self, *end, x as int),
    {
        match (self, end) {
            (Value::Color(s), Value::Color(e)) => Value::Color(s.lerp(e, x)),
            (Value::Number(s), Value::Number(e)) => Value::Number(lerp_number(*s, *e, x)),
            (Value::Point(s), Value::Point(e)) => Value::Point(s.lerp(e, x)),
            _ => self.clone(),
        }
    }

    pub fn kind(&self) -> (k: ValueKind)
        ensures
            k == kind_of(*self),
    {
        match self {
            Value::Color(_) => ValueKind::Color,
            Value::Number(_) => ValueKind::Number,
            Value::Gradient(_) => ValueKind::Gradient,
            Value::Point(_) => ValueKind::Point,
        }
    }

    /// The color a color value holds.
    pub fn as_color(&self) -> (c: Color)
        requires
            *self is Color,
        ensures
            *self == Value::Color(c),
    {
        match self {
            Value::Color(c) => *c,
            _ => Color { a: 0, r: 0, g: 0, b: 0 },
        }
    }

    /// The number a number value holds.
    pub fn as_number(&self) -> (n: i64)
        requires
            *self is Number,
        ensures
            *self == Value::Number(n),
    {
        match self {
            Value::Number(n) => *n,
            _ => 0,
        }
    }

    /// The point a point value holds.
    pub fn as_point(&self) -> (p: Point)
        requires
            *self is Point,
        ensures
            *self == Value::Point(p),
    {
        match self {
            Value::Point(p) => *p,
            _ => Point { x: 0, y: 0 },
        }
    }

    /// Whether two values are the same; see [`same_value`].
    pub fn same_as(&self, other: &Value) -> (r: bool)
        ensures
            r == same_value(*self, *other),
    {
        match (self, other) {
            (Value::Color(x), Value::Color(y)) => *x == *y,
            (Value::Number(x), Value::Number(y)) => *x == *y,
            (Value::Gradient(x), Value::Gradient(y)) => x.eq(y),
            (Value::Point(x), Value::Point(y)) => *x == *y,
            _ => false,
        }
    }
}

/// Two values interpolate exactly when they share a kind other than
/// gradient, and what comes out is of that kind again.
pub proof fn lemma_interpolable_kinds(a: Value, b: Value, x: int)
    ensures
        interpolable(a, b) <==> (kind_of(a) == kind_of(b) && kind_of(a) != ValueKind::Gradient),
        kind_of(lerp_spec(a, b, x)) == kind_of(a),
{
}

} // verus!
