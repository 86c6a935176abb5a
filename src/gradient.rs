//! Gradient descriptors: text in the host's gradient syntax, built once
//! and never interpolated.
use crate::fixed::ONE;
use crate::value::{Color, Value};
use vstd::prelude::*;
use vstd::string::StringExecFns;

verus! {

pub open spec fn digit_char(d: int) -> char {
    if d == 0 {
        '0'
    } else if d == 1 {
        '1'
    } else if d == 2 {
        '2'
    } else if d == 3 {
        '3'
    } else if d == 4 {
        '4'
    } else if d == 5 {
        '5'
    } else if d == 6 {
        '6'
    } else if d == 7 {
        '7'
    } else if d == 8 {
        '8'
    } else {
        '9'
    }
}

/// The decimal digits of `n`.
pub open spec fn decimal(n: nat) -> Seq<char>
    decreases n,
{
    if n < 10 {
        seq![digit_char(n as int)]
    } else {
        decimal(n / 10).push(digit_char((n % 10) as int))
    }
}

/// The last `w` decimal digits of `f`, zero-padded.
pub open spec fn padded(f: nat, w: nat) -> Seq<char>
    decreases w,
{
    if w == 0 {
        Seq::empty()
    } else {
        padded(f / 10, (w - 1) as nat).push(digit_char((f % 10) as int))
    }
}

/// The `w`-digit fraction `f` without its trailing zeros.
pub open spec fn fraction(f: nat, w: nat) -> Seq<char>
    decreases w,
{
    if w > 0 && f % 10 == 0 {
        fraction(f / 10, (w - 1) as nat)
    } else {
        padded(f, w)
    }
}

/// A fixed-point number as decimal text: the whole part, then the
/// fraction without trailing zeros, if any.
pub open spec fn fixed_text(v: nat) -> Seq<char> {
    let whole = decimal(v / ONE as nat);
    let f = v % ONE as nat;
    if f == 0 {
        whole
    } else {
        whole + seq!['.'] + fraction(f, 6)
    }
}

fn push_digit(s: &mut String, d: u64)
    requires
        d < 10,
    ensures
        final(s)@ == old(s)@.push(digit_char(d as int)),
{
    let t: &str = if d == 0 {
        "0"
    } else if d == 1 {
        "1"
    } else if d == 2 {
        "2"
    } else if d == 3 {
        "3"
    } else if d == 4 {
        "4"
    } else if d == 5 {
        "5"
    } else if d == 6 {
        "6"
    } else if d == 7 {
        "7"
    } else if d == 8 {
        "8"
    } else {
        "9"
    };
    proof {
        reveal_strlit("0");
        reveal_strlit("1");
        reveal_strlit("2");
        reveal_strlit("3");
        reveal_strlit("4");
        reveal_strlit("5");
        reveal_strlit("6");
        reveal_strlit("7");
        reveal_strlit("8");
        reveal_strlit("9");
    }
    s.append(t);
    assert(s@ =~= old(s)@.push(digit_char(d as int)));
}

/// Appends the decimal digits of `n`.
pub fn push_decimal(s: &mut String, n: u64)
    ensures
        final(s)@ == old(s)@ + decimal(n as nat),
    decreases n,
{
    if n >= 10 {
        push_decimal(s, n / 10);
        push_digit(s, n % 10);
        assert(s@ =~= old(s)@ + decimal(n as nat));
    } else {
        push_digit(s, n);
        assert(s@ =~= old(s)@ + decimal(n as nat));
    }
}

fn push_padded(s: &mut String, f: u64, w: u64)
    ensures
        final(s)@ == old(s)@ + padded(f as nat, w as nat),
    decreases w,
{
    if w > 0 {
        push_padded(s, f / 10, w - 1);
        push_digit(s, f % 10);
        assert(s@ =~= old(s)@ + padded(f as nat, w as nat));
    } else {
        assert(s@ =~= old(s)@ + padded(f as nat, w as nat));
    }
}

/// Appends a non-negative fixed-point number as decimal text.
pub fn push_fixed(s: &mut String, v: u64)
    ensures
        final(s)@ == old(s)@ + fixed_text(v as nat),
{
    push_decimal(s, v / ONE as u64);
    let f0: u64 = v % ONE as u64;
    if f0 != 0 {
        let mut f: u64 = f0;
        let mut w: u64 = 6;
        while w > 0 && f % 10 == 0
            invariant
                fraction(f as nat, w as nat) == fraction(f0 as nat, 6),
            decreases w,
        {
            f = f / 10;
            w = w - 1;
        }
        s.append(".");
        proof {
            reveal_strlit(".");
        }
        push_padded(s, f, w);
        assert(s@ =~= old(s)@ + fixed_text(v as nat));
    }
}

/// Appends a fixed-point number as decimal text, signed.
pub fn push_signed(s: &mut String, v: i64)
    requires
        v > i64::MIN,
    ensures
        final(s)@ == old(s)@ + signed_text(v as int),
{
    if v < 0 {
        s.append("-");
        proof {
            reveal_strlit("-");
        }
        push_fixed(s, (-v) as u64);
        assert(s@ =~= old(s)@ + signed_text(v as int));
    } else {
        push_fixed(s, v as u64);
    }
}

/// Appends `r, g, b, a`.
fn push_channels(s: &mut String, c: Color)
    ensures
        final(s)@ == old(s)@ + channels_text(c),
{
    push_decimal(s, c.r as u64);
    s.append(", ");
    push_decimal(s, c.g as u64);
    s.append(", ");
    push_decimal(s, c.b as u64);
    s.append(", ");
    push_decimal(s, c.a as u64);
    proof {
        reveal_strlit(", ");
    }
    assert(s@ =~= old(s)@ + channels_text(c));
}

pub open spec fn channels_text(c: Color) -> Seq<char> {
    decimal(c.r as nat) + ", "@ + decimal(c.g as nat) + ", "@ + decimal(c.b as nat) + ", "@
        + decimal(c.a as nat)
}

/// `rgb(r, g, b, a)`.
pub open spec fn color_text(c: Color) -> Seq<char> {
    "rgb("@ + channels_text(c) + ")"@
}

/// The text of a color.
pub fn color_to_string(c: Color) -> (s: String)
    ensures
        s@ == color_text(c),
{
    let mut s = String::from_str("rgb(");
    push_channels(&mut s, c);
    s.append(")");
    proof {
        reveal_strlit("rgb(");
        reveal_strlit(")");
    }
    assert(s@ =~= color_text(c));
    s
}

#[derive(Clone, Copy, Debug, PartialEq, Eq, Structural)]
pub enum GradientType {
    Linear,
    Radial,
    Conic,
}

pub open spec fn type_text(ty: GradientType) -> Seq<char> {
    match ty {
        GradientType::Linear => "linear"@,
        GradientType::Radial => "radial"@,
        GradientType::Conic => "conic"@,
    }
}

/// A fixed-point number as decimal text, with a leading `-` when
/// negative.
pub open spec fn signed_text(v: int) -> Seq<char> {
    if v < 0 {
        seq!['-'] + fixed_text((-v) as nat)
    } else {
        fixed_text(v as nat)
    }
}

/// `rgb(r, g, b, a) P%` for a stop at `at` (a fraction, `ONE` being the
/// end), `P` being `at` in percent.
pub open spec fn stop_text(at: i64, c: Color) -> Seq<char> {
    color_text(c) + " "@ + signed_text(at * 100) + "%"@
}

/// The stops from the `i`th on, joined by `, `.
pub open spec fn stops_text(stops: Seq<(i64, Color)>, i: int) -> Seq<char>
    decreases stops.len() - i,
{
    if i >= stops.len() || i < 0 {
        Seq::empty()
    } else if i == stops.len() - 1 {
        stop_text(stops[i].0, stops[i].1)
    } else {
        stop_text(stops[i].0, stops[i].1) + ", "@ + stops_text(stops, i + 1)
    }
}

pub open spec fn gradient_text(ty: GradientType, stops: Seq<(i64, Color)>) -> Seq<char> {
    type_text(ty) + "-gradient("@ + stops_text(stops, 0) + ")"@
}

/// Builds a gradient descriptor from color stops.
pub struct Gradient {
    pub ty: GradientType,
    pub stops: Vec<(i64, Color)>,
}

/// `at * 100` fits in an `i64`.
pub open spec fn stop_ok(at: i64) -> bool {
    -(i64::MAX / 100) <= at <= i64::MAX / 100
}

impl Gradient {
    pub fn linear() -> (g: Gradient)
        ensures
            g.ty == GradientType::Linear,
            g.stops@.len() == 0,
    {
        Gradient { ty: GradientType::Linear, stops: Vec::new() }
    }

    pub fn radial() -> (g: Gradient)
        ensures
            g.ty == GradientType::Radial,
            g.stops@.len() == 0,
    {
        Gradient { ty: GradientType::Radial, stops: Vec::new() }
    }

    pub fn conic() -> (g: Gradient)
        ensures
            g.ty == GradientType::Conic,
            g.stops@.len() == 0,
    {
        Gradient { ty: GradientType::Conic, stops: Vec::new() }
    }

    /// Adds a color stop at `at`.
    pub fn stop(self, at: i64, color: Color) -> (g: Gradient)
        ensures
            g.ty == self.ty,
            g.stops@ == self.stops@.push((at, color)),
    {
        let mut stops = self.stops;
        stops.push((at, color));
        Gradient { ty: self.ty, stops }
    }

    /// The gradient as a value: `<type>-gradient(<stops>)`.
    pub fn build(self) -> (v: Value)
        requires
            forall|i: int| 0 <= i < self.stops@.len() ==> stop_ok(#[trigger] self.stops@[i].0),
        ensures
            match v {
                Value::Gradient(s) => s@ == gradient_text(self.ty, self.stops@),
                _ => false,
            },
    {
        let mut s = match self.ty {
            GradientType::Linear => String::from_str("linear"),
            GradientType::Radial => String::from_str("radial"),
            GradientType::Conic => String::from_str("conic"),
        };
        proof {
            reveal_strlit("linear");
            reveal_strlit("radial");
            reveal_strlit("conic");
            reveal_strlit("-gradient(");
            reveal_strlit(", ");
            reveal_strlit(" ");
            reveal_strlit("%");
            reveal_strlit(")");
        }
        s.append("-gradient(");
        let ghost head = s@;
        let n: usize = self.stops.len();
        let mut i: usize = 0;
        while i < n
            invariant
                i <= n,
                n == self.stops@.len(),
                forall|k: int| 0 <= k < self.stops@.len() ==> stop_ok(#[trigger] self.stops@[k].0),
                s@ + stops_text(self.stops@, i as int) == head + stops_text(self.stops@, 0),
            decreases n - i,
        {
            let ghost before = s@;
            let (at, color) = self.stops[i];
            let c = color_to_string(color);
            s.append(c.as_str());
            s.append(" ");
            push_signed(&mut s, at * 100);
            s.append("%");
            if i + 1 < n {
                s.append(", ");
            }
            assert(s@ + stops_text(self.stops@, i + 1) =~= before + stops_text(self.stops@, i as int));
            i = i + 1;
        }
        s.append(")");
        assert(s@ =~= gradient_text(self.ty, self.stops@));
        Value::Gradient(s)
    }
}

impl Value {
    /// The text of a color or gradient value.
    pub fn describe(&self) -> (s: String)
        requires
            self is Color || self is Gradient,
        ensures
            match *self {
                Value::Color(c) => s@ == color_text(c),
                Value::Gradient(g) => s@ == g@,
                _ => true,
            },
    {
        match self {
            Value::Color(c) => color_to_string(*c),
            Value::Gradient(g) => g.clone(),
            _ => String::new(),
        }
    }
}

} // verus!
