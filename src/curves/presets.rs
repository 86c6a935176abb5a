//! The named easing presets: cubic curves with fixed control points.
use super::{Cubic, Curve};
use vstd::prelude::*;

verus! {

impl Curve {
    pub fn fast_linear_to_slow_ease_in() -> (c: Curve)
        ensures
            c == Curve::Cubic(Cubic { a: 180_000, b: 1_000_000, c: 40_000, d: 1_000_000 }),
            c.wf(),
    {
        Curve::Cubic(Cubic { a: 180_000, b: 1_000_000, c: 40_000, d: 1_000_000 })
    }

    pub fn ease() -> (c: Curve)
        ensures
            c == Curve::Cubic(Cubic { a: 250_000, b: 100_000, c: 250_000, d: 1_000_000 }),
            c.wf(),
    {
        Curve::Cubic(Cubic { a: 250_000, b: 100_000, c: 250_000, d: 1_000_000 })
    }

    pub fn ease_in() -> (c: Curve)
        ensures
            c == Curve::Cubic(Cubic { a: 420_000, b: 0, c: 1_000_000, d: 1_000_000 }),
            c.wf(),
    {
        Curve::Cubic(Cubic { a: 420_000, b: 0, c: 1_000_000, d: 1_000_000 })
    }

    pub fn ease_in_to_linear() -> (c: Curve)
        ensures
            c == Curve::Cubic(Cubic { a: 670_000, b: 30_000, c: 650_000, d: 90_000 }),
            c.wf(),
    {
        Curve::Cubic(Cubic { a: 670_000, b: 30_000, c: 650_000, d: 90_000 })
    }

    pub fn ease_in_sine() -> (c: Curve)
        ensures
            c == Curve::Cubic(Cubic { a: 470_000, b: 0, c: 745_000, d: 715_000 }),
            c.wf(),
    {
        Curve::Cubic(Cubic { a: 470_000, b: 0, c: 745_000, d: 715_000 })
    }

    pub fn ease_in_quad() -> (c: Curve)
        ensures
            c == Curve::Cubic(Cubic { a: 550_000, b: 85_000, c: 680_000, d: 530_000 }),
            c.wf(),
    {
        Curve::Cubic(Cubic { a: 550_000, b: 85_000, c: 680_000, d: 530_000 })
    }

    pub fn ease_in_cubic() -> (c: Curve)
        ensures
            c == Curve::Cubic(Cubic { a: 550_000, b: 55_000, c: 675_000, d: 190_000 }),
            c.wf(),
    {
        Curve::Cubic(Cubic { a: 550_000, b: 55_000, c: 675_000, d: 190_000 })
    }

    pub fn ease_in_quart() -> (c: Curve)
        ensures
            c == Curve::Cubic(Cubic { a: 895_000, b: 30_000, c: 685_000, d: 220_000 }),
            c.wf(),
    {
        Curve::Cubic(Cubic { a: 895_000, b: 30_000, c: 685_000, d: 220_000 })
    }

    pub fn ease_in_quint() -> (c: Curve)
        ensures
            c == Curve::Cubic(Cubic { a: 755_000, b: 50_000, c: 855_000, d: 60_000 }),
            c.wf(),
    {
        Curve::Cubic(Cubic { a: 755_000, b: 50_000, c: 855_000, d: 60_000 })
    }

    pub fn ease_in_expo() -> (c: Curve)
        ensures
            c == Curve::Cubic(Cubic { a: 950_000, b: 50_000, c: 795_000, d: 35_000 }),
            c.wf(),
    {
        Curve::Cubic(Cubic { a: 950_000, b: 50_000, c: 795_000, d: 35_000 })
    }

    pub fn ease_in_circ() -> (c: Curve)
        ensures
            c == Curve::Cubic(Cubic { a: 600_000, b: 40_000, c: 980_000, d: 335_000 }),
            c.wf(),
    {
        Curve::Cubic(Cubic { a: 600_000, b: 40_000, c: 980_000, d: 335_000 })
    }

    pub fn ease_in_back() -> (c: Curve)
        ensures
            c == Curve::Cubic(Cubic { a: 600_000, b: -280_000i64, c: 735_000, d: 45_000 }),
            c.wf(),
    {
        Curve::Cubic(Cubic { a: 600_000, b: -280_000, c: 735_000, d: 45_000 })
    }

    pub fn ease_out() -> (c: Curve)
        ensures
            c == Curve::Cubic(Cubic { a: 0, b: 0, c: 580_000, d: 1_000_000 }),
            c.wf(),
    {
        Curve::Cubic(Cubic { a: 0, b: 0, c: 580_000, d: 1_000_000 })
    }

    pub fn linear_to_ease_out() -> (c: Curve)
        ensures
            c == Curve::Cubic(Cubic { a: 350_000, b: 910_000, c: 330_000, d: 970_000 }),
            c.wf(),
    {
        Curve::Cubic(Cubic { a: 350_000, b: 910_000, c: 330_000, d: 970_000 })
    }

    pub fn ease_out_sine() -> (c: Curve)
        ensures
            c == Curve::Cubic(Cubic { a: 390_000, b: 575_000, c: 565_000, d: 1_000_000 }),
            c.wf(),
    {
        Curve::Cubic(Cubic { a: 390_000, b: 575_000, c: 565_000, d: 1_000_000 })
    }

    pub fn ease_out_quad() -> (c: Curve)
        ensures
            c == Curve::Cubic(Cubic { a: 250_000, b: 460_000, c: 450_000, d: 940_000 }),
            c.wf(),
    {
        Curve::Cubic(Cubic { a: 250_000, b: 460_000, c: 450_000, d: 940_000 })
    }

    pub fn ease_out_cubic() -> (c: Curve)
        ensures
            c == Curve::Cubic(Cubic { a: 215_000, b: 610_000, c: 355_000, d: 1_000_000 }),
            c.wf(),
    {
        Curve::Cubic(Cubic { a: 215_000, b: 610_000, c: 355_000, d: 1_000_000 })
    }

    pub fn ease_out_quart() -> (c: Curve)
        ensures
            c == Curve::Cubic(Cubic { a: 165_000, b: 840_000, c: 440_000, d: 1_000_000 }),
            c.wf(),
    {
        Curve::Cubic(Cubic { a: 165_000, b: 840_000, c: 440_000, d: 1_000_000 })
    }

    pub fn ease_out_quint() -> (c: Curve)
        ensures
            c == Curve::Cubic(Cubic { a: 230_000, b: 1_000_000, c: 320_000, d: 1_000_000 }),
            c.wf(),
    {
        Curve::Cubic(Cubic { a: 230_000, b: 1_000_000, c: 320_000, d: 1_000_000 })
    }

    pub fn ease_out_expo() -> (c: Curve)
        ensures
            c == Curve::Cubic(Cubic { a: 190_000, b: 1_000_000, c: 220_000, d: 1_000_000 }),
            c.wf(),
    {
        Curve::Cubic(Cubic { a: 190_000, b: 1_000_000, c: 220_000, d: 1_000_000 })
    }

    pub fn ease_out_circ() -> (c: Curve)
        ensures
            c == Curve::Cubic(Cubic { a: 75_000, b: 820_000, c: 165_000, d: 1_000_000 }),
            c.wf(),
    {
        Curve::Cubic(Cubic { a: 75_000, b: 820_000, c: 165_000, d: 1_000_000 })
    }

    pub fn ease_out_back() -> (c: Curve)
        ensures
            c == Curve::Cubic(Cubic { a: 175_000, b: 885_000, c: 320_000, d: 1_275_000 }),
            c.wf(),
    {
        Curve::Cubic(Cubic { a: 175_000, b: 885_000, c: 320_000, d: 1_275_000 })
    }

    pub fn ease_in_out() -> (c: Curve)
        ensures
            c == Curve::Cubic(Cubic { a: 420_000, b: 0, c: 580_000, d: 1_000_000 }),
            c.wf(),
    {
        Curve::Cubic(Cubic { a: 420_000, b: 0, c: 580_000, d: 1_000_000 })
    }

    pub fn ease_in_out_sine() -> (c: Curve)
        ensures
            c == Curve::Cubic(Cubic { a: 445_000, b: 50_000, c: 550_000, d: 950_000 }),
            c.wf(),
    {
        Curve::Cubic(Cubic { a: 445_000, b: 50_000, c: 550_000, d: 950_000 })
    }

    pub fn ease_in_out_quad() -> (c: Curve)
        ensures
            c == Curve::Cubic(Cubic { a: 455_000, b: 30_000, c: 515_000, d: 955_000 }),
            c.wf(),
    {
        Curve::Cubic(Cubic { a: 455_000, b: 30_000, c: 515_000, d: 955_000 })
    }

    pub fn ease_in_out_cubic() -> (c: Curve)
        ensures
            c == Curve::Cubic(Cubic { a: 645_000, b: 45_000, c: 355_000, d: 1_000_000 }),
            c.wf(),
    {
        Curve::Cubic(Cubic { a: 645_000, b: 45_000, c: 355_000, d: 1_000_000 })
    }

    pub fn ease_in_out_quart() -> (c: Curve)
        ensures
            c == Curve::Cubic(Cubic { a: 770_000, b: 0, c: 175_000, d: 1_000_000 }),
            c.wf(),
    {
        Curve::Cubic(Cubic { a: 770_000, b: 0, c: 175_000, d: 1_000_000 })
    }

    pub fn ease_in_out_quint() -> (c: Curve)
        ensures
            c == Curve::Cubic(Cubic { a: 860_000, b: 0, c: 70_000, d: 1_000_000 }),
            c.wf(),
    {
        Curve::Cubic(Cubic { a: 860_000, b: 0, c: 70_000, d: 1_000_000 })
    }

    pub fn ease_in_out_expo() -> (c: Curve)
        ensures
            c == Curve::Cubic(Cubic { a: 1_000_000, b: 0, c: 0, d: 1_000_000 }),
            c.wf(),
    {
        Curve::Cubic(Cubic { a: 1_000_000, b: 0, c: 0, d: 1_000_000 })
    }

    pub fn ease_in_out_circ() -> (c: Curve)
        ensures
            c == Curve::Cubic(Cubic { a: 785_000, b: 135_000, c: 150_000, d: 860_000 }),
            c.wf(),
    {
        Curve::Cubic(Cubic { a: 785_000, b: 135_000, c: 150_000, d: 860_000 })
    }

    pub fn ease_in_out_back() -> (c: Curve)
        ensures
            c == Curve::Cubic(Cubic { a: 680_000, b: -550_000i64, c: 265_000, d: 1_550_000 }),
            c.wf(),
    {
        Curve::Cubic(Cubic { a: 680_000, b: -550_000, c: 265_000, d: 1_550_000 })
    }

    pub fn fast_out_slow_in() -> (c: Curve)
        ensures
            c == Curve::Cubic(Cubic { a: 400_000, b: 0, c: 200_000, d: 1_000_000 }),
            c.wf(),
    {
        Curve::Cubic(Cubic { a: 400_000, b: 0, c: 200_000, d: 1_000_000 })
    }

    pub fn slow_middle() -> (c: Curve)
        ensures
            c == Curve::Cubic(Cubic { a: 150_000, b: 850_000, c: 850_000, d: 150_000 }),
            c.wf(),
    {
        Curve::Cubic(Cubic { a: 150_000, b: 850_000, c: 850_000, d: 150_000 })
    }
}

} // verus!
