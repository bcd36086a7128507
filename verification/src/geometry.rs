//! Plain 2D value types and the discrete zoom factor.
//!
//! `Scale` is an integer multiplicative zoom factor of at least 1: it is
//! applied to a coordinate by multiplication and undone by division, so a
//! scaled-up viewport shows each canvas pixel as an `n` by `n` block.

use vstd::prelude::*;
use vstd::string::StringExecFns;

verus! {

/// The character for one decimal digit.
pub open spec fn digit_char(d: int) -> char {
    if d == 0 {
        '0'
    } else if d == 1 {
        '1'
    } else if d == 2 {
        '2'
    } else if d == 3 {
        '3'
    } else if d == 4 {
        '4'
    } else if d == 5 {
        '5'
    } else if d == 6 {
        '6'
    } else if d == 7 {
        '7'
    } else if d == 8 {
        '8'
    } else {
        '9'
    }
}

/// The decimal numeral of a nonnegative number, most significant digit
/// first.
pub open spec fn spec_decimal(n: int) -> Seq<char>
    decreases n,
{
    if n <= 9 {
        seq![digit_char(n)]
    } else {
        spec_decimal(n / 10).push(digit_char(n % 10))
    }
}

/// The digits `ds`, least significant first, read back as characters in
/// display order.
pub open spec fn rev_digit_chars(ds: Seq<u32>) -> Seq<char> {
    Seq::new(ds.len(), |i: int| digit_char(ds[ds.len() - 1 - i] as int))
}

/// The one-character string for a decimal digit.
fn digit_str(d: u32) -> (r: &'static str)
    requires
        d < 10,
    ensures
        r@ == seq![digit_char(d as int)],
{
    proof {
        reveal_strlit("0");
        reveal_strlit("1");
        reveal_strlit("2");
        reveal_strlit("3");
        reveal_strlit("4");
        reveal_strlit("5");
        reveal_strlit("6");
        reveal_strlit("7");
        reveal_strlit("8");
        reveal_strlit("9");
    }
    let r: &'static str = if d == 0 {
        "0"
    } else if d == 1 {
        "1"
    } else if d == 2 {
        "2"
    } else if d == 3 {
        "3"
    } else if d == 4 {
        "4"
    } else if d == 5 {
        "5"
    } else if d == 6 {
        "6"
    } else if d == 7 {
        "7"
    } else if d == 8 {
        "8"
    } else {
        "9"
    };
    proof {
        assert(r@ =~= seq![digit_char(d as int)]);
    }
    r
}

/// A 2D coordinate pair.
#[derive(Debug, Clone, Copy, PartialEq, Eq, Structural)]
pub struct Point<T> {
    pub x: T,
    pub y: T,
}

impl<T> Point<T> {
    pub fn new(x: T, y: T) -> (r: Point<T>)
        ensures
            r.x == x,
            r.y == y,
    {
        Point { x, y }
    }
}

/// An axis-aligned box given by its top-left corner and its extent.
#[derive(Debug, Clone, Copy, PartialEq, Eq, Structural)]
pub struct Rectangle<T> {
    left: T,
    top: T,
    width: T,
    height: T,
}

impl<T> Rectangle<T> {
    pub fn new(left: T, top: T, width: T, height: T) -> (r: Rectangle<T>)
        ensures
            r.spec_left() == left,
            r.spec_top() == top,
            r.spec_width() == width,
            r.spec_height() == height,
    {
        Rectangle { left, top, width, height }
    }

    pub closed spec fn spec_left(self) -> T {
        self.left
    }

    pub closed spec fn spec_top(self) -> T {
        self.top
    }

    pub closed spec fn spec_width(self) -> T {
        self.width
    }

    pub closed spec fn spec_height(self) -> T {
        self.height
    }
}

impl<T: Copy> Rectangle<T> {
    pub fn left(&self) -> (r: T)
        ensures
            r == self.spec_left(),
    {
        self.left
    }

    pub fn top(&self) -> (r: T)
        ensures
            r == self.spec_top(),
    {
        self.top
    }

    pub fn width(&self) -> (r: T)
        ensures
            r == self.spec_width(),
    {
        self.width
    }

    pub fn height(&self) -> (r: T)
        ensures
            r == self.spec_height(),
    {
        self.height
    }
}

impl Rectangle<i64> {
    pub fn right(&self) -> (r: i64)
        requires
            i64::MIN <= self.spec_left() + self.spec_width() <= i64::MAX,
        ensures
            r == self.spec_left() + self.spec_width(),
    {
        self.left + self.width
    }

    pub fn bottom(&self) -> (r: i64)
        requires
            i64::MIN <= self.spec_top() + self.spec_height() <= i64::MAX,
        ensures
            r == self.spec_top() + self.spec_height(),
    {
        self.top + self.height
    }
}

/// The discrete zoom factor: `Times(n)` multiplies a length by `n`.
#[derive(Debug, Clone, Copy, PartialEq, Eq, Structural)]
pub enum Scale {
    Times(u32),
}

impl Scale {
    /// The multiplier `n` of `Times(n)`.
    pub open spec fn factor(self) -> int {
        match self {
            Scale::Times(n) => n as int,
        }
    }

    /// A zoom factor is meaningful only when it is at least 1: there is no
    /// zoom below 100%.
    pub open spec fn wf(self) -> bool {
        self.factor() >= 1
    }

    pub fn times(&self) -> (n: u32)
        ensures
            n as int == self.factor(),
    {
        match *self {
            Scale::Times(n) => n,
        }
    }

    /// Scales a length up: canvas units to screen units.
    pub fn apply(self, num: u32) -> (r: u32)
        requires
            self.factor() * num <= u32::MAX,
        ensures
            r as int == self.factor() * num,
    {
        match self {
            Scale::Times(n) => n * num,
        }
    }

    /// The zoom factor as a percentage, e.g. `300%` for `Times(3)`.
    pub fn to_percentage_string(&self) -> (r: String)
        ensures
            r@ == spec_decimal(self.factor()).add("00%"@),
    {
        let n = self.times();
        let mut digits: Vec<u32> = Vec::new();
        let mut m = n;
        while m > 9
            invariant
                spec_decimal(n as int) =~= spec_decimal(m as int).add(rev_digit_chars(digits@)),
                forall|i: int| 0 <= i < digits@.len() ==> (#[trigger] digits@[i]) < 10,
            decreases m,
        {
            let ghost before = digits@;
            digits.push(m % 10);
            proof {
                assert(rev_digit_chars(digits@) =~= seq![digit_char(m as int % 10)].add(
                    rev_digit_chars(before),
                ));
                assert(spec_decimal(m as int) =~= spec_decimal(m as int / 10).push(
                    digit_char(m as int % 10),
                ));
                assert(spec_decimal(m as int).add(rev_digit_chars(before)) =~= spec_decimal(
                    m as int / 10,
                ).add(rev_digit_chars(digits@)));
            }
            m = m / 10;
        }
        let mut out = String::new();
        out.append(digit_str(m));
        proof {
            assert(out@ =~= spec_decimal(m as int));
        }
        let mut k = digits.len();
        while k > 0
            invariant
                k <= digits@.len(),
                forall|i: int| 0 <= i < digits@.len() ==> (#[trigger] digits@[i]) < 10,
                out@ =~= spec_decimal(m as int).add(
                    rev_digit_chars(digits@).take(digits@.len() - k),
                ),
            decreases k,
        {
            k = k - 1;
            let ghost before = out@;
            out.append(digit_str(digits[k]));
            proof {
                assert(rev_digit_chars(digits@).take(digits@.len() - k) =~= rev_digit_chars(
                    digits@,
                ).take(digits@.len() - (k + 1)).push(digit_char(digits@[k as int] as int)));
                assert(out@ =~= spec_decimal(m as int).add(
                    rev_digit_chars(digits@).take(digits@.len() - k),
                ));
            }
        }
        proof {
            assert(rev_digit_chars(digits@).take(digits@.len() - 0) =~= rev_digit_chars(digits@));
            assert(out@ =~= spec_decimal(n as int));
        }
        out.append("00%");
        out
    }

    /// Scales a length down: screen units to canvas units, rounding the
    /// quotient toward zero.
    pub fn unapply(self, num: u32) -> (r: u32)
        requires
            self.wf(),
        ensures
            r as int == num as int / self.factor(),
    {
        match self {
            Scale::Times(n) => num / n,
        }
    }
}

/// An exact sub-pixel canvas position: the value `num / den` on each axis,
/// with one shared positive denominator. The viewport transform keeps every
/// coordinate on the grid of `1 / (2 * scale)` canvas units, so positions
/// are represented exactly, with no rounding drift.
#[derive(Debug, Clone, Copy, PartialEq, Eq, Structural)]
pub struct SubpixelPoint {
    pub num_x: i64,
    pub num_y: i64,
    pub den: i64,
}

impl SubpixelPoint {
    pub open spec fn wf(self) -> bool {
        self.den >= 1
    }

    pub fn new(num_x: i64, num_y: i64, den: i64) -> (r: SubpixelPoint)
        requires
            den >= 1,
        ensures
            r == (SubpixelPoint { num_x, num_y, den }),
    {
        SubpixelPoint { num_x, num_y, den }
    }

    /// The whole-pixel coordinate this position falls in: the floor of the
    /// exact value on each axis.
    pub fn floor(&self) -> (r: Point<i64>)
        requires
            self.wf(),
            -0x4000_0000_0000_0000 < self.num_x < 0x4000_0000_0000_0000,
            -0x4000_0000_0000_0000 < self.num_y < 0x4000_0000_0000_0000,
        ensures
            r.x == self.num_x as int / self.den as int,
            r.y == self.num_y as int / self.den as int,
    {
        Point { x: floor_div(self.num_x, self.den), y: floor_div(self.num_y, self.den) }
    }
}

/// The floor of `n / d` for a positive divisor, as the mathematical
/// (Euclidean) quotient.
pub fn floor_div(n: i64, d: i64) -> (q: i64)
    requires
        d >= 1,
        -0x4000_0000_0000_0000 < n < 0x4000_0000_0000_0000,
    ensures
        q == n as int / d as int,
{
    if n >= 0 {
        n / d
    } else {
        let m = -n;
        let q0 = m / d;
        let r0 = m % d;
        proof {
            vstd::arithmetic::div_mod::lemma_fundamental_div_mod(m as int, d as int);
        }
        if r0 == 0 {
            proof {
                assert(n as int == (-(q0 as int)) * (d as int) + 0) by (nonlinear_arith)
                    requires
                        m as int == (d as int) * (q0 as int) + (r0 as int) && r0 == 0 && n as int
                            == -(m as int),
                ;
                vstd::arithmetic::div_mod::lemma_fundamental_div_mod_converse_div(
                    n as int,
                    d as int,
                    -(q0 as int),
                    0,
                );
            }
            -q0
        } else {
            proof {
                assert(n as int == (-(q0 as int) - 1) * (d as int) + ((d as int) - (r0 as int)))
                    by (nonlinear_arith)
                    requires
                        m as int == (d as int) * (q0 as int) + (r0 as int) && n as int == -(
                        m as int),
                ;
                vstd::arithmetic::div_mod::lemma_fundamental_div_mod_converse_div(
                    n as int,
                    d as int,
                    -(q0 as int) - 1,
                    d - r0,
                );
            }
            -q0 - 1
        }
    }
}

} // verus!
