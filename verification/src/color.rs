//! Three-channel color values in fixed-point form.
//!
//! A channel magnitude is stored in millionths: `CHANNEL_UNIT` units stand
//! for the magnitude 1.0. Channels are unconstrained; values below zero or
//! above one unit are valid intermediate results and are only clamped when a
//! color is exported as a byte triplet.

use vstd::prelude::*;
use vstd::string::*;

verus! {

/// Number of channel units that stand for the magnitude 1.0.
pub const CHANNEL_UNIT: i64 = 1_000_000;

/// Two channels closer than this many units count as equal.
pub const EPSILON_UNITS: i64 = 10;

/// Largest byte value a channel is exported as.
pub const MAX_COLOR_VALUE: u8 = 255;

#[derive(Clone, Copy, Debug)]
pub struct Color {
    pub red: i64,
    pub green: i64,
    pub blue: i64,
}

/// Component-wise sum.
pub open spec fn spec_add(a: Color, b: Color) -> Color {
    Color {
        red: (a.red + b.red) as i64,
        green: (a.green + b.green) as i64,
        blue: (a.blue + b.blue) as i64,
    }
}

/// Component-wise difference.
pub open spec fn spec_sub(a: Color, b: Color) -> Color {
    Color {
        red: (a.red - b.red) as i64,
        green: (a.green - b.green) as i64,
        blue: (a.blue - b.blue) as i64,
    }
}

/// Product of two channel magnitudes: the mathematical product of the two
/// fixed-point values, rounded half away from zero back to units.
pub open spec fn unit_mul(a: int, b: int) -> int {
    round_to_units(a * b)
}

/// Rounds a quantity of square units (units times units) to whole units,
/// half away from zero.
pub open spec fn round_to_units(n: int) -> int {
    if n >= 0 {
        (n + CHANNEL_UNIT as int / 2) / (CHANNEL_UNIT as int)
    } else {
        -(((-n) + CHANNEL_UNIT as int / 2) / (CHANNEL_UNIT as int))
    }
}

/// Component-wise scaling by a fixed-point factor.
pub open spec fn spec_scale(a: Color, k: int) -> Color {
    Color {
        red: unit_mul(a.red as int, k) as i64,
        green: unit_mul(a.green as int, k) as i64,
        blue: unit_mul(a.blue as int, k) as i64,
    }
}

/// Component-wise (Hadamard) product.
pub open spec fn spec_multiply(a: Color, b: Color) -> Color {
    Color {
        red: unit_mul(a.red as int, b.red as int) as i64,
        green: unit_mul(a.green as int, b.green as int) as i64,
        blue: unit_mul(a.blue as int, b.blue as int) as i64,
    }
}

/// Every channel of the sum fits the channel type.
pub open spec fn add_fits(a: Color, b: Color) -> bool {
    &&& i64::MIN <= a.red + b.red <= i64::MAX
    &&& i64::MIN <= a.green + b.green <= i64::MAX
    &&& i64::MIN <= a.blue + b.blue <= i64::MAX
}

/// Every channel of the difference fits the channel type.
pub open spec fn sub_fits(a: Color, b: Color) -> bool {
    &&& i64::MIN <= a.red - b.red <= i64::MAX
    &&& i64::MIN <= a.green - b.green <= i64::MAX
    &&& i64::MIN <= a.blue - b.blue <= i64::MAX
}

/// Every channel scaled by `k` fits the channel type.
pub open spec fn scale_fits(a: Color, k: int) -> bool {
    &&& i64::MIN <= unit_mul(a.red as int, k) <= i64::MAX
    &&& i64::MIN <= unit_mul(a.green as int, k) <= i64::MAX
    &&& i64::MIN <= unit_mul(a.blue as int, k) <= i64::MAX
}

/// Every channel of the component-wise product fits the channel type.
pub open spec fn multiply_fits(a: Color, b: Color) -> bool {
    &&& i64::MIN <= unit_mul(a.red as int, b.red as int) <= i64::MAX
    &&& i64::MIN <= unit_mul(a.green as int, b.green as int) <= i64::MAX
    &&& i64::MIN <= unit_mul(a.blue as int, b.blue as int) <= i64::MAX
}

/// Epsilon-tolerant equality: every pair of channels differs by less than
/// `EPSILON_UNITS`.
pub open spec fn color_equals(a: Color, b: Color) -> bool {
    &&& abs_diff(a.red as int, b.red as int) < EPSILON_UNITS
    &&& abs_diff(a.green as int, b.green as int) < EPSILON_UNITS
    &&& abs_diff(a.blue as int, b.blue as int) < EPSILON_UNITS
}

pub open spec fn abs_diff(a: int, b: int) -> int {
    if a >= b {
        a - b
    } else {
        b - a
    }
}

impl Color {
    pub fn new(r: i64, g: i64, b: i64) -> (c: Color)
        ensures
            c == (Color { red: r, green: g, blue: b }),
    {
        Color { red: r, green: g, blue: b }
    }

    pub fn new_t(t: (i64, i64, i64)) -> (c: Color)
        ensures
            c == (Color { red: t.0, green: t.1, blue: t.2 }),
    {
        Color::new(t.0, t.1, t.2)
    }

    /// Component-wise sum; channels out of the conventional range are valid.
    pub fn add(self, rhs: Color) -> (c: Color)
        requires
            add_fits(self, rhs),
        ensures
            c == spec_add(self, rhs),
    {
        Color { red: self.red + rhs.red, green: self.green + rhs.green, blue: self.blue + rhs.blue }
    }

    /// Component-wise difference.
    pub fn sub(self, rhs: Color) -> (c: Color)
        requires
            sub_fits(self, rhs),
        ensures
            c == spec_sub(self, rhs),
    {
        Color { red: self.red - rhs.red, green: self.green - rhs.green, blue: self.blue - rhs.blue }
    }

    /// Scalar multiply by a fixed-point factor `k` (in channel units).
    pub fn scale(self, k: i64) -> (c: Color)
        requires
            scale_fits(self, k as int),
        ensures
            c == spec_scale(self, k as int),
    {
        Color {
            red: mul_units(self.red, k),
            green: mul_units(self.green, k),
            blue: mul_units(self.blue, k),
        }
    }

    /// Component-wise (Hadamard) product, used for filtering and blending.
    pub fn multiply(self, rhs: Color) -> (c: Color)
        requires
            multiply_fits(self, rhs),
        ensures
            c == spec_multiply(self, rhs),
    {
        Color {
            red: mul_units(self.red, rhs.red),
            green: mul_units(self.green, rhs.green),
            blue: mul_units(self.blue, rhs.blue),
        }
    }

    /// Epsilon-tolerant comparison, absorbing rounding from arithmetic chains.
    pub fn equals(&self, other: &Color) -> (r: bool)
        ensures
            r == color_equals(*self, *other),
    {
        abs_diff_i64(self.red, other.red) < EPSILON_UNITS as u64
            && abs_diff_i64(self.green, other.green) < EPSILON_UNITS as u64
            && abs_diff_i64(self.blue, other.blue) < EPSILON_UNITS as u64
    }
}

impl PartialEq for Color {
    /// Colors compare equal when every channel pair differs by less than the
    /// tolerance, absorbing rounding from arithmetic chains.
    fn eq(&self, other: &Color) -> (r: bool) {
        self.equals(other)
    }
}

impl vstd::std_specs::cmp::PartialEqSpecImpl for Color {
    open spec fn obeys_eq_spec() -> bool {
        true
    }

    open spec fn eq_spec(&self, other: &Color) -> bool {
        color_equals(*self, *other)
    }
}

/// Absolute difference of two channels, computed without overflow.
fn abs_diff_i64(a: i64, b: i64) -> (r: u64)
    ensures
        r as int == abs_diff(a as int, b as int),
{
    let wide: i128 = (a as i128) - (b as i128);
    if wide >= 0 {
        wide as u64
    } else {
        (-wide) as u64
    }
}

/// One channel of a fixed-point product, rounded half away from zero.
fn mul_units(a: i64, k: i64) -> (r: i64)
    requires
        i64::MIN <= unit_mul(a as int, k as int) <= i64::MAX,
    ensures
        r as int == unit_mul(a as int, k as int),
{
    let wide: i128 = (a as i128) * (k as i128);
    let half: i128 = (CHANNEL_UNIT / 2) as i128;
    let unit: i128 = CHANNEL_UNIT as i128;
    if wide >= 0 {
        let q: i128 = (wide + half) / unit;
        q as i64
    } else {
        let q: i128 = ((-wide) + half) / unit;
        (-q) as i64
    }
}

/// The color every canvas cell starts out as.
pub open spec fn spec_black() -> Color {
    Color { red: 0, green: 0, blue: 0 }
}

/// The byte a channel is exported as: the magnitude times 255, rounded half
/// away from zero, clamped to [0, 255].
pub open spec fn byte_of(n: int) -> int {
    let r = round_to_units(n * 255);
    if r < 0 {
        0
    } else if r > MAX_COLOR_VALUE as int {
        MAX_COLOR_VALUE as int
    } else {
        r
    }
}

pub open spec fn digit_char(d: int) -> char {
    if d == 0 {
        '0'
    } else if d == 1 {
        '1'
    } else if d == 2 {
        '2'
    } else if d == 3 {
        '3'
    } else if d == 4 {
        '4'
    } else if d == 5 {
        '5'
    } else if d == 6 {
        '6'
    } else if d == 7 {
        '7'
    } else if d == 8 {
        '8'
    } else {
        '9'
    }
}

/// Decimal rendering of a nonnegative integer: no sign, no padding, and no
/// leading zeros except for zero itself.
pub open spec fn decimal_of(n: nat) -> Seq<char>
    decreases n,
{
    if n < 10 {
        seq![digit_char(n as int)]
    } else {
        decimal_of(n / 10) + seq![digit_char((n % 10) as int)]
    }
}

/// The three space-separated decimal byte values a pixel contributes to its
/// row's token string.
pub open spec fn pixel_tokens(c: Color) -> Seq<char> {
    decimal_of(byte_of(c.red as int) as nat) + seq![' '] + decimal_of(byte_of(c.green as int) as nat)
        + seq![' '] + decimal_of(byte_of(c.blue as int) as nat)
}

impl Color {
    /// The three export bytes of a color, in channel order.
    pub fn to_byte_triplet(&self) -> (t: (u8, u8, u8))
        ensures
            t.0 as int == byte_of(self.red as int),
            t.1 as int == byte_of(self.green as int),
            t.2 as int == byte_of(self.blue as int),
    {
        (ppm_value(self.red), ppm_value(self.green), ppm_value(self.blue))
    }

    /// The pixel's token string: its three export bytes in decimal,
    /// separated by single spaces.
    pub fn ppm(&self) -> (s: String)
        ensures
            s@ == pixel_tokens(*self),
    {
        let t = self.to_byte_triplet();
        let mut s = decimal_string(t.0 as u64);
        s.append(" ");
        let g = decimal_string(t.1 as u64);
        s.append(g.as_str());
        s.append(" ");
        let b = decimal_string(t.2 as u64);
        s.append(b.as_str());
        proof {
            reveal_strlit(" ");
            assert(s@ =~= pixel_tokens(*self));
        }
        s
    }
}

/// One channel's export byte.
fn ppm_value(val: i64) -> (b: u8)
    ensures
        b as int == byte_of(val as int),
{
    if val < 0 {
        0
    } else {
        let wide: u128 = (val as u128) * 255 + (CHANNEL_UNIT as u128) / 2;
        let q: u128 = wide / (CHANNEL_UNIT as u128);
        if q > MAX_COLOR_VALUE as u128 {
            MAX_COLOR_VALUE
        } else {
            q as u8
        }
    }
}

/// One decimal digit as a string slice.
fn digit_str(d: u64) -> (s: &'static str)
    requires
        d < 10,
    ensures
        s@ == seq![digit_char(d as int)],
{
    let s: &'static str = if d == 0 {
        "0"
    } else if d == 1 {
        "1"
    } else if d == 2 {
        "2"
    } else if d == 3 {
        "3"
    } else if d == 4 {
        "4"
    } else if d == 5 {
        "5"
    } else if d == 6 {
        "6"
    } else if d == 7 {
        "7"
    } else if d == 8 {
        "8"
    } else {
        "9"
    };
    proof {
        reveal_strlit("0");
        reveal_strlit("1");
        reveal_strlit("2");
        reveal_strlit("3");
        reveal_strlit("4");
        reveal_strlit("5");
        reveal_strlit("6");
        reveal_strlit("7");
        reveal_strlit("8");
        reveal_strlit("9");
        assert(s@ =~= seq![digit_char(d as int)]);
    }
    s
}

/// Decimal rendering of a nonnegative integer.
pub fn decimal_string(n: u64) -> (s: String)
    ensures
        s@ == decimal_of(n as nat),
    decreases n,
{
    if n < 10 {
        let s = digit_str(n).to_owned();
        proof {
            assert(s@ =~= decimal_of(n as nat));
        }
        s
    } else {
        let mut s = decimal_string(n / 10);
        let d = digit_str(n % 10);
        s.append(d);
        proof {
            assert(s@ =~= decimal_of(n as nat));
        }
        s
    }
}

/// A decimal byte value takes between one and three characters.
pub proof fn lemma_decimal_len_byte(n: nat)
    requires
        n <= 255,
    ensures
        1 <= decimal_of(n).len() <= 3,
{
    if n < 10 {
    } else if n < 100 {
        assert(decimal_of(n / 10).len() == 1);
    } else {
        assert(decimal_of(n / 100).len() == 1);
        assert(decimal_of(n / 10) == decimal_of(n / 100) + seq![digit_char(((n / 10) % 10) as int)]);
        assert(decimal_of(n / 10).len() == 2);
    }
}

/// A pixel's token string holds a space within its first four characters:
/// the one that follows the red byte's decimal rendering.
pub proof fn lemma_pixel_tokens_space(c: Color)
    ensures
        pixel_tokens(c).len() >= 5,
        exists|i: int|
            1 <= i <= 3 && i < pixel_tokens(c).len() && #[trigger] pixel_tokens(c)[i] == ' ',
{
    let r = decimal_of(byte_of(c.red as int) as nat);
    lemma_decimal_len_byte(byte_of(c.red as int) as nat);
    lemma_decimal_len_byte(byte_of(c.green as int) as nat);
    lemma_decimal_len_byte(byte_of(c.blue as int) as nat);
    assert(pixel_tokens(c)[r.len() as int] == ' ');
}

/// Color addition is commutative: adding two colors in either order gives
/// the same channels, and in particular colors that compare equal.
pub proof fn lemma_add_comm(a: Color, b: Color)
    requires
        add_fits(a, b),
    ensures
        spec_add(a, b) == spec_add(b, a),
        color_equals(spec_add(a, b), spec_add(b, a)),
{
}

/// Scaling any color by the factor zero yields black, so adding it to a
/// color leaves that color unchanged.
pub proof fn lemma_add_scale_zero(a: Color, b: Color)
    ensures
        spec_scale(b, 0) == (Color { red: 0, green: 0, blue: 0 }),
        spec_add(a, spec_scale(b, 0)) == a,
{
}

} // verus!
