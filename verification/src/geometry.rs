use vstd::prelude::*;

verus! {

/// A point of the canvas plane, `x` first; `y` grows downwards.
pub type Pt = (i64, i64);

/// The least value that a scaled coordinate may have.
pub const COORD_MIN: i64 = -2147483648;

/// The greatest value that a scaled coordinate may have.
pub const COORD_MAX: i64 = 2147483647;

/// A positive scale factor, held exactly as a ratio of two positive integers.
#[derive(Clone, Copy, Debug)]
pub struct Ratio {
    num: u32,
    den: u32,
}

impl Ratio {
    #[verifier::type_invariant]
    spec fn inv(&self) -> bool {
        self.num > 0 && self.den > 0
    }

    /// The numerator.
    pub closed spec fn num(&self) -> int {
        self.num as int
    }

    /// The denominator.
    pub closed spec fn den(&self) -> int {
        self.den as int
    }

    /// The ratio `num / den`, if both parts are positive.
    pub fn new(num: u32, den: u32) -> (r: Option<Ratio>)
        ensures
            r is Some <==> num > 0 && den > 0,
            r matches Some(q) ==> q.num() == num && q.den() == den,
    {
        if num > 0 && den > 0 {
            Some(Ratio { num, den })
        } else {
            None
        }
    }

    /// The factor one.
    pub fn one() -> (r: Ratio)
        ensures
            r.num() == 1,
            r.den() == 1,
    {
        Ratio { num: 1, den: 1 }
    }

    pub fn numerator(&self) -> (n: u32)
        ensures
            n == self.num(),
            n > 0,
    {
        proof {
            use_type_invariant(self);
        }
        self.num
    }

    pub fn denominator(&self) -> (d: u32)
        ensures
            d == self.den(),
            d > 0,
    {
        proof {
            use_type_invariant(self);
        }
        self.den
    }
}

/// Integer division that rounds towards zero.
pub open spec fn trunc_div(n: int, d: int) -> int {
    if n >= 0 {
        n / d
    } else {
        -((-n) / d)
    }
}

/// `b` times `num / den`, rounded towards zero.
pub open spec fn scaled(num: int, den: int, b: int) -> int {
    trunc_div(num * b, den)
}

/// The value can be a coordinate: it is a 32-bit signed number.
pub open spec fn in_coord_range(v: int) -> bool {
    COORD_MIN <= v <= COORD_MAX
}

/// The scaled value, where the denominator is positive and the value can be
/// a coordinate.
pub open spec fn mul_round_spec(num: int, den: int, b: int) -> Option<int> {
    if den > 0 && in_coord_range(scaled(num, den, b)) {
        Some(scaled(num, den, b))
    } else {
        None
    }
}

/// Scaling by a ratio of equal parts returns the number itself.
pub proof fn lemma_scale_by_one(n: int, b: int)
    requires
        n > 0,
    ensures
        scaled(n, n, b) == b,
        in_coord_range(b) ==> mul_round_spec(n, n, b) == Some(b),
{
    if b >= 0 {
        assert(n * b >= 0) by (nonlinear_arith)
            requires
                n > 0,
                b >= 0,
        ;
        vstd::arithmetic::div_mod::lemma_div_multiples_vanish(b, n);
    } else {
        assert(n * b < 0 && -(n * b) == n * (-b)) by (nonlinear_arith)
            requires
                n > 0,
                b < 0,
        ;
        vstd::arithmetic::div_mod::lemma_div_multiples_vanish(-b, n);
    }
}

/// Multiplies `b`, or `-b` where `flip` holds, by `num / den` and rounds
/// towards zero.
fn scale_signed(num: u64, den: u64, b: i64, flip: bool) -> (r: Option<i64>)
    ensures
        r matches Some(v) ==> mul_round_spec(
            num as int,
            den as int,
            if flip { -(b as int) } else { b as int },
        ) == Some(v as int),
        r is None ==> mul_round_spec(
            num as int,
            den as int,
            if flip { -(b as int) } else { b as int },
        ) is None,
{
    if den == 0 {
        return None;
    }
    let below: bool = b < 0;
    let mag: u128 = if below {
        (-(b as i128)) as u128
    } else {
        b as u128
    };
    let negative: bool = below != flip;
    let ghost signed: int = if flip { -(b as int) } else { b as int };
    assert(num as int * mag as int <= 0xffff_ffff_ffff_ffff * 0x8000_0000_0000_0000)
        by (nonlinear_arith)
        requires
            0 <= num as int <= 0xffff_ffff_ffff_ffff,
            0 <= mag as int <= 0x8000_0000_0000_0000,
    ;
    let prod: u128 = (num as u128) * mag;
    let q: u128 = prod / (den as u128);
    proof {
        assert(num as int * mag as int >= 0) by (nonlinear_arith)
            requires
                num as int >= 0,
                mag as int >= 0,
        ;
        if negative {
            assert(num as int * signed == -(num as int * mag as int)) by (nonlinear_arith)
                requires
                    signed == -(mag as int),
            ;
            if num as int * mag as int == 0 {
                assert(0int / (den as int) == 0);
            }
        }
        assert(scaled(num as int, den as int, signed) == if negative {
            -(q as int)
        } else {
            q as int
        });
    }
    if negative {
        if q > 2147483648u128 {
            None
        } else {
            Some((-(q as i128)) as i64)
        }
    } else if q > 2147483647u128 {
        None
    } else {
        Some(q as i64)
    }
}

/// Multiplies `b` by `num / den` and rounds towards zero; `None` where the
/// denominator is zero or the result cannot be a coordinate.
pub fn mul_round(num: u64, den: u64, b: i64) -> (r: Option<i64>)
    ensures
        r matches Some(v) ==> mul_round_spec(num as int, den as int, b as int) == Some(v as int),
        r is None ==> mul_round_spec(num as int, den as int, b as int) is None,
{
    scale_signed(num, den, b, false)
}

/// How many quarter turns clockwise an angle in degrees stands for: only
/// exact multiples of 90 turn anything, taken modulo 360.
pub open spec fn quarter_turns(angle: int) -> int {
    let m = angle % 360;
    if m == 90 {
        1
    } else if m == 180 {
        2
    } else if m == 270 {
        3
    } else {
        0
    }
}

proof fn lemma_mod_of_negative(a: int)
    requires
        a < 0,
    ensures
        a % 360 == (if (-a) % 360 == 0 {
            0
        } else {
            360 - (-a) % 360
        }),
{
}

/// A full turn more or less stands for the same quarter turns.
pub proof fn lemma_quarter_turns_periodic(angle: int)
    ensures
        quarter_turns(angle + 360) == quarter_turns(angle),
        quarter_turns(angle - 360) == quarter_turns(angle),
{
    assert((angle + 360) % 360 == angle % 360);
    assert((angle - 360) % 360 == angle % 360);
}

/// Computes `quarter_turns`.
pub fn quarter_turns_of(angle: i64) -> (q: u8)
    ensures
        q as int == quarter_turns(angle as int),
        q < 4,
{
    let m: u64 = if angle >= 0 {
        (angle as u64) % 360
    } else {
        let mag: u64 = (-(angle as i128)) as u64;
        let back: u64 = mag % 360;
        proof {
            lemma_mod_of_negative(angle as int);
        }
        if back == 0 {
            0
        } else {
            360 - back
        }
    };
    assert(m as int == (angle as int) % 360);
    if m == 90 {
        1
    } else if m == 180 {
        2
    } else if m == 270 {
        3
    } else {
        0
    }
}

/// A point turned about the origin by `q` quarter turns, on a plane whose
/// `y` axis points down.
pub open spec fn rotate_point(p: (int, int), q: int) -> (int, int) {
    if q == 1 {
        (-p.1, p.0)
    } else if q == 2 {
        (-p.0, -p.1)
    } else if q == 3 {
        (p.1, -p.0)
    } else {
        p
    }
}

/// A point turned by `angle` degrees and then scaled by `num / den`, each
/// coordinate rounded towards zero; `None` where a coordinate of the result
/// cannot be a coordinate, as the negative of the least one cannot.
pub open spec fn transform_point_spec(p: (int, int), angle: int, num: int, den: int) -> Option<
    (int, int),
> {
    let r = rotate_point(p, quarter_turns(angle));
    match (mul_round_spec(num, den, r.0), mul_round_spec(num, den, r.1)) {
        (Some(x), Some(y)) => Some((x, y)),
        _ => None,
    }
}

/// Turns and scales one point.
pub fn transform_point(p: Pt, angle: i64, num: u64, den: u64) -> (r: Option<Pt>)
    ensures
        r matches Some(t) ==> transform_point_spec(
            (p.0 as int, p.1 as int),
            angle as int,
            num as int,
            den as int,
        ) == Some((t.0 as int, t.1 as int)) && in_coord_range(t.0 as int) && in_coord_range(
            t.1 as int,
        ),
        r is None ==> transform_point_spec(
            (p.0 as int, p.1 as int),
            angle as int,
            num as int,
            den as int,
        ) is None,
{
    let q: u8 = quarter_turns_of(angle);
    let (x, y): (Option<i64>, Option<i64>) = if q == 1 {
        (scale_signed(num, den, p.1, true), scale_signed(num, den, p.0, false))
    } else if q == 2 {
        (scale_signed(num, den, p.0, true), scale_signed(num, den, p.1, true))
    } else if q == 3 {
        (scale_signed(num, den, p.1, false), scale_signed(num, den, p.0, true))
    } else {
        (scale_signed(num, den, p.0, false), scale_signed(num, den, p.1, false))
    };
    match (x, y) {
        (Some(sx), Some(sy)) => Some((sx, sy)),
        _ => None,
    }
}

pub open spec fn min4(a: int, b: int, c: int, d: int) -> int {
    if a <= b && a <= c && a <= d {
        a
    } else if b <= c && b <= d {
        b
    } else if c <= d {
        c
    } else {
        d
    }
}

pub open spec fn max4(a: int, b: int, c: int, d: int) -> int {
    if a >= b && a >= c && a >= d {
        a
    } else if b >= c && b >= d {
        b
    } else if c >= d {
        c
    } else {
        d
    }
}

/// The bounding box of the four corners of the rectangle from `pos` to
/// `bottom` after each was turned and scaled: its least corner, then its
/// greatest. `None` where a corner leaves the coordinate range.
pub open spec fn transform_square_spec(
    pos: (int, int),
    bottom: (int, int),
    angle: int,
    num: int,
    den: int,
) -> Option<((int, int), (int, int))> {
    match (
        transform_point_spec(pos, angle, num, den),
        transform_point_spec((pos.0, bottom.1), angle, num, den),
        transform_point_spec((bottom.0, pos.1), angle, num, den),
        transform_point_spec(bottom, angle, num, den),
    ) {
        (Some(a), Some(b), Some(c), Some(d)) => Some(
            (
                (min4(a.0, b.0, c.0, d.0), min4(a.1, b.1, c.1, d.1)),
                (max4(a.0, b.0, c.0, d.0), max4(a.1, b.1, c.1, d.1)),
            ),
        ),
        _ => None,
    }
}

/// Angles that stand for the same quarter turns transform every rectangle
/// alike.
pub proof fn lemma_same_turns_same_square(
    pos: (int, int),
    bottom: (int, int),
    a: int,
    b: int,
    num: int,
    den: int,
)
    requires
        quarter_turns(a) == quarter_turns(b),
    ensures
        transform_square_spec(pos, bottom, a, num, den) == transform_square_spec(
            pos,
            bottom,
            b,
            num,
            den,
        ),
{
    assert(transform_point_spec(pos, a, num, den) == transform_point_spec(pos, b, num, den));
    assert(transform_point_spec((pos.0, bottom.1), a, num, den) == transform_point_spec(
        (pos.0, bottom.1),
        b,
        num,
        den,
    ));
    assert(transform_point_spec((bottom.0, pos.1), a, num, den) == transform_point_spec(
        (bottom.0, pos.1),
        b,
        num,
        den,
    ));
    assert(transform_point_spec(bottom, a, num, den) == transform_point_spec(bottom, b, num, den));
}

/// A rectangle that is neither turned nor scaled comes back as it is.
pub proof fn lemma_square_unchanged(pos: (int, int), bottom: (int, int), angle: int, n: int)
    requires
        angle % 360 == 0,
        n > 0,
        pos.0 <= bottom.0,
        pos.1 <= bottom.1,
        in_coord_range(pos.0),
        in_coord_range(pos.1),
        in_coord_range(bottom.0),
        in_coord_range(bottom.1),
    ensures
        transform_square_spec(pos, bottom, angle, n, n) == Some((pos, bottom)),
{
    lemma_scale_by_one(n, pos.0);
    lemma_scale_by_one(n, pos.1);
    lemma_scale_by_one(n, bottom.0);
    lemma_scale_by_one(n, bottom.1);
    assert(quarter_turns(angle) == 0);
    assert(transform_point_spec(pos, angle, n, n) == Some(pos));
    assert(transform_point_spec((pos.0, bottom.1), angle, n, n) == Some((pos.0, bottom.1)));
    assert(transform_point_spec((bottom.0, pos.1), angle, n, n) == Some((bottom.0, pos.1)));
    assert(transform_point_spec(bottom, angle, n, n) == Some(bottom));
}

fn least(a: i64, b: i64) -> (m: i64)
    ensures
        m == if a <= b { a } else { b },
{
    if a <= b {
        a
    } else {
        b
    }
}

fn greatest(a: i64, b: i64) -> (m: i64)
    ensures
        m == if a >= b { a } else { b },
{
    if a >= b {
        a
    } else {
        b
    }
}

/// Turns and scales a rectangle and returns the bounding box of the result.
pub fn transform_square(pos: Pt, bottom: Pt, angle: i64, num: u64, den: u64) -> (r: Option<
    (Pt, Pt),
>)
    ensures
        r matches Some(t) ==> transform_square_spec(
            (pos.0 as int, pos.1 as int),
            (bottom.0 as int, bottom.1 as int),
            angle as int,
            num as int,
            den as int,
        ) == Some(
            (((t.0).0 as int, (t.0).1 as int), ((t.1).0 as int, (t.1).1 as int)),
        ) && in_coord_range((t.0).0 as int) && in_coord_range((t.0).1 as int) && in_coord_range(
            (t.1).0 as int,
        ) && in_coord_range((t.1).1 as int),
        r is None ==> transform_square_spec(
            (pos.0 as int, pos.1 as int),
            (bottom.0 as int, bottom.1 as int),
            angle as int,
            num as int,
            den as int,
        ) is None,
{
    let a: Pt = match transform_point(pos, angle, num, den) {
        Some(t) => t,
        None => { return None; },
    };
    let b: Pt = match transform_point((pos.0, bottom.1), angle, num, den) {
        Some(t) => t,
        None => { return None; },
    };
    let c: Pt = match transform_point((bottom.0, pos.1), angle, num, den) {
        Some(t) => t,
        None => { return None; },
    };
    let d: Pt = match transform_point(bottom, angle, num, den) {
        Some(t) => t,
        None => { return None; },
    };
    let low: Pt = (
        least(least(a.0, b.0), least(c.0, d.0)),
        least(least(a.1, b.1), least(c.1, d.1)),
    );
    let high: Pt = (
        greatest(greatest(a.0, b.0), greatest(c.0, d.0)),
        greatest(greatest(a.1, b.1), greatest(c.1, d.1)),
    );
    Some((low, high))
}

/// The sum of two points.
pub fn padd(a: Pt, b: Pt) -> (r: Pt)
    requires
        i64::MIN <= a.0 + b.0 <= i64::MAX,
        i64::MIN <= a.1 + b.1 <= i64::MAX,
    ensures
        r.0 == a.0 + b.0,
        r.1 == a.1 + b.1,
{
    (a.0 + b.0, a.1 + b.1)
}

/// The difference of two points.
pub fn psub(a: Pt, b: Pt) -> (r: Pt)
    requires
        i64::MIN <= a.0 - b.0 <= i64::MAX,
        i64::MIN <= a.1 - b.1 <= i64::MAX,
    ensures
        r.0 == a.0 - b.0,
        r.1 == a.1 - b.1,
{
    (a.0 - b.0, a.1 - b.1)
}

/// A coordinate cut off below at zero.
pub fn relu(x: i64) -> (r: i64)
    ensures
        r == if x < 0 { 0 } else { x as int },
{
    if x < 0 {
        0
    } else {
        x
    }
}

} // verus!
