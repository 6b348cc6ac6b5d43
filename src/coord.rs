use vstd::prelude::*;

verus! {

/// The type of number stored in a tile's coordinates.
pub type TileUnit = i32;

/// A cube coordinate as a mathematical triple `(q, r, s)`.
pub type HexPos = (int, int, int);

pub open spec fn in_unit(v: int) -> bool {
    TileUnit::MIN <= v <= TileUnit::MAX
}

/// The triple satisfies the cube constraint and each component fits a `TileUnit`.
pub open spec fn is_cube(h: HexPos) -> bool {
    &&& h.0 + h.1 + h.2 == 0
    &&& in_unit(h.0)
    &&& in_unit(h.1)
    &&& in_unit(h.2)
}

/// The position `(q, r, -q - r)`.
pub open spec fn hex_of(q: int, r: int) -> HexPos {
    (q, r, -q - r)
}

pub open spec fn hex_zero() -> HexPos {
    (0, 0, 0)
}

pub open spec fn hex_add(a: HexPos, b: HexPos) -> HexPos {
    (a.0 + b.0, a.1 + b.1, a.2 + b.2)
}

pub open spec fn hex_neg(a: HexPos) -> HexPos {
    (-a.0, -a.1, -a.2)
}

pub open spec fn hex_sub(a: HexPos, b: HexPos) -> HexPos {
    (a.0 - b.0, a.1 - b.1, a.2 - b.2)
}

pub open spec fn hex_scale(a: HexPos, k: int) -> HexPos {
    (a.0 * k, a.1 * k, a.2 * k)
}

/// Integer division truncating toward zero, as Rust's `/` on signed integers.
pub open spec fn trunc_div(a: int, k: int) -> int
    recommends
        k != 0,
{
    if (a >= 0) == (k > 0) {
        abs(a) / abs(k)
    } else {
        -(abs(a) / abs(k))
    }
}

/// Division of `q` and `r` by `k`; `s` is derived again from the results.
pub open spec fn hex_div(a: HexPos, k: int) -> HexPos {
    hex_of(trunc_div(a.0, k), trunc_div(a.1, k))
}

pub open spec fn abs(v: int) -> int {
    if v < 0 {
        -v
    } else {
        v
    }
}

pub open spec fn max3(a: int, b: int, c: int) -> int {
    if a >= b && a >= c {
        a
    } else if b >= c {
        b
    } else {
        c
    }
}

/// The hex-grid metric: the largest absolute component of the difference.
pub open spec fn hex_distance(a: HexPos, b: HexPos) -> int {
    max3(abs(a.0 - b.0), abs(a.1 - b.1), abs(a.2 - b.2))
}

/// Ordinal of the adjacent tile to the left.
pub const LEFT: usize = 0;
/// Ordinal of the adjacent tile to the top left.
pub const TOP_LEFT: usize = 1;
/// Ordinal of the adjacent tile to the top right.
pub const TOP_RIGHT: usize = 2;
/// Ordinal of the adjacent tile to the right.
pub const RIGHT: usize = 3;
/// Ordinal of the adjacent tile to the bottom right.
pub const BOTTOM_RIGHT: usize = 4;
/// Ordinal of the adjacent tile to the bottom left.
pub const BOTTOM_LEFT: usize = 5;

/// The six unit directions, in rotational order.
pub open spec fn hex_neighbor(i: int) -> HexPos {
    if i == 0 {
        hex_of(1, 0)
    } else if i == 1 {
        hex_of(1, -1)
    } else if i == 2 {
        hex_of(0, -1)
    } else if i == 3 {
        hex_of(-1, 0)
    } else if i == 4 {
        hex_of(-1, 1)
    } else {
        hex_of(0, 1)
    }
}

/// A position on the hex grid, held as cube coordinates that always sum to zero.
#[derive(Debug, Clone, Copy, PartialEq, Eq, Hash)]
pub struct TileCoord {
    q: TileUnit,
    r: TileUnit,
    s: TileUnit,
}

impl View for TileCoord {
    type V = HexPos;

    closed spec fn view(&self) -> HexPos {
        (self.q as int, self.r as int, self.s as int)
    }
}

impl TileCoord {
    #[verifier::type_invariant]
    spec fn cube_constraint(&self) -> bool {
        self.q + self.r + self.s == 0
    }

    /// Creates the position `(q, r, -q - r)`.
    pub fn new(q: TileUnit, r: TileUnit) -> (c: TileCoord)
        requires
            in_unit(-q - r),
        ensures
            c@ == hex_of(q as int, r as int),
            is_cube(c@),
    {
        TileCoord { q, r, s: (-(q as i64) - r as i64) as TileUnit }
    }
}

/// Quotient of `a` by `k`, truncated toward zero.
fn unit_div(a: TileUnit, k: TileUnit) -> (x: i64)
    requires
        k != 0,
    ensures
        x == trunc_div(a as int, k as int),
        abs(x as int) <= abs(a as int),
{
    let aa: i64 = if a < 0 { -(a as i64) } else { a as i64 };
    let kk: i64 = if k < 0 { -(k as i64) } else { k as i64 };
    let m: i64 = aa / kk;
    proof {
        assert(m <= aa) by (nonlinear_arith)
            requires aa >= 0, kk >= 1, m == aa / kk;
        assert(m >= 0) by (nonlinear_arith)
            requires aa >= 0, kk >= 1, m == aa / kk;
    }
    if (a >= 0) == (k > 0) {
        m
    } else {
        -m
    }
}

/// Decimal digit character for `d < 10`.
pub open spec fn digit_char(d: nat) -> char {
    if d == 0 { '0' } else if d == 1 { '1' } else if d == 2 { '2' } else if d == 3 { '3' }
    else if d == 4 { '4' } else if d == 5 { '5' } else if d == 6 { '6' } else if d == 7 { '7' }
    else if d == 8 { '8' } else { '9' }
}

/// Decimal digits of a natural number, most significant first.
pub open spec fn decimal(n: nat) -> Seq<char>
    decreases n,
{
    if n < 10 {
        seq![digit_char(n)]
    } else {
        decimal(n / 10).push(digit_char(n % 10))
    }
}

/// Decimal text of an integer, with a leading `-` when negative.
pub open spec fn signed_decimal(v: int) -> Seq<char> {
    if v < 0 {
        seq!['-'] + decimal((-v) as nat)
    } else {
        decimal(v as nat)
    }
}

/// The text `q,r` of a position.
pub open spec fn formal_text(h: HexPos) -> Seq<char> {
    signed_decimal(h.0) + seq![','] + signed_decimal(h.1)
}

/// Relies on std's `format!` of two `i32` values: each renders in decimal,
/// with a leading `-` when negative.
#[verifier::external_body]
fn pair_text(q: TileUnit, r: TileUnit) -> (t: String)
    ensures
        t@ == signed_decimal(q as int) + seq![','] + signed_decimal(r as int),
{
    format!("{},{}", q, r)
}

impl TileCoord {
    /// The position `(0, 0, 0)`.
    pub fn zero() -> (c: TileCoord)
        ensures
            c@ == hex_zero(),
            is_cube(c@),
    {
        TileCoord { q: 0, r: 0, s: 0 }
    }

    /// Gets the q component of the coordinate.
    pub fn q(self) -> (v: TileUnit)
        ensures
            v == self@.0,
    {
        self.q
    }

    /// Gets the r component of the coordinate.
    pub fn r(self) -> (v: TileUnit)
        ensures
            v == self@.1,
    {
        self.r
    }

    /// Gets the s component of the coordinate.
    pub fn s(self) -> (v: TileUnit)
        ensures
            v == self@.2,
            v == -self@.0 - self@.1,
    {
        proof {
            use_type_invariant(&self);
        }
        self.s
    }

    /// Creates a position from its wire form `(q, r)`, deriving `s`; `None`
    /// when `s` would not fit a `TileUnit`.
    pub fn from_pair(p: (TileUnit, TileUnit)) -> (c: Option<TileCoord>)
        ensures
            c.is_some() <==> in_unit(-p.0 - p.1),
            c.is_some() ==> c.unwrap()@ == hex_of(p.0 as int, p.1 as int),
    {
        let s: i64 = -(p.0 as i64) - p.1 as i64;
        if s < TileUnit::MIN as i64 || s > TileUnit::MAX as i64 {
            None
        } else {
            Some(TileCoord::new(p.0, p.1))
        }
    }

    /// The wire form `(q, r)` of this position.
    pub fn to_pair(self) -> (p: (TileUnit, TileUnit))
        ensures
            p.0 == self@.0,
            p.1 == self@.1,
            in_unit(-p.0 - p.1),
            hex_of(p.0 as int, p.1 as int) == self@,
    {
        proof {
            use_type_invariant(&self);
        }
        (self.q, self.r)
    }

    /// Creates a formatted string representation of this tile, `q,r`.
    pub fn to_formal_string(&self) -> (t: String)
        ensures
            t@ == formal_text(self@),
    {
        pair_text(self.q, self.r)
    }

    /// Coordinate-wise sum.
    pub fn add(self, rhs: TileCoord) -> (c: TileCoord)
        requires
            in_unit(self@.0 + rhs@.0),
            in_unit(self@.1 + rhs@.1),
            in_unit(self@.2 + rhs@.2),
        ensures
            c@ == hex_add(self@, rhs@),
            is_cube(c@),
    {
        proof {
            use_type_invariant(&self);
            use_type_invariant(&rhs);
        }
        TileCoord { q: self.q + rhs.q, r: self.r + rhs.r, s: self.s + rhs.s }
    }

    /// Coordinate-wise difference.
    pub fn sub(self, rhs: TileCoord) -> (c: TileCoord)
        requires
            in_unit(self@.0 - rhs@.0),
            in_unit(self@.1 - rhs@.1),
            in_unit(self@.2 - rhs@.2),
        ensures
            c@ == hex_sub(self@, rhs@),
            is_cube(c@),
    {
        proof {
            use_type_invariant(&self);
            use_type_invariant(&rhs);
        }
        TileCoord { q: self.q - rhs.q, r: self.r - rhs.r, s: self.s - rhs.s }
    }

    /// Coordinate-wise negation.
    pub fn neg(self) -> (c: TileCoord)
        requires
            in_unit(-self@.0),
            in_unit(-self@.1),
            in_unit(-self@.2),
        ensures
            c@ == hex_neg(self@),
            is_cube(c@),
    {
        proof {
            use_type_invariant(&self);
        }
        TileCoord { q: -self.q, r: -self.r, s: -self.s }
    }

    /// Scales every component by `k`.
    pub fn mul(self, k: TileUnit) -> (c: TileCoord)
        requires
            in_unit(self@.0 * k),
            in_unit(self@.1 * k),
            in_unit(self@.2 * k),
        ensures
            c@ == hex_scale(self@, k as int),
            is_cube(c@),
    {
        proof {
            use_type_invariant(&self);
            assert(self.q * k + self.r * k + self.s * k == (self.q + self.r + self.s) * k)
                by (nonlinear_arith);
        }
        TileCoord { q: self.q * k, r: self.r * k, s: self.s * k }
    }

    /// Divides `q` and `r` by `k`, truncating toward zero, and derives `s`
    /// from the quotients. Dividing by zero is a caller error.
    pub fn div(self, k: TileUnit) -> (c: TileCoord)
        requires
            k != 0,
            in_unit(-trunc_div(self@.0, k as int) - trunc_div(self@.1, k as int)),
            in_unit(trunc_div(self@.0, k as int)),
            in_unit(trunc_div(self@.1, k as int)),
        ensures
            c@ == hex_div(self@, k as int),
            is_cube(c@),
    {
        let q: i64 = unit_div(self.q, k);
        let r: i64 = unit_div(self.r, k);
        TileCoord::new(q as TileUnit, r as TileUnit)
    }

    /// Number of steps between two positions on the grid.
    pub fn distance(self, other: TileCoord) -> (d: u32)
        ensures
            d == hex_distance(self@, other@),
    {
        proof {
            use_type_invariant(&self);
            use_type_invariant(&other);
        }
        let dq: i64 = self.q as i64 - other.q as i64;
        let dr: i64 = self.r as i64 - other.r as i64;
        let ds: i64 = self.s as i64 - other.s as i64;
        let aq: i64 = if dq < 0 { -dq } else { dq };
        let ar: i64 = if dr < 0 { -dr } else { dr };
        let as_: i64 = if ds < 0 { -ds } else { ds };
        let m: i64 = if aq >= ar && aq >= as_ {
            aq
        } else if ar >= as_ {
            ar
        } else {
            as_
        };
        m as u32
    }

    /// The unit direction with the given ordinal.
    pub fn neighbor(i: usize) -> (c: TileCoord)
        requires
            i < 6,
        ensures
            c@ == hex_neighbor(i as int),
            is_cube(c@),
    {
        if i == 0 {
            TileCoord::new(1, 0)
        } else if i == 1 {
            TileCoord::new(1, -1)
        } else if i == 2 {
            TileCoord::new(0, -1)
        } else if i == 3 {
            TileCoord::new(-1, 0)
        } else if i == 4 {
            TileCoord::new(-1, 1)
        } else {
            TileCoord::new(0, 1)
        }
    }
}

/// Addition is associative.
pub proof fn lemma_add_associative(a: HexPos, b: HexPos, c: HexPos)
    ensures
        hex_add(hex_add(a, b), c) == hex_add(a, hex_add(b, c)),
{
}

/// Addition is commutative.
pub proof fn lemma_add_commutative(a: HexPos, b: HexPos)
    ensures
        hex_add(a, b) == hex_add(b, a),
{
}

/// The zero position is the identity of addition.
pub proof fn lemma_add_zero(a: HexPos)
    ensures
        hex_add(a, hex_zero()) == a,
{
}

/// A position plus its negation is zero.
pub proof fn lemma_add_neg(a: HexPos)
    ensures
        hex_add(a, hex_neg(a)) == hex_zero(),
{
}

/// Sum, difference, negation, scaling and division of positions whose
/// components sum to zero again have components that sum to zero.
pub proof fn lemma_operations_keep_cube(a: HexPos, b: HexPos, k: int)
    requires
        a.0 + a.1 + a.2 == 0,
        b.0 + b.1 + b.2 == 0,
    ensures
        ({ let x = hex_add(a, b); x.0 + x.1 + x.2 == 0 }),
        ({ let x = hex_sub(a, b); x.0 + x.1 + x.2 == 0 }),
        ({ let x = hex_neg(a); x.0 + x.1 + x.2 == 0 }),
        ({ let x = hex_scale(a, k); x.0 + x.1 + x.2 == 0 }),
        ({ let x = hex_div(a, k); x.0 + x.1 + x.2 == 0 }),
{
    assert(a.0 * k + a.1 * k + a.2 * k == (a.0 + a.1 + a.2) * k) by (nonlinear_arith);
}

/// The distance from a position to itself is zero.
pub proof fn lemma_distance_self(a: HexPos)
    ensures
        hex_distance(a, a) == 0,
{
}

/// Distance is symmetric.
pub proof fn lemma_distance_symmetric(a: HexPos, b: HexPos)
    ensures
        hex_distance(a, b) == hex_distance(b, a),
{
}

/// Distance obeys the triangle inequality.
pub proof fn lemma_distance_triangle(a: HexPos, b: HexPos, c: HexPos)
    ensures
        hex_distance(a, c) <= hex_distance(a, b) + hex_distance(b, c),
{
}

/// The six directions are pairwise distinct, and opposite directions lie
/// three ordinals apart.
pub proof fn lemma_neighbors(i: int, j: int)
    requires
        0 <= i < 6,
        0 <= j < 6,
    ensures
        i != j ==> hex_neighbor(i) != hex_neighbor(j),
        hex_neighbor(i) == hex_neg(hex_neighbor((i + 3) % 6)),
{
}

/// The wire form `(q, r)` of a valid position always yields a valid
/// position again, and it is the same position.
pub proof fn lemma_wire_round_trip(h: HexPos)
    requires
        is_cube(h),
    ensures
        in_unit(-h.0 - h.1),
        hex_of(h.0, h.1) == h,
{
}

} // verus!
