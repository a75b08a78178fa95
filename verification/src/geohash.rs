//! An integer based geohash over a rectangular 2-D domain.
//!
//! A geohash is a `u64`. Its low [`PRECISION_BITS`] bits store
//! `precision - 1`; the bits at positions `[PRECISION_BITS,
//! PRECISION_BITS + precision)` store, in encoding order, alternating
//! x-then-y bisection decisions (a set bit means "upper half"). The same
//! integer decodes differently under different [`Bounds`]: a hash does not
//! remember the domain it was produced over.
//!
//! Positions and bounds are fixed-point values in millionths of a unit
//! (for the geographic domain: millionths of a degree), so that bisection
//! and wraparound rectification are exact integer arithmetic.

use vstd::prelude::*;

verus! {

/// Maximum value for the precision of a geohash.
pub const PRECISION_MAX: u8 = 58;

/// Minimum value for the precision of a geohash.
pub const PRECISION_MIN: u8 = 1;

/// Number of bits reserved at the bottom of a hash for the precision.
pub const PRECISION_BITS: u8 = 6;

/// Mask 111111 for the 6 precision bits.
pub const PRECISION_MASK: u64 = 63;

/// Largest magnitude a bounds field may have. Keeping the fields of a
/// [`Bounds`] within this limit guarantees that every intermediate value
/// of the codec and of rectification fits comfortably in 64 or 128 bits.
pub const BOUNDS_LIMIT: i64 = 2_305_843_009_213_693_952;

/// A 2-D position, in millionths of a unit on each axis.
#[derive(Clone, Copy, Debug, PartialEq, Eq, Structural)]
pub struct Point {
    /// x coordinate (for the geographic domain: longitude).
    pub x: i64,

    /// y coordinate (for the geographic domain: latitude).
    pub y: i64,
}

/// A rectangular boundary, in millionths of a unit on each axis.
#[derive(Clone, Copy, Debug, PartialEq, Eq, Structural)]
pub struct Bounds {
    /// x coordinate minimum.
    pub x_min: i64,

    /// x coordinate maximum.
    pub x_max: i64,

    /// y coordinate minimum.
    pub y_min: i64,

    /// y coordinate maximum.
    pub y_max: i64,
}

impl Bounds {
    /// Well-formedness: each axis is ordered and every field is small
    /// enough that the codec's arithmetic cannot overflow.
    pub open spec fn wf(self) -> bool {
        &&& self.x_min <= self.x_max
        &&& self.y_min <= self.y_max
        &&& -BOUNDS_LIMIT <= self.x_min <= BOUNDS_LIMIT
        &&& -BOUNDS_LIMIT <= self.x_max <= BOUNDS_LIMIT
        &&& -BOUNDS_LIMIT <= self.y_min <= BOUNDS_LIMIT
        &&& -BOUNDS_LIMIT <= self.y_max <= BOUNDS_LIMIT
    }

    /// Midpoint of the x axis, rounded toward negative infinity.
    pub open spec fn mid_x(self) -> int {
        (self.x_min + self.x_max) / 2
    }

    /// Midpoint of the y axis, rounded toward negative infinity.
    pub open spec fn mid_y(self) -> int {
        (self.y_min + self.y_max) / 2
    }

    /// Inclusive containment of a position on both axes.
    pub open spec fn contains_spec(self, position: Point) -> bool {
        &&& self.x_min <= position.x <= self.x_max
        &&& self.y_min <= position.y <= self.y_max
    }

    /// Width of the boundary.
    pub open spec fn x_range_spec(self) -> int {
        abs_spec(self.x_max - self.x_min)
    }

    /// Height of the boundary.
    pub open spec fn y_range_spec(self) -> int {
        abs_spec(self.y_max - self.y_min)
    }

    /// Constructor for `Bounds`.
    pub fn new(x_min: i64, x_max: i64, y_min: i64, y_max: i64) -> (b: Bounds)
        ensures
            b == (Bounds { x_min, x_max, y_min, y_max }),
    {
        Bounds { x_min, x_max, y_min, y_max }
    }

    /// Get the midpoint of this `Bounds`.
    pub fn mid(&self) -> (m: Point)
        requires
            self.x_min <= self.x_max,
            self.y_min <= self.y_max,
        ensures
            m.x == self.mid_x(),
            m.y == self.mid_y(),
    {
        let sx: i128 = self.x_min as i128 + self.x_max as i128;
        let sy: i128 = self.y_min as i128 + self.y_max as i128;
        let mx: i128 = div2_floor(sx);
        let my: i128 = div2_floor(sy);
        proof {
            lemma_mid_between(self.x_min as int, self.x_max as int);
            lemma_mid_between(self.y_min as int, self.y_max as int);
        }
        Point { x: mx as i64, y: my as i64 }
    }

    /// Test whether a position falls within this `Bounds` (inclusive on
    /// both axes).
    pub fn contains(&self, position: &Point) -> (r: bool)
        ensures
            r == self.contains_spec(*position),
    {
        position.x <= self.x_max && position.x >= self.x_min && position.y <= self.y_max
            && position.y >= self.y_min
    }

    /// Get the width of the boundary.
    pub fn x_range(&self) -> (r: i64)
        requires
            -i64::MAX <= self.x_max - self.x_min <= i64::MAX,
        ensures
            r == self.x_range_spec(),
    {
        let d: i128 = self.x_max as i128 - self.x_min as i128;
        if d < 0 {
            (-d) as i64
        } else {
            d as i64
        }
    }

    /// Get the height of the boundary.
    pub fn y_range(&self) -> (r: i64)
        requires
            -i64::MAX <= self.y_max - self.y_min <= i64::MAX,
        ensures
            r == self.y_range_spec(),
    {
        let d: i128 = self.y_max as i128 - self.y_min as i128;
        if d < 0 {
            (-d) as i64
        } else {
            d as i64
        }
    }
}

/// Absolute value of a mathematical integer.
pub open spec fn abs_spec(v: int) -> int {
    if v < 0 {
        -v
    } else {
        v
    }
}

/// Euclidean remainder of an `i128` by a positive modulus.
fn rem_euclid_pos(v: i128, m: i128) -> (r: i128)
    requires
        0 < m,
    ensures
        r == v as int % m as int,
{
    match v.checked_rem_euclid(m) {
        Some(r) => r,
        None => {
            proof {
                assert(false);
            }
            0
        },
    }
}

/// Floor division by two of an `i128`, via Euclidean division.
fn div2_floor(v: i128) -> (r: i128)
    ensures
        r == v as int / 2,
{
    match v.checked_div_euclid(2) {
        Some(q) => q,
        None => {
            proof {
                assert(i128::MIN <= v as int / 2 <= i128::MAX);
            }
            0
        },
    }
}

/// Result of repeatedly adding `m` to `v` until it reaches `lo`: the value
/// congruent to `v` modulo `m` in `[lo, lo + m)`, or `v` itself when it
/// already lies at or above `lo`.
pub open spec fn wrap_low_spec(v: int, lo: int, m: int) -> int {
    if v >= lo {
        v
    } else {
        lo + (v - lo) % m
    }
}

/// Result of repeatedly subtracting `m` from `v` until it reaches `hi`:
/// the value congruent to `v` modulo `m` in `(hi - m, hi]`, or `v` itself
/// when it already lies at or below `hi`.
pub open spec fn wrap_high_spec(v: int, hi: int, m: int) -> int {
    if v <= hi {
        v
    } else {
        hi - (hi - v) % m
    }
}

impl Bounds {
    /// What wraparound rectification demands of a domain: well-formed
    /// bounds with a positive extent on each axis.
    pub open spec fn rect_ok(self) -> bool {
        &&& self.wf()
        &&& self.x_min < self.x_max
        &&& self.y_min < self.y_max
    }
}

/// Wraparound rectification over a toroidal/polar domain, on unbounded
/// integers. First the y value is folded to within one extent of the
/// domain; if it still exceeds the domain it is reflected over the nearer
/// y edge ("over the pole") and the x value is shifted by half the x
/// extent; finally the x value is wrapped into the domain ("around the
/// antimeridian").
pub open spec fn rect_core_spec(x: int, y: int, range: Bounds) -> (int, int) {
    let xr = range.x_range_spec();
    let yr = range.y_range_spec();
    let y1 = wrap_low_spec(y, range.y_min - yr, yr);
    let y2 = wrap_high_spec(y1, range.y_max + yr, yr);
    let reflected = y2 > range.y_max || y2 < range.y_min;
    let y3 = if y2 > range.y_max {
        yr - y2
    } else if y2 < range.y_min {
        -(y2 + yr)
    } else {
        y2
    };
    let x1 = if reflected {
        x + xr / 2
    } else {
        x
    };
    let x2 = wrap_high_spec(x1, range.x_max as int, xr);
    let x3 = wrap_low_spec(x2, range.x_min as int, xr);
    (x3, y3)
}

/// After rectification the y value lies within one extent of the domain
/// and the x value lies inside the domain's x axis; every component fits
/// comfortably in an `i64`.
proof fn lemma_rect_core_bounds(x: int, y: int, range: Bounds)
    requires
        range.rect_ok(),
    ensures
        ({
            let (x3, y3) = rect_core_spec(x, y, range);
            &&& range.x_min <= x3 <= range.x_min + range.x_range_spec()
            &&& -3 * BOUNDS_LIMIT <= y3 <= 3 * BOUNDS_LIMIT
            &&& i64::MIN <= x3 <= i64::MAX
            &&& i64::MIN <= y3 <= i64::MAX
        }),
{
    let xr = range.x_range_spec();
    let yr = range.y_range_spec();
    let y1 = wrap_low_spec(y, range.y_min - yr, yr);
    let y2 = wrap_high_spec(y1, range.y_max + yr, yr);
    if y < range.y_min - yr {
        vstd::arithmetic::div_mod::lemma_mod_bound(y - (range.y_min - yr), yr);
    }
    if y1 > range.y_max + yr {
        vstd::arithmetic::div_mod::lemma_mod_bound(range.y_max + yr - y1, yr);
    }
    let x1 = if y2 > range.y_max || y2 < range.y_min {
        x + xr / 2
    } else {
        x
    };
    let x2 = wrap_high_spec(x1, range.x_max as int, xr);
    if x1 > range.x_max {
        vstd::arithmetic::div_mod::lemma_mod_bound(range.x_max - x1, xr);
    }
    if x2 < range.x_min {
        vstd::arithmetic::div_mod::lemma_mod_bound(x2 - range.x_min, xr);
    }
}

/// Wraparound rectification on `i128` coordinates; shared by
/// [`Rectifiable::spherical_rectify`] and [`neighbor`].
fn rect_core(x: i128, y: i128, range: &Bounds) -> (r: (i128, i128))
    requires
        range.rect_ok(),
        -0x1_0000_0000_0000_0000_0000 <= x <= 0x1_0000_0000_0000_0000_0000,
        -0x1_0000_0000_0000_0000_0000 <= y <= 0x1_0000_0000_0000_0000_0000,
    ensures
        (r.0 as int, r.1 as int) == rect_core_spec(x as int, y as int, *range),
{
    let xr: i128 = range.x_max as i128 - range.x_min as i128;
    let yr: i128 = range.y_max as i128 - range.y_min as i128;
    let mut xx: i128 = x;
    let mut yy: i128 = y;

    let ylo: i128 = range.y_min as i128 - yr;
    if yy < ylo {
        yy = ylo + rem_euclid_pos(yy - ylo, yr);
        proof {
            vstd::arithmetic::div_mod::lemma_mod_bound(y - (range.y_min - yr), yr as int);
        }
    }
    let yhi: i128 = range.y_max as i128 + yr;
    if yy > yhi {
        yy = yhi - rem_euclid_pos(yhi - yy, yr);
        proof {
            vstd::arithmetic::div_mod::lemma_mod_bound(
                range.y_max + range.y_range_spec() - wrap_low_spec(
                    y as int,
                    range.y_min - range.y_range_spec(),
                    range.y_range_spec(),
                ),
                yr as int,
            );
        }
    }
    if yy > range.y_max as i128 {
        yy = yr - yy;
        xx = xx + div2_floor(xr);
    } else if yy < range.y_min as i128 {
        yy = -(yy + yr);
        xx = xx + div2_floor(xr);
    }
    if xx > range.x_max as i128 {
        xx = range.x_max as i128 - rem_euclid_pos(range.x_max as i128 - xx, xr);
        proof {
            vstd::arithmetic::div_mod::lemma_mod_bound((range.x_max as i128 - xx) as int, xr as int);
        }
    }
    if xx < range.x_min as i128 {
        xx = range.x_min as i128 + rem_euclid_pos(xx - range.x_min as i128, xr);
    }
    (xx, yy)
}

/// An object which is able to be geohashed: a capability to encode a
/// value of type `T` into an integer geohash and decode it back. Each
/// implementation fixes its own projection and domain through the four
/// spec functions.
pub trait Geohashable<T> where Self: Sized {
    /// Which hashes this implementation can decode.
    spec fn decode_req(geohash: u64) -> bool;

    /// The value an integer geohash decodes to.
    spec fn decode_spec(geohash: u64) -> Result<T, GeohashError>;

    /// Which values of this type can be asked to encode at a precision.
    spec fn encode_req(&self, precision: u8) -> bool;

    /// The result of encoding this value at a precision.
    spec fn encode_spec(&self, precision: u8) -> Result<u64, GeohashError>;

    /// Decode an object of type `T` from an integer geohash.
    fn integer_decode(geohash: u64) -> (r: Result<T, GeohashError>)
        requires
            Self::decode_req(geohash),
        ensures
            r == Self::decode_spec(geohash),
    ;

    /// Encode this object of type `T` into an unsigned integer geohash.
    fn integer_encode(&self, precision: u8) -> (r: Result<u64, GeohashError>)
        requires
            self.encode_req(precision),
        ensures
            r == self.encode_spec(precision),
    ;
}

/// A position that can be rectified to fit within a boundary.
pub trait Rectifiable where Self: Sized {
    /// The rectified value, as a function of the original and the domain.
    spec fn spherical_rectified(self, range: Bounds) -> Self;

    /// Wrap this position around the bounds, such that it becomes the
    /// equivalent position within the bounds.
    fn spherical_rectify(&mut self, range: &Bounds)
        requires
            range.rect_ok(),
        ensures
            *final(self) == (*old(self)).spherical_rectified(*range),
    ;
}

impl Rectifiable for Point {
    /// The wraparound rectification of this position over `range`.
    open spec fn spherical_rectified(self, range: Bounds) -> Point {
        let (x3, y3) = rect_core_spec(self.x as int, self.y as int, range);
        Point { x: x3 as i64, y: y3 as i64 }
    }

    /// Wrap this position around the bounds, such that it becomes the
    /// equivalent position within the bounds.
    fn spherical_rectify(&mut self, range: &Bounds) {
        proof {
            lemma_rect_core_bounds(self.x as int, self.y as int, *range);
        }
        let (x3, y3) = rect_core(self.x as i128, self.y as i128, range);
        self.x = x3 as i64;
        self.y = y3 as i64;
    }
}

/// Wraparound rectification is the identity on every position already
/// inside the domain.
pub proof fn lemma_spherical_rectify_inside(p: Point, range: Bounds)
    requires
        range.rect_ok(),
        range.contains_spec(p),
    ensures
        p.spherical_rectified(range) == p,
{
}

/// The bounds of the latitude/longitude coordinate system, in millionths
/// of a degree: x (longitude) spans -180 to 180 degrees, y (latitude)
/// spans -90 to 90 degrees.
pub fn latlon_bounds() -> (b: Bounds)
    ensures
        b == latlon_bounds_spec(),
{
    Bounds { x_min: -180_000_000, x_max: 180_000_000, y_min: -90_000_000, y_max: 90_000_000 }
}

/// The latitude/longitude domain as a spec-level value.
pub open spec fn latlon_bounds_spec() -> Bounds {
    Bounds {
        x_min: -180_000_000i64,
        x_max: 180_000_000i64,
        y_min: -90_000_000i64,
        y_max: 90_000_000i64,
    }
}

/// The error taxonomy of the geohash codec. Every fallible operation
/// reports one of these; the codec never panics.
#[derive(Clone, Copy, Debug, PartialEq, Eq, Structural)]
pub enum GeohashError {
    /// A precision (or a string length standing for one) lies outside
    /// `[PRECISION_MIN, PRECISION_MAX]`.
    InvalidPrecision,

    /// A decode asked for more precision than the hash stores.
    PrecisionExceeded,
}

impl GeohashError {
    /// A descriptive message for this error.
    pub fn message(&self) -> (r: &'static str)
        ensures
            *self is InvalidPrecision ==> r@ == invalid_precision_message(),
            *self is PrecisionExceeded ==> r@ == precision_exceeded_message(),
    {
        match self {
            GeohashError::InvalidPrecision => "precision must be in the range of 1 to 58",
            GeohashError::PrecisionExceeded => "selected precision is greater than the precision of the hash",
        }
    }
}

/// The message reported for an out-of-range precision.
pub open spec fn invalid_precision_message() -> Seq<char> {
    "precision must be in the range of 1 to 58"@
}

/// The message reported when a decode asks for more precision than the
/// hash stores.
pub open spec fn precision_exceeded_message() -> Seq<char> {
    "selected precision is greater than the precision of the hash"@
}

/// Whether bit `k` of the hash payload is set; payload bits sit above the
/// `PRECISION_BITS` precision bits.
pub open spec fn hash_bit(geohash: u64, k: nat) -> bool {
    (geohash >> ((k + 6) as u64)) & 1u64 == 1u64
}

/// The payload of a hash whose bisection decisions are `bits`: bit `k` of
/// the payload is set exactly when `bits[k]` is true.
pub open spec fn payload_bits(bits: Seq<bool>) -> u64
    decreases bits.len(),
{
    if bits.len() == 0 {
        0u64
    } else {
        payload_bits(bits.drop_last()) | (if bits.last() {
            1u64 << (((bits.len() - 1) + 6) as u64)
        } else {
            0u64
        })
    }
}

/// The hash that stores `precision` in its low bits and the bisection
/// decisions `bits` in its payload.
pub open spec fn pack_hash(precision: u8, bits: Seq<bool>) -> u64 {
    ((precision - 1) as u64) | payload_bits(bits)
}

/// Narrow one axis of `b` to the half selected by `upper`; step `k` works
/// on the x axis when `k` is even, on the y axis when it is odd.
pub open spec fn refine_step(b: Bounds, k: nat, upper: bool) -> Bounds {
    if k % 2 == 0 {
        if upper {
            Bounds { x_min: b.mid_x() as i64, ..b }
        } else {
            Bounds { x_max: b.mid_x() as i64, ..b }
        }
    } else {
        if upper {
            Bounds { y_min: b.mid_y() as i64, ..b }
        } else {
            Bounds { y_max: b.mid_y() as i64, ..b }
        }
    }
}

/// The bisection decision for `position` at step `k` of `b`: true when the
/// position lies strictly above the midpoint of the axis the step works on.
pub open spec fn decision(b: Bounds, position: Point, k: nat) -> bool {
    if k % 2 == 0 {
        position.x > b.mid_x()
    } else {
        position.y > b.mid_y()
    }
}

/// The sub-bounds reached after `n` encoding steps for `position`,
/// starting from `b`.
pub open spec fn encode_range(position: Point, b: Bounds, n: nat) -> Bounds
    decreases n,
{
    if n == 0 {
        b
    } else {
        let prev = encode_range(position, b, (n - 1) as nat);
        refine_step(prev, (n - 1) as nat, decision(prev, position, (n - 1) as nat))
    }
}

/// The bisection decision recorded at step `k` when encoding `position`
/// over `b`.
pub open spec fn encode_bit(position: Point, b: Bounds, k: nat) -> bool {
    decision(encode_range(position, b, k), position, k)
}

/// The first `n` bisection decisions for `position` over `b`.
pub open spec fn encode_bits_seq(position: Point, b: Bounds, n: nat) -> Seq<bool> {
    Seq::new(n, |k: int| encode_bit(position, b, k as nat))
}

/// The hash produced by encoding `position` at `precision` over `b`.
pub open spec fn encode_hash_spec(position: Point, b: Bounds, precision: u8) -> u64 {
    pack_hash(precision, encode_bits_seq(position, b, precision as nat))
}

/// The sub-bounds reached after re-running `n` stored bisection decisions
/// of `geohash`, starting from `b`.
pub open spec fn decode_range_spec(geohash: u64, b: Bounds, n: nat) -> Bounds
    decreases n,
{
    if n == 0 {
        b
    } else {
        refine_step(decode_range_spec(geohash, b, (n - 1) as nat), (n - 1) as nat, hash_bit(geohash, (n - 1) as nat))
    }
}

proof fn lemma_or_zero(a: u64)
    by (bit_vector)
    ensures
        a | 0u64 == a,
        0u64 | a == a,
{
}

proof fn lemma_or_assoc(a: u64, b: u64, c: u64)
    by (bit_vector)
    ensures
        (a | b) | c == a | (b | c),
{
}

proof fn lemma_or_bit(a: u64, b: u64, j: u64)
    by (bit_vector)
    requires
        j < 64,
    ensures
        ((a | b) >> j) & 1u64 == ((a >> j) & 1u64) | ((b >> j) & 1u64),
        (a >> j) & 1u64 == 0u64 || (a >> j) & 1u64 == 1u64,
        (b >> j) & 1u64 == 0u64 || (b >> j) & 1u64 == 1u64,
        0u64 | 1u64 == 1u64,
        1u64 | 0u64 == 1u64,
        0u64 | 0u64 == 0u64,
        1u64 | 1u64 == 1u64,
{
}

proof fn lemma_single_bit(i: u64, j: u64)
    by (bit_vector)
    requires
        i < 64,
        j < 64,
    ensures
        ((1u64 << i) >> j) & 1u64 == (if i == j {
            1u64
        } else {
            0u64
        }),
{
}

proof fn lemma_zero_bits(j: u64)
    by (bit_vector)
    requires
        j < 64,
    ensures
        (0u64 >> j) & 1u64 == 0u64,
        0u64 & 63u64 == 0u64,
{
}

proof fn lemma_small_value_bits(v: u64, j: u64)
    by (bit_vector)
    requires
        v < 64,
        6 <= j < 64,
    ensures
        (v >> j) & 1u64 == 0u64,
        v & 63u64 == v,
{
}

proof fn lemma_or_low_mask(a: u64, b: u64)
    by (bit_vector)
    ensures
        (a | b) & 63u64 == (a & 63u64) | (b & 63u64),
{
}

proof fn lemma_single_bit_low_mask(i: u64)
    by (bit_vector)
    requires
        6 <= i < 64,
    ensures
        (1u64 << i) & 63u64 == 0u64,
{
}

/// The payload carries nothing in the precision bits: its low 6 bits are
/// zero, and bit `k` of the payload is `bits[k]` (false past the end).
proof fn lemma_payload_bits(bits: Seq<bool>, k: nat)
    requires
        bits.len() <= 58,
        k < 58,
    ensures
        hash_bit(payload_bits(bits), k) == (k < bits.len() && bits[k as int]),
        payload_bits(bits) & 63u64 == 0u64,
    decreases bits.len(),
{
    let j = (k + 6) as u64;
    if bits.len() == 0 {
        lemma_zero_bits(j);
    } else {
        let prev = bits.drop_last();
        let n1 = (bits.len() - 1) as nat;
        let i = (n1 + 6) as u64;
        lemma_payload_bits(prev, k);
        assert(k == n1 <==> j == i);
        if bits.last() {
            lemma_or_bit(payload_bits(prev), 1u64 << i, j);
            lemma_single_bit(i, j);
            lemma_or_low_mask(payload_bits(prev), 1u64 << i);
            lemma_single_bit_low_mask(i);
            lemma_or_zero(payload_bits(prev) & 63u64);
        } else {
            lemma_or_zero(payload_bits(prev));
        }
    }
}

/// Bit `k` of a packed hash is decision `k`, and the low 6 bits store
/// `precision - 1`.
proof fn lemma_pack_hash(precision: u8, bits: Seq<bool>, k: nat)
    requires
        1 <= precision <= 58,
        bits.len() == precision,
        k < 58,
    ensures
        hash_bit(pack_hash(precision, bits), k) == (k < precision && bits[k as int]),
        pack_hash(precision, bits) & 63u64 == precision - 1,
{
    let pr = (precision - 1) as u64;
    let pl = payload_bits(bits);
    let j = (k + 6) as u64;
    lemma_payload_bits(bits, k);
    lemma_or_bit(pr, pl, j);
    lemma_small_value_bits(pr, j);
    lemma_or_zero((pl >> j) & 1u64);
    lemma_or_low_mask(pr, pl);
    lemma_or_zero(pr & 63u64);
}

/// The midpoint of an ordered pair lies between its ends.
proof fn lemma_mid_between(lo: int, hi: int)
    requires
        lo <= hi,
    ensures
        lo <= (lo + hi) / 2 <= hi,
{
    vstd::arithmetic::div_mod::lemma_fundamental_div_mod(lo + hi, 2);
}

/// A refinement step preserves well-formedness and narrows the bounds.
proof fn lemma_refine_wf(b: Bounds, k: nat, upper: bool)
    requires
        b.wf(),
    ensures
        refine_step(b, k, upper).wf(),
        refine_step(b, k, upper).x_min >= b.x_min,
        refine_step(b, k, upper).x_max <= b.x_max,
        refine_step(b, k, upper).y_min >= b.y_min,
        refine_step(b, k, upper).y_max <= b.y_max,
{
    lemma_mid_between(b.x_min as int, b.x_max as int);
    lemma_mid_between(b.y_min as int, b.y_max as int);
}

/// Get the precision value for an integer geohash.
pub fn hash_precision(geohash: u64) -> (p: u8)
    ensures
        p == hash_precision_spec(geohash),
        1 <= p <= 64,
{
    let low: u64 = geohash & PRECISION_MASK;
    assert(low < 64) by (bit_vector)
        requires
            low == geohash & 63u64,
    ;
    (low as u8) + 1
}

/// The precision stored in a hash's low bits: `(hash & 0b111111) + 1`.
pub open spec fn hash_precision_spec(geohash: u64) -> int {
    (geohash & PRECISION_MASK) + 1
}

/// Encode a position into an unsigned integer geohash by `precision`
/// bisection steps of `range`, alternating the axis tested (x first). A
/// set bit means the position lay strictly above the midpoint of the
/// current sub-bounds on the step's axis. Fails exactly when the precision
/// lies outside `[PRECISION_MIN, PRECISION_MAX]`.
pub fn encode(position: &Point, precision: u8, range: &Bounds) -> (r: Result<u64, GeohashError>)
    requires
        range.wf(),
    ensures
        PRECISION_MIN <= precision <= PRECISION_MAX ==> r == Ok::<u64, GeohashError>(
            encode_hash_spec(*position, *range, precision),
        ),
        !(PRECISION_MIN <= precision <= PRECISION_MAX) ==> r == Err::<u64, GeohashError>(
            GeohashError::InvalidPrecision,
        ),
{
    if precision > PRECISION_MAX || precision < PRECISION_MIN {
        return Err(GeohashError::InvalidPrecision);
    }
    let mut current_range: Bounds = *range;
    let mut hash: u64 = (precision as u64) - 1;
    let mut do_x = true;
    let mut i: u8 = PRECISION_BITS;
    let end: u8 = precision + PRECISION_BITS;

    proof {
        lemma_or_zero(hash);
        assert(encode_bits_seq(*position, *range, 0nat) =~= Seq::<bool>::empty());
    }
    while i < end
        invariant
            6 <= i <= end,
            end == precision + 6,
            1 <= precision <= 58,
            range.wf(),
            current_range.wf(),
            current_range == encode_range(*position, *range, (i - 6) as nat),
            do_x == (((i - 6) as int % 2) == 0),
            hash == pack_hash(precision, encode_bits_seq(*position, *range, (i - 6) as nat)),
        decreases end - i,
    {
        let ghost n = (i - 6) as nat;
        let ghost bits_n = encode_bits_seq(*position, *range, n);
        let ghost bit = encode_bit(*position, *range, n);
        proof {
            lemma_refine_wf(current_range, n, bit);
            assert(encode_bits_seq(*position, *range, n + 1).drop_last() =~= bits_n);
        }
        let mid = current_range.mid();
        if do_x {
            if position.x > mid.x {
                hash = hash | (1u64 << i);
                current_range.x_min = mid.x;
            } else {
                current_range.x_max = mid.x;
            }
        } else {
            if position.y > mid.y {
                hash = hash | (1u64 << i);
                current_range.y_min = mid.y;
            } else {
                current_range.y_max = mid.y;
            }
        }
        proof {
            if bit {
                lemma_or_assoc(((precision - 1) as u64), payload_bits(bits_n), 1u64 << (i as u64));
            } else {
                lemma_or_zero(payload_bits(bits_n));
            }
        }
        do_x = !do_x;
        i = i + 1;
    }
    Ok(hash)
}

proof fn lemma_test_bit(h: u64, j: u64)
    by (bit_vector)
    requires
        j < 64,
    ensures
        (h & (1u64 << j) > 0) == ((h >> j) & 1u64 == 1u64),
{
}

/// Decode an integer geohash with a given precision, without checking that
/// the precision is at most the hash's own stored precision.
pub fn decode_precision_nocheck(geohash: u64, precision: u8, range: &Bounds) -> (r: Result<
    Bounds,
    GeohashError,
>)
    requires
        range.wf(),
        precision <= PRECISION_MAX,
    ensures
        r == Ok::<Bounds, GeohashError>(decode_range_spec(geohash, *range, precision as nat)),
{
    let mut current_range: Bounds = *range;
    let mut do_x = true;
    let mut i: u8 = PRECISION_BITS;
    let end: u8 = precision + PRECISION_BITS;

    while i < end
        invariant
            6 <= i <= end,
            end == precision + 6,
            precision <= 58,
            range.wf(),
            current_range.wf(),
            current_range == decode_range_spec(geohash, *range, (i - 6) as nat),
            do_x == (((i - 6) as int % 2) == 0),
        decreases end - i,
    {
        let ghost n = (i - 6) as nat;
        proof {
            lemma_refine_wf(current_range, n, hash_bit(geohash, n));
            lemma_test_bit(geohash, i as u64);
        }
        let mid = current_range.mid();
        if do_x {
            if geohash & (1u64 << i) > 0 {
                current_range.x_min = mid.x;
            } else {
                current_range.x_max = mid.x;
            }
        } else {
            if geohash & (1u64 << i) > 0 {
                current_range.y_min = mid.y;
            } else {
                current_range.y_max = mid.y;
            }
        }
        do_x = !do_x;
        i = i + 1;
    }
    Ok(current_range)
}

/// Decode an integer geohash into the sub-bounds of `range` that it
/// denotes, re-running the stored bisection decisions at the precision the
/// hash itself stores.
pub fn decode(geohash: u64, range: &Bounds) -> (r: Result<Bounds, GeohashError>)
    requires
        range.wf(),
        hash_precision_spec(geohash) <= PRECISION_MAX,
    ensures
        r == Ok::<Bounds, GeohashError>(
            decode_range_spec(geohash, *range, hash_precision_spec(geohash) as nat),
        ),
{
    let precision: u8 = hash_precision(geohash);
    decode_precision_nocheck(geohash, precision, range)
}

/// Decode an integer geohash at a chosen precision, which must not exceed
/// the precision stored in the hash; fails with `PrecisionExceeded`
/// otherwise.
pub fn decode_precision(geohash: u64, precision: u8, range: &Bounds) -> (r: Result<
    Bounds,
    GeohashError,
>)
    requires
        range.wf(),
        hash_precision_spec(geohash) <= PRECISION_MAX,
    ensures
        precision > hash_precision_spec(geohash) ==> r == Err::<Bounds, GeohashError>(
            GeohashError::PrecisionExceeded,
        ),
        precision <= hash_precision_spec(geohash) ==> r == Ok::<Bounds, GeohashError>(
            decode_range_spec(geohash, *range, precision as nat),
        ),
{
    let hp: u8 = hash_precision(geohash);
    if precision > hp {
        return Err(GeohashError::PrecisionExceeded);
    }
    decode_precision_nocheck(geohash, precision, range)
}

/// The payload of `geohash` rendered as `'0'`/`'1'` characters,
/// first-encoded bit first.
pub open spec fn hash_chars_spec(geohash: u64) -> Seq<char> {
    Seq::new(
        hash_precision_spec(geohash) as nat,
        |k: int|
            if hash_bit(geohash, k as nat) {
                '1'
            } else {
                '0'
            },
    )
}

/// Convert an integer geohash to a string of the binary payload bits,
/// most significant (first-encoded) bit first.
pub fn hash_to_string(geohash: u64) -> (r: Result<String, GeohashError>)
    requires
        hash_precision_spec(geohash) <= PRECISION_MAX,
    ensures
        r matches Ok(s) && s@ == hash_chars_spec(geohash),
{
    let precision: u8 = hash_precision(geohash);
    let mut string = String::new();

    let mut i: u8 = PRECISION_BITS;
    let end: u8 = PRECISION_BITS + precision;

    while i < end
        invariant
            6 <= i <= end,
            end == precision + 6,
            precision == hash_precision_spec(geohash),
            precision <= 58,
            string@ =~= hash_chars_spec(geohash).take((i - 6) as int),
        decreases end - i,
    {
        proof {
            lemma_test_bit(geohash, i as u64);
            reveal_strlit("1");
            reveal_strlit("0");
        }
        let val = geohash & (1u64 << i);
        if val > 0 {
            string.append("1");
        } else {
            string.append("0");
        }
        i = i + 1;
    }
    proof {
        assert(string@ =~= hash_chars_spec(geohash));
    }
    Ok(string)
}

/// The bisection decisions named by a string: a `'1'` character stands for
/// an upper-half decision, any other character for a lower-half one.
pub open spec fn string_bits(s: Seq<char>) -> Seq<bool> {
    Seq::new(s.len(), |k: int| s[k] == '1')
}

/// The hash a string of decision characters denotes: its length becomes
/// the stored precision and its characters the payload bits.
pub open spec fn hash_of_string_spec(s: Seq<char>) -> u64 {
    pack_hash(s.len() as u8, string_bits(s))
}

/// Create an integer geohash from a string of `'0'`/`'1'` characters.
/// Fails exactly when the string's length lies outside
/// `[PRECISION_MIN, PRECISION_MAX]`.
pub fn hash_from_string(string: &str) -> (r: Result<u64, GeohashError>)
    ensures
        PRECISION_MIN <= string@.len() <= PRECISION_MAX ==> r == Ok::<u64, GeohashError>(
            hash_of_string_spec(string@),
        ),
        !(PRECISION_MIN <= string@.len() <= PRECISION_MAX) ==> r == Err::<u64, GeohashError>(
            GeohashError::InvalidPrecision,
        ),
{
    let precision: usize = string.unicode_len();

    if precision > (PRECISION_MAX as usize) || precision < (PRECISION_MIN as usize) {
        return Err(GeohashError::InvalidPrecision);
    }
    let mut hash: u64 = (precision as u64) - 1;
    let mut k: usize = 0;

    proof {
        lemma_or_zero(hash);
        assert(string_bits(string@).take(0) =~= Seq::<bool>::empty());
    }
    while k < precision
        invariant
            0 <= k <= precision,
            1 <= precision <= 58,
            precision == string@.len(),
            hash == pack_hash(precision as u8, string_bits(string@).take(k as int)),
        decreases precision - k,
    {
        let ghost bits_k = string_bits(string@).take(k as int);
        proof {
            assert(string_bits(string@).take(k + 1).drop_last() =~= bits_k);
        }
        let c = string.get_char(k);
        if c == '1' {
            hash = hash | (1u64 << ((k as u64) + 6));
            proof {
                lemma_or_assoc(
                    ((precision - 1) as u64),
                    payload_bits(bits_k),
                    1u64 << (((k as u64) + 6)),
                );
            }
        } else {
            proof {
                lemma_or_zero(payload_bits(bits_k));
            }
        }
        k = k + 1;
    }
    proof {
        assert(string_bits(string@).take(precision as int) =~= string_bits(string@));
    }
    Ok(hash)
}

/// A hash built from a string stores the string's length as its precision:
/// `hash_precision(hash_from_string(s)) == len(s)` for every valid-length
/// string.
pub proof fn lemma_hash_string_precision(s: Seq<char>)
    requires
        PRECISION_MIN <= s.len() <= PRECISION_MAX,
    ensures
        hash_precision_spec(hash_of_string_spec(s)) == s.len(),
{
    lemma_pack_hash(s.len() as u8, string_bits(s), 0);
}

/// Converting a valid string of `'0'`/`'1'` characters to a hash and back
/// returns the same string: `hash_to_string(hash_from_string(s)) == s`.
pub proof fn lemma_hash_string_round_trip(s: Seq<char>)
    requires
        PRECISION_MIN <= s.len() <= PRECISION_MAX,
        forall|k: int| 0 <= k < s.len() ==> s[k] == '0' || s[k] == '1',
    ensures
        hash_chars_spec(hash_of_string_spec(s)) == s,
{
    let h = hash_of_string_spec(s);
    lemma_hash_string_precision(s);
    assert forall|k: int| 0 <= k < s.len() implies hash_chars_spec(h)[k] == s[k] by {
        lemma_pack_hash(s.len() as u8, string_bits(s), k as nat);
    }
    assert(hash_chars_spec(h) =~= s);
}

/// Encoding keeps the position inside every intermediate sub-bounds.
proof fn lemma_encode_range_contains(position: Point, b: Bounds, n: nat)
    requires
        b.wf(),
        b.contains_spec(position),
    ensures
        encode_range(position, b, n).wf(),
        encode_range(position, b, n).contains_spec(position),
    decreases n,
{
    if n > 0 {
        let prev = encode_range(position, b, (n - 1) as nat);
        lemma_encode_range_contains(position, b, (n - 1) as nat);
        lemma_refine_wf(prev, (n - 1) as nat, decision(prev, position, (n - 1) as nat));
        lemma_mid_between(prev.x_min as int, prev.x_max as int);
        lemma_mid_between(prev.y_min as int, prev.y_max as int);
    }
}

/// Decoding a hash produced by `encode` re-runs exactly the encoder's
/// bisection steps.
proof fn lemma_decode_matches_encode(position: Point, b: Bounds, precision: u8, n: nat)
    requires
        b.wf(),
        PRECISION_MIN <= precision <= PRECISION_MAX,
        n <= precision,
    ensures
        decode_range_spec(encode_hash_spec(position, b, precision), b, n) == encode_range(
            position,
            b,
            n,
        ),
    decreases n,
{
    if n > 0 {
        lemma_decode_matches_encode(position, b, precision, (n - 1) as nat);
        lemma_pack_hash(
            precision,
            encode_bits_seq(position, b, precision as nat),
            (n - 1) as nat,
        );
    }
}

/// Every decoded sub-bounds is well-formed and lies inside the domain it
/// was decoded over.
pub proof fn lemma_decode_range_wf(geohash: u64, b: Bounds, n: nat)
    requires
        b.wf(),
    ensures
        decode_range_spec(geohash, b, n).wf(),
        decode_range_spec(geohash, b, n).x_min >= b.x_min,
        decode_range_spec(geohash, b, n).x_max <= b.x_max,
        decode_range_spec(geohash, b, n).y_min >= b.y_min,
        decode_range_spec(geohash, b, n).y_max <= b.y_max,
    decreases n,
{
    if n > 0 {
        lemma_decode_range_wf(geohash, b, (n - 1) as nat);
        lemma_refine_wf(
            decode_range_spec(geohash, b, (n - 1) as nat),
            (n - 1) as nat,
            hash_bit(geohash, (n - 1) as nat),
        );
    }
}

/// The round trip of the codec: for every position inside well-formed
/// bounds and every valid precision, decoding the encoded hash yields a
/// cell that contains the position, and the hash stores the precision it
/// was encoded at.
pub proof fn lemma_decode_contains_encoded(position: Point, precision: u8, b: Bounds)
    requires
        b.wf(),
        b.contains_spec(position),
        PRECISION_MIN <= precision <= PRECISION_MAX,
    ensures
        hash_precision_spec(encode_hash_spec(position, b, precision)) == precision,
        decode_range_spec(
            encode_hash_spec(position, b, precision),
            b,
            precision as nat,
        ).contains_spec(position),
{
    lemma_pack_hash(precision, encode_bits_seq(position, b, precision as nat), 0);
    lemma_decode_matches_encode(position, b, precision, precision as nat);
    lemma_encode_range_contains(position, b, precision as nat);
}

/// A cell extent scaled by a small direction stays far inside `i128`.
proof fn lemma_scale_bound(a: int, d: int)
    by (nonlinear_arith)
    requires
        0 <= a <= 2 * BOUNDS_LIMIT,
        -128 <= d <= 128,
    ensures
        -590_295_810_358_705_651_712 <= a * d <= 590_295_810_358_705_651_712,
{
}

/// The midpoint of a hash's decoded cell, offset by `dir.0` cell widths on
/// x and `dir.1` cell heights on y.
pub open spec fn neighbor_point_spec(geohash: u64, dir: (i8, i8), range: Bounds) -> (int, int) {
    let cell = decode_range_spec(geohash, range, hash_precision_spec(geohash) as nat);
    (
        cell.mid_x() + cell.x_range_spec() * dir.0,
        cell.mid_y() + cell.y_range_spec() * dir.1,
    )
}

/// The hash of the cell `dir` cells away from the cell `geohash` denotes,
/// re-encoded at the hash's own precision; with `spherical` set, the offset
/// position is wraparound-rectified first.
pub open spec fn neighbor_spec(geohash: u64, dir: (i8, i8), range: Bounds, spherical: bool) -> u64 {
    let (nx, ny) = neighbor_point_spec(geohash, dir, range);
    let position = if spherical {
        let (rx, ry) = rect_core_spec(nx, ny, range);
        Point { x: rx as i64, y: ry as i64 }
    } else {
        Point { x: nx as i64, y: ny as i64 }
    };
    encode_hash_spec(position, range, hash_precision_spec(geohash) as u8)
}

/// Get the neighboring hash in the direction specified. `spherical` says
/// whether to apply wraparound rectification to the offset position before
/// re-encoding it.
pub fn neighbor(geohash: u64, dir: (i8, i8), range: &Bounds, spherical: bool) -> (r: Result<
    u64,
    GeohashError,
>)
    requires
        range.wf(),
        hash_precision_spec(geohash) <= PRECISION_MAX,
        spherical ==> range.rect_ok(),
        !spherical ==> i64::MIN <= neighbor_point_spec(geohash, dir, *range).0 <= i64::MAX,
        !spherical ==> i64::MIN <= neighbor_point_spec(geohash, dir, *range).1 <= i64::MAX,
    ensures
        r == Ok::<u64, GeohashError>(neighbor_spec(geohash, dir, *range, spherical)),
{
    let b: Bounds = match decode(geohash, range) {
        Ok(b) => b,
        Err(e) => { return Err(e) },
    };
    proof {
        lemma_decode_range_wf(geohash, *range, hash_precision_spec(geohash) as nat);
    }
    let precision: u8 = hash_precision(geohash);
    let (x_dir, y_dir) = dir;
    let midpoint = b.mid();

    proof {
        lemma_scale_bound(b.x_range_spec(), x_dir as int);
        lemma_scale_bound(b.y_range_spec(), y_dir as int);
    }
    let np_x: i128 = midpoint.x as i128 + (b.x_range() as i128) * (x_dir as i128);
    let np_y: i128 = midpoint.y as i128 + (b.y_range() as i128) * (y_dir as i128);

    let np: Point;
    if spherical {
        proof {
            lemma_rect_core_bounds(np_x as int, np_y as int, *range);
        }
        let (rx, ry) = rect_core(np_x, np_y, range);
        np = Point { x: rx as i64, y: ry as i64 };
    } else {
        np = Point { x: np_x as i64, y: np_y as i64 };
    }
    encode(&np, precision, range)
}

} // verus!
