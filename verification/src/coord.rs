//! Spherical and geographic coordinates.
//!
//! A [`SphericalCoordinate`] is a radius/azimuth/polar triple stored in
//! fixed-point units: the radius in millionths of a metre, the two angles
//! in millionths of a degree. The canonical (rectified) ranges are
//! `theta` in `[0, 360)` degrees and `phi` in `[0, 180]` degrees, which
//! mirror the mathematical ranges `[0, 2*pi)` and `[0, pi]`. The
//! geographic mapping is `r = altitude + EARTH_MSL_RADIUS`,
//! `theta = longitude + 180` degrees, `phi = latitude + 90` degrees.
//!
//! With this representation construction, rectification and the
//! geographic accessors are exact integer arithmetic. Distance and unit
//! vector computations need real-valued trigonometry and live with the
//! callers that need them.

use vstd::prelude::*;
use crate::geohash;
use crate::geohash::GeohashError;
use crate::geohash::Geohashable;
use crate::geohash::Point;

verus! {

/// Mean sea level on earth, in millionths of a metre.
pub const EARTH_MSL_RADIUS: i64 = 6_371_008_800_000;

/// A full turn (360 degrees), in millionths of a degree.
pub const FULL_TURN: i64 = 360_000_000;

/// Half a turn (180 degrees), in millionths of a degree.
pub const HALF_TURN: i64 = 180_000_000;

/// A quarter turn (90 degrees), in millionths of a degree.
pub const QUARTER_TURN: i64 = 90_000_000;

/// Represents a coordinate in the spherical coordinate system.
///
/// The normal (rectified) range for the variables is `r >= 0`,
/// `theta` in `[0, FULL_TURN)` and `phi` in `[0, HALF_TURN]`. Values
/// outside these ranges are folded back by [`Self::rectify_bounds`].
#[derive(Clone, Copy, Debug, PartialEq, Eq, Structural)]
pub struct SphericalCoordinate {
    /// Radius component, in millionths of a metre.
    pub r: i64,

    /// Theta (azimuthal) component, in millionths of a degree.
    pub theta: i64,

    /// Phi (polar) component, in millionths of a degree.
    pub phi: i64,
}

/// An angle folded into `[0, FULL_TURN)` by repeated addition or
/// subtraction of full turns.
pub open spec fn wrap_turn_spec(v: int) -> int {
    v % (FULL_TURN as int)
}

impl SphericalCoordinate {
    /// The polar angle after rectification: folded into `[0, FULL_TURN)`,
    /// then reflected over the pole when it exceeds `HALF_TURN`.
    pub open spec fn rect_phi_spec(self) -> int {
        let p0 = wrap_turn_spec(self.phi as int);
        if p0 > HALF_TURN {
            FULL_TURN - p0
        } else {
            p0
        }
    }

    /// The azimuthal angle after rectification: shifted by half a turn
    /// when the polar angle was reflected over the pole, then folded into
    /// `[0, FULL_TURN)`.
    pub open spec fn rect_theta_spec(self) -> int {
        let p0 = wrap_turn_spec(self.phi as int);
        if p0 > HALF_TURN {
            wrap_turn_spec(self.theta + HALF_TURN)
        } else {
            wrap_turn_spec(self.theta as int)
        }
    }

    /// The rectified form of this coordinate; the radius is untouched.
    pub open spec fn rectified_spec(self) -> SphericalCoordinate {
        SphericalCoordinate {
            r: self.r,
            theta: self.rect_theta_spec() as i64,
            phi: self.rect_phi_spec() as i64,
        }
    }

    /// Whether the angles lie in their canonical ranges.
    pub open spec fn is_rectified(self) -> bool {
        &&& 0 <= self.theta < FULL_TURN
        &&& 0 <= self.phi <= HALF_TURN
    }
}

/// Fold an angle into `[0, FULL_TURN)`.
fn wrap_turn(v: i64) -> (r: i64)
    ensures
        r == wrap_turn_spec(v as int),
        0 <= r < FULL_TURN,
{
    proof {
        vstd::arithmetic::div_mod::lemma_mod_bound(v as int, FULL_TURN as int);
    }
    match v.checked_rem_euclid(FULL_TURN) {
        Some(r) => r,
        None => {
            proof {
                assert(false);
            }
            0
        },
    }
}

impl SphericalCoordinate {
    /// Constructor for `SphericalCoordinate`; the value is immediately
    /// rectified, so it always lies in the canonical ranges.
    pub fn new(r: i64, theta: i64, phi: i64) -> (c: SphericalCoordinate)
        ensures
            c == (SphericalCoordinate { r, theta, phi }).rectified_spec(),
            c.is_rectified(),
    {
        let mut coord = SphericalCoordinate { r, theta, phi };
        coord.rectify_bounds_inplace();
        coord
    }

    /// Create a new `SphericalCoordinate` from a geographic coordinate.
    ///
    /// `alt`: millionths of a metre above the surface defined by
    /// [`EARTH_MSL_RADIUS`]; `lat`, `lon`: millionths of a degree.
    pub fn from_geographic(alt: i64, lat: i64, lon: i64) -> (c: SphericalCoordinate)
        requires
            alt + EARTH_MSL_RADIUS <= i64::MAX,
            lat + QUARTER_TURN <= i64::MAX,
            lon + HALF_TURN <= i64::MAX,
        ensures
            c == from_geographic_spec(alt as int, lat as int, lon as int),
            c.is_rectified(),
    {
        SphericalCoordinate::new(alt + EARTH_MSL_RADIUS, lon + HALF_TURN, lat + QUARTER_TURN)
    }

    /// Create a clone whose values fall within the normal boundary of the
    /// spherical coordinate system.
    pub fn rectify_bounds(&self) -> (c: SphericalCoordinate)
        ensures
            c == self.rectified_spec(),
            c.is_rectified(),
    {
        let mut new_coord = *self;
        new_coord.rectify_bounds_inplace();
        new_coord
    }

    /// Ensure that this object's values fall within the normal boundary
    /// of the spherical coordinate system.
    pub fn rectify_bounds_inplace(&mut self)
        ensures
            *final(self) == (*old(self)).rectified_spec(),
            final(self).is_rectified(),
    {
        let p0 = wrap_turn(self.phi);
        if p0 > HALF_TURN {
            self.phi = FULL_TURN - p0;
            let t0 = wrap_turn(self.theta);
            self.theta = wrap_turn(t0 + HALF_TURN);
            proof {
                lemma_wrap_turn_shift(old(self).theta as int);
            }
        } else {
            self.phi = p0;
            self.theta = wrap_turn(self.theta);
        }
    }

    /// Check whether this coordinate and another are approximately equal:
    /// each component differs by strictly less than `epsilon`.
    pub fn approx_eq(&self, other: &SphericalCoordinate, epsilon: i64) -> (r: bool)
        ensures
            r == self.approx_eq_spec(*other, epsilon as int),
    {
        let mut eq = true;
        eq = eq && abs_diff_i64(self.r, other.r) < epsilon as i128;
        eq = eq && abs_diff_i64(self.theta, other.theta) < epsilon as i128;
        eq = eq && abs_diff_i64(self.phi, other.phi) < epsilon as i128;
        eq
    }

    /// Componentwise tolerance comparison of two coordinates.
    pub open spec fn approx_eq_spec(self, other: SphericalCoordinate, epsilon: int) -> bool {
        &&& geohash::abs_spec(self.r - other.r) < epsilon
        &&& geohash::abs_spec(self.theta - other.theta) < epsilon
        &&& geohash::abs_spec(self.phi - other.phi) < epsilon
    }

    /// Get the altitude, in millionths of a metre.
    pub fn alt(&self) -> (a: i64)
        requires
            i64::MIN <= self.r - EARTH_MSL_RADIUS,
        ensures
            a == self.r - EARTH_MSL_RADIUS,
    {
        let a: i128 = self.r as i128 - EARTH_MSL_RADIUS as i128;
        a as i64
    }

    /// Set the altitude above mean sea level, in millionths of a metre.
    pub fn set_alt(&mut self, alt: i64)
        requires
            alt + EARTH_MSL_RADIUS <= i64::MAX,
        ensures
            *final(self) == (SphericalCoordinate {
                r: (alt + EARTH_MSL_RADIUS) as i64,
                ..*old(self)
            }),
    {
        self.r = alt + EARTH_MSL_RADIUS;
    }

    /// Get the latitude, in millionths of a degree.
    pub fn lat(&self) -> (l: i64)
        requires
            i64::MIN <= self.phi - QUARTER_TURN,
        ensures
            l == self.phi - QUARTER_TURN,
    {
        let l: i128 = self.phi as i128 - QUARTER_TURN as i128;
        l as i64
    }

    /// Set the latitude, in millionths of a degree; the coordinate is
    /// re-rectified afterwards.
    pub fn set_lat(&mut self, lat: i64)
        requires
            lat + QUARTER_TURN <= i64::MAX,
        ensures
            *final(self) == (SphericalCoordinate {
                phi: (lat + QUARTER_TURN) as i64,
                ..*old(self)
            }).rectified_spec(),
            final(self).is_rectified(),
    {
        self.phi = lat + QUARTER_TURN;
        self.rectify_bounds_inplace();
    }

    /// Get the longitude, in millionths of a degree.
    pub fn lon(&self) -> (l: i64)
        requires
            i64::MIN <= self.theta - HALF_TURN,
        ensures
            l == self.theta - HALF_TURN,
    {
        let l: i128 = self.theta as i128 - HALF_TURN as i128;
        l as i64
    }

    /// Set the longitude, in millionths of a degree; the coordinate is
    /// re-rectified afterwards.
    pub fn set_lon(&mut self, lon: i64)
        requires
            lon + HALF_TURN <= i64::MAX,
        ensures
            *final(self) == (SphericalCoordinate {
                theta: (lon + HALF_TURN) as i64,
                ..*old(self)
            }).rectified_spec(),
            final(self).is_rectified(),
    {
        self.theta = lon + HALF_TURN;
        self.rectify_bounds_inplace();
    }

    /// A very simple difference-in-angle heuristic: the Euclidean distance
    /// in `(theta, phi)` space, rounded down to a whole number of
    /// millionths of a degree. A cheap ordering heuristic, not a geodesic
    /// distance.
    pub fn angle_difference_heuristic(&self, other: &SphericalCoordinate) -> (d: u64)
        requires
            -i64::MAX <= other.theta - self.theta <= i64::MAX,
            -i64::MAX <= other.phi - self.phi <= i64::MAX,
        ensures
            d * d <= self.angle_sq_dist_spec(*other) < (d + 1) * (d + 1),
    {
        let dtheta: i128 = other.theta as i128 - self.theta as i128;
        let dphi: i128 = other.phi as i128 - self.phi as i128;
        let at: u128 = if dtheta < 0 {
            (-dtheta) as u128
        } else {
            dtheta as u128
        };
        let ap: u128 = if dphi < 0 {
            (-dphi) as u128
        } else {
            dphi as u128
        };
        proof {
            lemma_sq_bound(at as int, ap as int);
            lemma_neg_sq(dtheta as int);
            lemma_neg_sq(dphi as int);
        }
        let s: u128 = at * at + ap * ap;
        isqrt_u128(s)
    }

    /// The squared Euclidean distance between two coordinates in
    /// `(theta, phi)` space.
    pub open spec fn angle_sq_dist_spec(self, other: SphericalCoordinate) -> int {
        (other.theta - self.theta) * (other.theta - self.theta) + (other.phi - self.phi) * (
        other.phi - self.phi)
    }
}

/// The decimal digit character for a value in `[0, 9]`.
pub open spec fn dec_digit(d: int) -> char {
    if d == 0 {
        '0'
    } else if d == 1 {
        '1'
    } else if d == 2 {
        '2'
    } else if d == 3 {
        '3'
    } else if d == 4 {
        '4'
    } else if d == 5 {
        '5'
    } else if d == 6 {
        '6'
    } else if d == 7 {
        '7'
    } else if d == 8 {
        '8'
    } else {
        '9'
    }
}

/// The decimal digits of a non-negative value, most significant first.
pub open spec fn dec_str(n: int) -> Seq<char>
    decreases n,
{
    if n < 10 {
        seq![dec_digit(n)]
    } else {
        dec_str(n / 10) + seq![dec_digit(n % 10)]
    }
}

/// The decimal rendering of a value, with a leading minus sign when it is
/// negative.
pub open spec fn dec_str_i64(v: int) -> Seq<char> {
    if v < 0 {
        seq!['-'] + dec_str(-v)
    } else {
        dec_str(v)
    }
}

/// The single-character string for a decimal digit.
fn digit_str(d: u64) -> (s: &'static str)
    requires
        d < 10,
    ensures
        s@ == seq![dec_digit(d as int)],
{
    let s: &'static str = if d == 0 {
        "0"
    } else if d == 1 {
        "1"
    } else if d == 2 {
        "2"
    } else if d == 3 {
        "3"
    } else if d == 4 {
        "4"
    } else if d == 5 {
        "5"
    } else if d == 6 {
        "6"
    } else if d == 7 {
        "7"
    } else if d == 8 {
        "8"
    } else {
        "9"
    };
    proof {
        reveal_strlit("0");
        reveal_strlit("1");
        reveal_strlit("2");
        reveal_strlit("3");
        reveal_strlit("4");
        reveal_strlit("5");
        reveal_strlit("6");
        reveal_strlit("7");
        reveal_strlit("8");
        reveal_strlit("9");
        assert(s@ =~= seq![dec_digit(d as int)]);
    }
    s
}

/// Render a `u64` in decimal.
fn u64_dec_string(n: u64) -> (s: String)
    ensures
        s@ == dec_str(n as int),
    decreases n,
{
    if n < 10 {
        digit_str(n).to_owned()
    } else {
        proof {
            assert(n as int / 10 < n as int && 0 <= n as int / 10) by (nonlinear_arith)
                requires
                    n >= 10,
            ;
        }
        let mut s = u64_dec_string(n / 10);
        s.append(digit_str(n % 10));
        s
    }
}

/// Render an `i64` in decimal, with a leading minus sign when negative.
fn i64_dec_string(v: i64) -> (s: String)
    ensures
        s@ == dec_str_i64(v as int),
{
    if v >= 0 {
        u64_dec_string(v as u64)
    } else {
        let mut s = "-".to_owned();
        let mag: u64 = (-(v as i128)) as u64;
        let digits = u64_dec_string(mag);
        s.append(digits.as_str());
        proof {
            reveal_strlit("-");
            assert(s@ =~= dec_str_i64(v as int));
        }
        s
    }
}

/// The textual geographic form of a coordinate: altitude, latitude and
/// longitude, each in millionths of their unit.
pub open spec fn fmt_geographic_spec(c: SphericalCoordinate) -> Seq<char> {
    "Point {alt: "@ + dec_str_i64(c.r - EARTH_MSL_RADIUS) + ", lat: "@ + dec_str_i64(
        c.phi - QUARTER_TURN,
    ) + ", lon: "@ + dec_str_i64(c.theta - HALF_TURN) + "}"@
}

impl SphericalCoordinate {
    /// Format the coordinate as a geographic point string: altitude,
    /// latitude and longitude, each in millionths of their unit.
    pub fn fmt_geographic(&self) -> (s: String)
        requires
            i64::MIN <= self.r - EARTH_MSL_RADIUS,
            i64::MIN <= self.phi - QUARTER_TURN,
            i64::MIN <= self.theta - HALF_TURN,
        ensures
            s@ == fmt_geographic_spec(*self),
    {
        let mut s = "Point {alt: ".to_owned();
        s.append(i64_dec_string(self.alt()).as_str());
        s.append(", lat: ");
        s.append(i64_dec_string(self.lat()).as_str());
        s.append(", lon: ");
        s.append(i64_dec_string(self.lon()).as_str());
        s.append("}");
        s
    }
}

/// The geographic construction: radius from altitude, angles from
/// longitude and latitude, rectified.
pub open spec fn from_geographic_spec(alt: int, lat: int, lon: int) -> SphericalCoordinate {
    (SphericalCoordinate {
        r: (alt + EARTH_MSL_RADIUS) as i64,
        theta: (lon + HALF_TURN) as i64,
        phi: (lat + QUARTER_TURN) as i64,
    }).rectified_spec()
}

/// Absolute difference of two `i64` values, exact in `i128`.
fn abs_diff_i64(a: i64, b: i64) -> (d: i128)
    ensures
        d == geohash::abs_spec(a - b),
{
    let diff: i128 = a as i128 - b as i128;
    if diff < 0 {
        -diff
    } else {
        diff
    }
}

/// Folding an angle and then shifting it by half a turn folds to the same
/// value as shifting first.
proof fn lemma_wrap_turn_shift(theta: int)
    ensures
        wrap_turn_spec(wrap_turn_spec(theta) + HALF_TURN) == wrap_turn_spec(theta + HALF_TURN),
{
    let m = FULL_TURN as int;
    vstd::arithmetic::div_mod::lemma_add_mod_noop(theta % m, HALF_TURN as int, m);
    vstd::arithmetic::div_mod::lemma_add_mod_noop(theta, HALF_TURN as int, m);
    vstd::arithmetic::div_mod::lemma_mod_twice(theta, m);
    vstd::arithmetic::div_mod::lemma_mod_bound(HALF_TURN as int, m);
    vstd::arithmetic::div_mod::lemma_small_mod(HALF_TURN as nat, m as nat);
}

/// The squares of two values below `i64::MAX` sum to less than `2^127`.
proof fn lemma_sq_bound(a: int, b: int)
    by (nonlinear_arith)
    requires
        0 <= a <= i64::MAX,
        0 <= b <= i64::MAX,
    ensures
        0 <= a * a,
        0 <= b * b,
        a * a + b * b < 0x8000_0000_0000_0000_0000_0000_0000_0000,
{
}

/// Floor integer square root of a `u128` below `2^127`.
fn isqrt_u128(s: u128) -> (r: u64)
    requires
        s < 0x8000_0000_0000_0000_0000_0000_0000_0000,
    ensures
        r * r <= s < (r + 1) * (r + 1),
{
    let mut lo: u64 = 0;
    let mut hi: u64 = u64::MAX;
    proof {
        assert((u64::MAX as int + 1) * (u64::MAX as int + 1)
            == 0x1_0000_0000_0000_0000_0000_0000_0000_0000);
    }
    while lo < hi
        invariant
            lo <= hi,
            lo * lo <= s,
            s < (hi + 1) * (hi + 1),
        decreases hi - lo,
    {
        let mid: u64 = lo + (hi - lo) / 2 + 1;
        proof {
            vstd::arithmetic::div_mod::lemma_fundamental_div_mod((hi - lo) as int, 2);
            lemma_sq_mono(mid as int, u64::MAX as int);
            assert((u64::MAX as int) * (u64::MAX as int) < 0x1_0000_0000_0000_0000_0000_0000_0000_0000);
        }
        let sq: u128 = (mid as u128) * (mid as u128);
        if sq <= s {
            lo = mid;
        } else {
            hi = mid - 1;
        }
    }
    lo
}

/// A value and its negation have the same square.
proof fn lemma_neg_sq(d: int)
    by (nonlinear_arith)
    ensures
        (-d) * (-d) == d * d,
{
}

/// Squaring is monotone on non-negative values.
proof fn lemma_sq_mono(a: int, b: int)
    by (nonlinear_arith)
    requires
        0 <= a <= b,
    ensures
        a * a <= b * b,
{
}

/// Rectification is idempotent: rectifying an already-rectified
/// coordinate changes nothing, and rectification always yields angles in
/// the canonical ranges.
pub proof fn lemma_rectify_idempotent(c: SphericalCoordinate)
    ensures
        c.rectified_spec().is_rectified(),
        c.rectified_spec().rectified_spec() == c.rectified_spec(),
{
    let m = FULL_TURN as int;
    vstd::arithmetic::div_mod::lemma_mod_bound(c.phi as int, m);
    vstd::arithmetic::div_mod::lemma_mod_bound(c.theta as int, m);
    vstd::arithmetic::div_mod::lemma_mod_bound(c.theta + HALF_TURN, m);
    let d = c.rectified_spec();
    vstd::arithmetic::div_mod::lemma_small_mod(d.phi as nat, m as nat);
    vstd::arithmetic::div_mod::lemma_small_mod(d.theta as nat, m as nat);
}

/// Geographic round trip: a coordinate built from an altitude, a latitude
/// in `[-90, 90]` degrees and a longitude in `[-180, 180)` degrees gives
/// exactly those values back through the geographic accessors.
pub proof fn lemma_from_geographic_round_trip(alt: int, lat: int, lon: int)
    requires
        -QUARTER_TURN <= lat <= QUARTER_TURN,
        -HALF_TURN <= lon < HALF_TURN,
        i64::MIN <= alt,
        alt + EARTH_MSL_RADIUS <= i64::MAX,
    ensures
        ({
            let c = from_geographic_spec(alt, lat, lon);
            &&& c.r - EARTH_MSL_RADIUS == alt
            &&& c.phi - QUARTER_TURN == lat
            &&& c.theta - HALF_TURN == lon
        }),
{
    let m = FULL_TURN as int;
    vstd::arithmetic::div_mod::lemma_small_mod((lat + QUARTER_TURN) as nat, m as nat);
    vstd::arithmetic::div_mod::lemma_small_mod((lon + HALF_TURN) as nat, m as nat);
}

impl Geohashable<SphericalCoordinate> for SphericalCoordinate {
    /// Any hash whose stored precision is at most `PRECISION_MAX` can be
    /// decoded.
    open spec fn decode_req(hash: u64) -> bool {
        geohash::hash_precision_spec(hash) <= geohash::PRECISION_MAX
    }

    /// Decoding takes the midpoint of the cell the hash denotes over the
    /// latitude/longitude domain, at altitude zero.
    open spec fn decode_spec(hash: u64) -> Result<SphericalCoordinate, GeohashError> {
        let cell = geohash::decode_range_spec(
            hash,
            geohash::latlon_bounds_spec(),
            geohash::hash_precision_spec(hash) as nat,
        );
        Ok(from_geographic_spec(0, cell.mid_y(), cell.mid_x()))
    }

    /// Any coordinate whose angles allow the geographic projection can be
    /// encoded.
    open spec fn encode_req(&self, precision: u8) -> bool {
        &&& i64::MIN + HALF_TURN <= self.theta
        &&& i64::MIN + QUARTER_TURN <= self.phi
    }

    /// Encoding projects the coordinate to its longitude/latitude position
    /// and encodes it over the latitude/longitude domain.
    open spec fn encode_spec(&self, precision: u8) -> Result<u64, GeohashError> {
        if geohash::PRECISION_MIN <= precision <= geohash::PRECISION_MAX {
            Ok(
                geohash::encode_hash_spec(
                    Point { x: (self.theta - HALF_TURN) as i64, y: (self.phi - QUARTER_TURN) as i64 },
                    geohash::latlon_bounds_spec(),
                    precision,
                ),
            )
        } else {
            Err(GeohashError::InvalidPrecision)
        }
    }

    /// Decode a coordinate from an integer geohash over the
    /// latitude/longitude domain.
    fn integer_decode(hash: u64) -> (r: Result<SphericalCoordinate, GeohashError>) {
        let bounds = geohash::latlon_bounds();
        let cell = match geohash::decode(hash, &bounds) {
            Ok(cell) => cell,
            Err(e) => { return Err(e) },
        };
        proof {
            geohash::lemma_decode_range_wf(
                hash,
                geohash::latlon_bounds_spec(),
                geohash::hash_precision_spec(hash) as nat,
            );
        }
        let pos = cell.mid();
        Ok(SphericalCoordinate::from_geographic(0, pos.y, pos.x))
    }

    /// Encode this coordinate into an integer geohash over the
    /// latitude/longitude domain.
    fn integer_encode(&self, precision: u8) -> (r: Result<u64, GeohashError>) {
        let bounds = geohash::latlon_bounds();
        let position = Point { x: self.lon(), y: self.lat() };
        geohash::encode(&position, precision, &bounds)
    }
}

} // verus!
