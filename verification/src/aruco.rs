//! Markers found in a camera frame: which of them count, and where the one
//! with id 0 lies.
//!
//! Points are in millionths of a pixel. Finding the markers in a picture is
//! not done here; what was found comes in as ids and corners.

use vstd::prelude::*;
use crate::mapper::NormalizedPosition;
use crate::units::{clamp_spec, distance_spec, floor_div, ONE};

verus! {

/// The largest coordinate, either way, that a corner of a valid marker has.
pub const MAX_COORDINATE: i64 = 0x4000_0000_0000_0000;

/// A point of a frame.
#[derive(Clone, Copy, Debug, PartialEq, Eq, Structural)]
pub struct Point {
    pub x: i64,
    pub y: i64,
}

/// A marker as found: its id, its corners in order around it, and their
/// centre.
#[derive(Debug)]
pub struct DetectedMarker {
    pub id: i32,
    pub corners: Vec<Point>,
    pub center: Point,
}

/// What a marker holds.
pub struct MarkerModel {
    pub id: i32,
    pub corners: Seq<Point>,
    pub center: Point,
}

impl View for DetectedMarker {
    type V = MarkerModel;

    open spec fn view(&self) -> MarkerModel {
        MarkerModel { id: self.id, corners: self.corners@, center: self.center }
    }
}

/// Whether both coordinates of a point are within [`MAX_COORDINATE`].
pub open spec fn in_bounds(p: Point) -> bool {
    -MAX_COORDINATE <= p.x <= MAX_COORDINATE && -MAX_COORDINATE <= p.y <= MAX_COORDINATE
}

/// The sum of the `x` of the first `n` points.
pub open spec fn sum_x(points: Seq<Point>, n: int) -> int
    decreases n,
{
    if n <= 0 {
        0
    } else {
        sum_x(points, n - 1) + points[n - 1].x
    }
}

/// The sum of the `y` of the first `n` points.
pub open spec fn sum_y(points: Seq<Point>, n: int) -> int
    decreases n,
{
    if n <= 0 {
        0
    } else {
        sum_y(points, n - 1) + points[n - 1].y
    }
}

/// The mean of the points, each coordinate rounded down; the origin for no
/// points.
pub open spec fn mean_of(points: Seq<Point>) -> Point {
    if points.len() == 0 {
        Point { x: 0, y: 0 }
    } else {
        Point {
            x: (sum_x(points, points.len() as int) / (points.len() as int)) as i64,
            y: (sum_y(points, points.len() as int) / (points.len() as int)) as i64,
        }
    }
}

/// The marker with this id and these corners.
pub open spec fn marker_of(id: i32, corners: Seq<Point>) -> MarkerModel {
    MarkerModel { id, corners, center: mean_of(corners) }
}

/// The square of the distance between two points.
pub open spec fn squared_distance(a: Point, b: Point) -> int {
    (a.x - b.x) * (a.x - b.x) + (a.y - b.y) * (a.y - b.y)
}

/// Whether `root` is the square root of `n`, rounded down.
pub open spec fn is_floor_sqrt(n: int, root: int) -> bool {
    root >= 0 && root * root <= n < (root + 1) * (root + 1)
}

/// The square root of `n`, rounded down.
pub open spec fn floor_sqrt(n: int) -> int {
    choose|root: int| is_floor_sqrt(n, root)
}

/// The length of the side from corner `i` to the next corner round the
/// marker, rounded down.
pub open spec fn side(corners: Seq<Point>, i: int) -> int
    recommends
        corners.len() == 4,
        0 <= i < 4,
{
    floor_sqrt(squared_distance(corners[i], corners[(i + 1) % 4]))
}

/// The sum of the four sides.
pub open spec fn perimeter(corners: Seq<Point>) -> int
    recommends
        corners.len() == 4,
{
    side(corners, 0) + side(corners, 1) + side(corners, 2) + side(corners, 3)
}

/// Whether a side of this length differs from the mean side by less than
/// three tenths of the mean side, the four sides summing to `around`.
pub open spec fn near_mean(length: int, around: int) -> bool {
    distance_spec(4 * length, around) * 10 < 3 * around
}

/// Whether a marker with these corners counts: it has four corners within
/// bounds, its perimeter is not below `min_marker_size`, and it is roughly
/// square, no side differing from the mean side by three tenths of it or
/// more. (Four corners in one spot have no mean side to differ from.)
pub open spec fn marker_is_valid(corners: Seq<Point>, min_marker_size: int) -> bool {
    &&& corners.len() == 4
    &&& forall|i: int| 0 <= i < 4 ==> in_bounds(#[trigger] corners[i])
    &&& perimeter(corners) >= min_marker_size
    &&& (perimeter(corners) == 0 || forall|i: int|
        0 <= i < 4 ==> near_mean(#[trigger] side(corners, i), perimeter(corners)))
}

/// The index of the first of the markers with id 0, or the number of markers
/// where none has it.
pub open spec fn first_marker0(markers: Seq<DetectedMarker>) -> int
    decreases markers.len(),
{
    if markers.len() == 0 {
        0
    } else if markers[0].id == 0 {
        0
    } else {
        1 + first_marker0(markers.drop_first())
    }
}

/// A pixel coordinate as a position between -1 and 1 across `extent` pixels:
/// twice the coordinate by the extent, less one, rounded down and limited to
/// that range.
pub open spec fn normalized(coordinate: int, extent: int) -> i64
    recommends
        extent > 0,
{
    clamp_spec((2 * coordinate) / extent - ONE, -ONE, ONE as int) as i64
}

/// The position of the first marker with id 0 in a frame of this size; not
/// detected, at the origin, where no marker has id 0.
pub open spec fn marker0_position(
    frame_width: int,
    frame_height: int,
    markers: Seq<DetectedMarker>,
) -> NormalizedPosition {
    let found = first_marker0(markers);
    if found < markers.len() {
        NormalizedPosition {
            x: normalized(markers[found].center.x as int, frame_width),
            y: normalized(markers[found].center.y as int, frame_height),
            detected: true,
        }
    } else {
        NormalizedPosition { x: 0, y: 0, detected: false }
    }
}

/// The markers that count among the first `n` found, in the order found.
/// Marker `i` has id `ids[i]` and corners `corners[i]`; an id without
/// corners is passed over.
pub open spec fn valid_markers(
    ids: Seq<i32>,
    corners: Seq<Vec<Point>>,
    min_marker_size: int,
    n: int,
) -> Seq<MarkerModel>
    decreases n,
{
    if n <= 0 {
        Seq::empty()
    } else if n - 1 < corners.len() && marker_is_valid(corners[n - 1]@, min_marker_size) {
        valid_markers(ids, corners, min_marker_size, n - 1).push(
            marker_of(ids[n - 1], corners[n - 1]@),
        )
    } else {
        valid_markers(ids, corners, min_marker_size, n - 1)
    }
}

/// There is one square root rounded down.
pub proof fn floor_sqrt_is(n: int, root: int)
    requires
        is_floor_sqrt(n, root),
    ensures
        floor_sqrt(n) == root,
{
    let other = floor_sqrt(n);
    assert(is_floor_sqrt(n, other));
    if other < root {
        assert((other + 1) * (other + 1) <= root * root) by (nonlinear_arith)
            requires
                0 <= other + 1 <= root,
        ;
    } else if root < other {
        assert((root + 1) * (root + 1) <= other * other) by (nonlinear_arith)
            requires
                0 <= root + 1 <= other,
        ;
    }
}

/// Computes the square root of `n`, rounded down.
pub fn isqrt(n: u128) -> (root: u128)
    ensures
        root == floor_sqrt(n as int),
        is_floor_sqrt(n as int, root as int),
        root < 0x1_0000_0000_0000_0000,
{
    let mut low: u128 = 0;
    let mut high: u128 = 0x1_0000_0000_0000_0000;
    assert(high * high > n) by (nonlinear_arith)
        requires
            high == 0x1_0000_0000_0000_0000,
            n <= u128::MAX,
    ;
    while high - low > 1
        invariant
            low < high <= 0x1_0000_0000_0000_0000,
            low * low <= n < high * high,
        decreases high - low,
    {
        let middle: u128 = low + (high - low) / 2;
        assert(middle * middle <= 0xffff_ffff_ffff_ffff * 0xffff_ffff_ffff_ffff)
            by (nonlinear_arith)
            requires
                middle <= 0xffff_ffff_ffff_ffff,
        ;
        if middle * middle <= n {
            low = middle;
        } else {
            high = middle;
        }
    }
    proof {
        floor_sqrt_is(n as int, low as int);
    }
    low
}

/// The distance between two points within bounds, rounded down.
fn distance_between(a: Point, b: Point) -> (length: u128)
    requires
        in_bounds(a),
        in_bounds(b),
    ensures
        length == floor_sqrt(squared_distance(a, b)),
        length < 0x1_0000_0000_0000_0000,
{
    let dx: i128 = a.x as i128 - b.x as i128;
    let dy: i128 = a.y as i128 - b.y as i128;
    assert(0 <= dx * dx <= 0x8000_0000_0000_0000 * 0x8000_0000_0000_0000) by (nonlinear_arith)
        requires
            -0x8000_0000_0000_0000 <= dx <= 0x8000_0000_0000_0000,
    ;
    assert(0 <= dy * dy <= 0x8000_0000_0000_0000 * 0x8000_0000_0000_0000) by (nonlinear_arith)
        requires
            -0x8000_0000_0000_0000 <= dy <= 0x8000_0000_0000_0000,
    ;
    let squared: u128 = (dx * dx) as u128 + (dy * dy) as u128;
    isqrt(squared)
}

/// Tells whether a point is within bounds.
fn point_in_bounds(p: Point) -> (r: bool)
    ensures
        r == in_bounds(p),
{
    -MAX_COORDINATE <= p.x && p.x <= MAX_COORDINATE && -MAX_COORDINATE <= p.y && p.y
        <= MAX_COORDINATE
}

/// Tells whether a side of this length is near the mean side.
fn side_near_mean(length: u128, around: u128) -> (r: bool)
    requires
        length < 0x1_0000_0000_0000_0000,
        around < 0x4_0000_0000_0000_0000,
    ensures
        r == near_mean(length as int, around as int),
{
    let fourfold: u128 = 4 * length;
    let gap: u128 = if fourfold >= around {
        fourfold - around
    } else {
        around - fourfold
    };
    gap * 10 < 3 * around
}

/// Copies points into a vector of their own.
fn copy_points(points: &Vec<Point>) -> (copy: Vec<Point>)
    ensures
        copy@ == points@,
{
    let mut copy: Vec<Point> = Vec::new();
    let mut i: usize = 0;
    while i < points.len()
        invariant
            i <= points.len(),
            copy@ == points@.subrange(0, i as int),
        decreases points.len() - i,
    {
        copy.push(points[i]);
        i += 1;
        assert(copy@ =~= points@.subrange(0, i as int));
    }
    assert(points@.subrange(0, points.len() as int) =~= points@);
    copy
}

/// The mean of `count` coordinates that sum to `sum`, rounded down.
fn floor_mean(sum: i128, count: usize) -> (mean: i64)
    requires
        count > 0,
        -0x8000_0000_0000_0000 * count <= sum <= 0x7fff_ffff_ffff_ffff * count,
    ensures
        mean == sum as int / count as int,
{
    let mean: i128 = floor_div(sum, count as i128);
    proof {
        let n = count as int;
        vstd::arithmetic::div_mod::lemma_fundamental_div_mod(sum as int, n);
        vstd::arithmetic::div_mod::lemma_mod_bound(sum as int, n);
        assert(-0x8000_0000_0000_0000 <= mean <= 0x7fff_ffff_ffff_ffff) by (nonlinear_arith)
            requires
                n > 0,
                -0x8000_0000_0000_0000 * n <= sum <= 0x7fff_ffff_ffff_ffff * n,
                sum == n * mean + (sum as int % n),
                0 <= sum as int % n < n,
        ;
    }
    mean as i64
}

impl DetectedMarker {
    /// A marker with this id and these corners, its centre at their mean.
    pub fn new(id: i32, corners: Vec<Point>) -> (marker: Self)
        ensures
            marker@ == marker_of(id, corners@),
    {
        let count: usize = corners.len();
        if count == 0 {
            return DetectedMarker { id, corners, center: Point { x: 0, y: 0 } };
        }
        let mut total_x: i128 = 0;
        let mut total_y: i128 = 0;
        let mut i: usize = 0;
        while i < count
            invariant
                i <= count,
                count == corners.len(),
                total_x == sum_x(corners@, i as int),
                total_y == sum_y(corners@, i as int),
                -0x8000_0000_0000_0000 * i <= total_x <= 0x7fff_ffff_ffff_ffff * i,
                -0x8000_0000_0000_0000 * i <= total_y <= 0x7fff_ffff_ffff_ffff * i,
            decreases count - i,
        {
            let corner: Point = corners[i];
            total_x = total_x + corner.x as i128;
            total_y = total_y + corner.y as i128;
            i += 1;
        }
        let center = Point { x: floor_mean(total_x, count), y: floor_mean(total_y, count) };
        DetectedMarker { id, corners, center }
    }
}

/// Sorts found markers into those that count and finds marker 0 among them.
pub struct ArucoProcessor {
    min_marker_size: i64,
    last_position: NormalizedPosition,
}

/// What the processor holds.
pub struct ProcessorModel {
    /// The least perimeter of a marker that counts.
    pub min_marker_size: i64,
    /// The position that was calculated last.
    pub last_position: NormalizedPosition,
}

impl View for ArucoProcessor {
    type V = ProcessorModel;

    closed spec fn view(&self) -> ProcessorModel {
        ProcessorModel {
            min_marker_size: self.min_marker_size,
            last_position: self.last_position,
        }
    }
}

impl ArucoProcessor {
    /// A processor for markers of at least this perimeter that has not seen
    /// marker 0 yet.
    pub fn new(min_marker_size: i64) -> (processor: Self)
        ensures
            processor@ == (ProcessorModel {
                min_marker_size,
                last_position: NormalizedPosition { x: 0, y: 0, detected: false },
            }),
    {
        ArucoProcessor {
            min_marker_size,
            last_position: NormalizedPosition { x: 0, y: 0, detected: false },
        }
    }

    /// The position that was calculated last.
    pub fn last_position(&self) -> (position: NormalizedPosition)
        ensures
            position == self@.last_position,
    {
        self.last_position
    }

    /// Tells whether a marker counts: see [`marker_is_valid`].
    pub fn is_marker_valid(&self, marker: &DetectedMarker) -> (valid: bool)
        ensures
            valid == marker_is_valid(marker@.corners, self@.min_marker_size as int),
    {
        let corners = &marker.corners;
        if corners.len() != 4 {
            return false;
        }
        if !(point_in_bounds(corners[0]) && point_in_bounds(corners[1]) && point_in_bounds(
            corners[2],
        ) && point_in_bounds(corners[3])) {
            return false;
        }
        let first: u128 = distance_between(corners[0], corners[1]);
        let second: u128 = distance_between(corners[1], corners[2]);
        let third: u128 = distance_between(corners[2], corners[3]);
        let fourth: u128 = distance_between(corners[3], corners[0]);
        let around: u128 = first + second + third + fourth;
        assert(first == side(corners@, 0));
        assert(second == side(corners@, 1));
        assert(third == side(corners@, 2));
        assert(fourth == side(corners@, 3));
        assert(around == perimeter(corners@));
        if (around as i128) < self.min_marker_size as i128 {
            return false;
        }
        if around == 0 {
            return true;
        }
        side_near_mean(first, around) && side_near_mean(second, around) && side_near_mean(
            third,
            around,
        ) && side_near_mean(fourth, around)
    }

    /// Keeps, of the markers found, those that count. Marker `i` has id
    /// `ids[i]` and corners `corners[i]`.
    pub fn detect_markers(&self, ids: &[i32], corners: &[Vec<Point>]) -> (markers: Vec<
        DetectedMarker,
    >)
        ensures
            markers@.map_values(|marker: DetectedMarker| marker@) == valid_markers(
                ids@,
                corners@,
                self@.min_marker_size as int,
                ids.len() as int,
            ),
    {
        let mut markers: Vec<DetectedMarker> = Vec::new();
        let mut i: usize = 0;
        while i < ids.len()
            invariant
                i <= ids.len(),
                markers@.map_values(|marker: DetectedMarker| marker@) == valid_markers(
                    ids@,
                    corners@,
                    self@.min_marker_size as int,
                    i as int,
                ),
            decreases ids.len() - i,
        {
            let ghost before = markers@.map_values(|marker: DetectedMarker| marker@);
            if i < corners.len() {
                let marker = DetectedMarker::new(ids[i], copy_points(&corners[i]));
                if self.is_marker_valid(&marker) {
                    markers.push(marker);
                    assert(markers@.map_values(|marker: DetectedMarker| marker@) =~= before.push(
                        marker_of(ids@[i as int], corners@[i as int]@),
                    ));
                }
            }
            i += 1;
        }
        markers
    }

    /// Calculates where marker 0 lies in a frame of this size, and keeps the
    /// answer.
    pub fn calculate_marker0_position(
        &mut self,
        frame_width: i32,
        frame_height: i32,
        markers: &[DetectedMarker],
    ) -> (position: NormalizedPosition)
        requires
            frame_width > 0,
            frame_height > 0,
        ensures
            position == marker0_position(frame_width as int, frame_height as int, markers@),
            position.valid(),
            final(self)@ == (ProcessorModel { last_position: position, ..old(self)@ }),
    {
        let position = locate_marker0(frame_width, frame_height, markers);
        self.last_position = position;
        position
    }
}

/// Finds the first marker with id 0 and turns its centre into a position.
fn locate_marker0(frame_width: i32, frame_height: i32, markers: &[DetectedMarker]) -> (position:
    NormalizedPosition)
    requires
        frame_width > 0,
        frame_height > 0,
    ensures
        position == marker0_position(frame_width as int, frame_height as int, markers@),
        position.valid(),
{
    let mut i: usize = 0;
    assert(markers@.subrange(0, markers.len() as int) =~= markers@);
    while i < markers.len()
        invariant
            i <= markers.len(),
            frame_width > 0,
            frame_height > 0,
            first_marker0(markers@) == i + first_marker0(
                markers@.subrange(i as int, markers.len() as int),
            ),
        decreases markers.len() - i,
    {
        let ghost rest = markers@.subrange(i as int, markers.len() as int);
        assert(rest[0] == markers@[i as int]);
        if markers[i].id == 0 {
            let center: Point = markers[i].center;
            return NormalizedPosition {
                x: normalize(center.x, frame_width),
                y: normalize(center.y, frame_height),
                detected: true,
            };
        }
        assert(rest.drop_first() =~= markers@.subrange(i + 1, markers.len() as int));
        i += 1;
    }
    NormalizedPosition { x: 0, y: 0, detected: false }
}

/// Turns a pixel coordinate into a position: see [`normalized`].
pub fn normalize(coordinate: i64, extent: i32) -> (r: i64)
    requires
        extent > 0,
    ensures
        r == normalized(coordinate as int, extent as int),
        -ONE <= r <= ONE,
{
    let floor: i128 = floor_div(2 * (coordinate as i128), extent as i128);
    proof {
        let d = extent as int;
        vstd::arithmetic::div_mod::lemma_fundamental_div_mod(2 * coordinate, d);
        vstd::arithmetic::div_mod::lemma_mod_bound(2 * coordinate, d);
        assert(-0x1_0000_0000_0000_0000 <= floor <= 0x1_0000_0000_0000_0000) by (nonlinear_arith)
            requires
                d >= 1,
                -0x1_0000_0000_0000_0000 <= 2 * coordinate <= 0x1_0000_0000_0000_0000,
                2 * coordinate == d * floor + ((2 * coordinate) % d),
                0 <= (2 * coordinate) % d < d,
        ;
    }
    let shifted: i128 = floor - 1_000_000;
    if shifted < -1_000_000 {
        -ONE
    } else if shifted > 1_000_000 {
        ONE
    } else {
        shifted as i64
    }
}

} // verus!
