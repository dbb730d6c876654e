//! Rectangles in, plot points out.
//!
//! Coordinates are whole numbers. The mean that positions the separator
//! points is kept as an exact fraction, so no rounding enters the payload.
use vstd::prelude::*;

verus! {

/// A rectangle-like interval given by two corners.
#[derive(Clone, Copy, Debug, PartialEq, Eq)]
pub struct Record {
    pub x0: i64,
    pub y0: i64,
    pub x1: i64,
    pub y1: i64,
}

/// The exact value `num / den`.
#[derive(Clone, Copy, Debug, PartialEq, Eq)]
pub struct Frac {
    pub num: i128,
    pub den: u64,
}

/// A plot point; `y == None` marks a pen-up between two shapes.
#[derive(Clone, Copy, Debug, PartialEq, Eq)]
pub struct DisplayPoint {
    pub x: Frac,
    pub y: Option<i64>,
}

/// The ordered points sent to a plotting client.
#[derive(Debug)]
pub struct DisplayPayload {
    pub points: Vec<DisplayPoint>,
}

/// Sum of the `x0` coordinates of `rs`.
pub open spec fn sum_x0(rs: Seq<Record>) -> int
    decreases rs.len(),
{
    if rs.len() == 0 {
        0
    } else {
        sum_x0(rs.drop_last()) + rs.last().x0
    }
}

/// The point `(x, Some(y))` with a whole-number `x`.
pub open spec fn corner(x: i64, y: i64) -> DisplayPoint {
    DisplayPoint { x: Frac { num: x as i128, den: 1 }, y: Some(y) }
}

/// What position `k` of the payload for `rs` holds: each record gives its two
/// corners, and every record after the first is preceded by a separator at
/// the mean of all `x0`.
pub open spec fn is_point_of(rs: Seq<Record>, k: int, p: DisplayPoint) -> bool {
    if k % 3 == 0 {
        p == corner(rs[k / 3].x0, rs[k / 3].y0)
    } else if k % 3 == 1 {
        p == corner(rs[k / 3].x1, rs[k / 3].y1)
    } else {
        &&& p.x.num == sum_x0(rs)
        &&& p.x.den == rs.len()
        &&& p.y is None
    }
}

/// `pts` is the payload generated from the non-empty `rs`.
pub open spec fn is_display_of(rs: Seq<Record>, pts: Seq<DisplayPoint>) -> bool {
    &&& pts.len() == 3 * rs.len() - 1
    &&& forall|k: int| 0 <= k < pts.len() ==> #[trigger] is_point_of(rs, k, pts[k])
}

/// The sum of `n` values of `i64` lies within `n` times the type's range.
pub proof fn lemma_sum_x0_bounds(rs: Seq<Record>)
    ensures
        -(rs.len() * 0x8000_0000_0000_0000) <= sum_x0(rs) <= rs.len() * 0x7fff_ffff_ffff_ffff,
    decreases rs.len(),
{
    if rs.len() > 0 {
        lemma_sum_x0_bounds(rs.drop_last());
    }
}

fn corner_point(x: i64, y: i64) -> (p: DisplayPoint)
    ensures
        p == corner(x, y),
{
    DisplayPoint { x: Frac { num: x as i128, den: 1 }, y: Some(y) }
}

/// Builds the plot points for `objects`: for each record in order, a
/// separator at the mean `x0` (but before the first), then its two corners.
pub fn make_vega_data(objects: &[Record]) -> (r: DisplayPayload)
    requires
        objects@.len() > 0,
    ensures
        is_display_of(objects@, r.points@),
{
    let n = objects.len();
    let mut sum: i128 = 0;
    let mut i: usize = 0;
    while i < n
        invariant
            n == objects@.len(),
            i <= n,
            sum == sum_x0(objects@.take(i as int)),
        decreases n - i,
    {
        proof {
            let t = objects@.take(i as int + 1);
            assert(t.drop_last() =~= objects@.take(i as int));
            lemma_sum_x0_bounds(t);
        }
        sum = sum + objects[i].x0 as i128;
        i = i + 1;
    }
    assert(objects@.take(n as int) =~= objects@);
    let mean = Frac { num: sum, den: n as u64 };

    let mut points: Vec<DisplayPoint> = Vec::new();
    let mut j: usize = 0;
    while j < n
        invariant
            n == objects@.len(),
            j <= n,
            mean.num == sum_x0(objects@),
            mean.den == n,
            j == 0 ==> points@.len() == 0,
            j > 0 ==> points@.len() == 3 * j - 1,
            forall|k: int| 0 <= k < points@.len() ==> #[trigger] is_point_of(objects@, k, points@[k]),
        decreases n - j,
    {
        let o = objects[j];
        if j > 0 {
            assert((3 * j - 1) % 3 == 2) by (nonlinear_arith) requires j > 0;
            points.push(DisplayPoint { x: mean, y: None });
        }
        assert((3 * j) % 3 == 0 && (3 * j) / 3 == j) by (nonlinear_arith);
        assert((3 * j + 1) % 3 == 1 && (3 * j + 1) / 3 == j) by (nonlinear_arith);
        points.push(corner_point(o.x0, o.y0));
        points.push(corner_point(o.x1, o.y1));
        j = j + 1;
    }
    DisplayPayload { points }
}

/// Shape of every generated payload: `3n - 1` points for `n` records; the
/// pen-up points stand exactly at the positions `k` with `k % 3 == 2` (one
/// before each record after the first), and each of them lies at the exact
/// mean of all `x0` values.
pub proof fn lemma_display_shape(rs: Seq<Record>, pts: Seq<DisplayPoint>)
    requires
        rs.len() > 0,
        is_display_of(rs, pts),
    ensures
        pts.len() == 3 * rs.len() - 1,
        forall|k: int| 0 <= k < pts.len() ==> ((#[trigger] pts[k]).y is None <==> k % 3 == 2),
        forall|k: int|
            0 <= k < pts.len() && (#[trigger] pts[k]).y is None ==> pts[k].x.num == sum_x0(rs)
                && pts[k].x.den == rs.len(),
{
    assert forall|k: int| 0 <= k < pts.len() implies ((#[trigger] pts[k]).y is None <==> k % 3
        == 2) by {
        assert(is_point_of(rs, k, pts[k]));
    }
    assert forall|k: int| 0 <= k < pts.len() && (#[trigger] pts[k]).y is None implies pts[k].x.num
        == sum_x0(rs) && pts[k].x.den == rs.len() by {
        assert(is_point_of(rs, k, pts[k]));
    }
}

/// The three fixed records that a streaming session plots on every tick.
pub open spec fn demo_records_spec() -> Seq<Record> {
    seq![
        Record { x0: 200, y0: 223, x1: 210, y1: 233 },
        Record { x0: 300, y0: 323, x1: 310, y1: 333 },
        Record { x0: 100, y0: 123, x1: 110, y1: 133 },
    ]
}

/// The fixed demonstration input.
pub fn demo_records() -> (r: Vec<Record>)
    ensures
        r@ == demo_records_spec(),
{
    let r = vec![
        Record { x0: 200, y0: 223, x1: 210, y1: 233 },
        Record { x0: 300, y0: 323, x1: 310, y1: 333 },
        Record { x0: 100, y0: 123, x1: 110, y1: 133 },
    ];
    assert(r@ =~= demo_records_spec());
    r
}

/// The payload of the fixed demonstration input, point by point: the mean of
/// the `x0` values is `600 / 3`, that is 200.
pub proof fn lemma_demo_display(pts: Seq<DisplayPoint>)
    requires
        is_display_of(demo_records_spec(), pts),
    ensures
        pts =~= seq![
            corner(200, 223),
            corner(210, 233),
            DisplayPoint { x: Frac { num: 600, den: 3 }, y: None },
            corner(300, 323),
            corner(310, 333),
            DisplayPoint { x: Frac { num: 600, den: 3 }, y: None },
            corner(100, 123),
            corner(110, 133),
        ],
{
    let rs = demo_records_spec();
    assert(sum_x0(rs) == 600) by {
        reveal_with_fuel(sum_x0, 4);
    }
    assert(is_point_of(rs, 0, pts[0]));
    assert(is_point_of(rs, 1, pts[1]));
    assert(is_point_of(rs, 2, pts[2]));
    assert(is_point_of(rs, 3, pts[3]));
    assert(is_point_of(rs, 4, pts[4]));
    assert(is_point_of(rs, 5, pts[5]));
    assert(is_point_of(rs, 6, pts[6]));
    assert(is_point_of(rs, 7, pts[7]));
}

} // verus!
