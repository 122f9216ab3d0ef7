//! Pixel partitioner: a point set split into what fits single-byte
//! coordinates as it is and what fits them after an offset.

use vstd::prelude::*;
use crate::errors::ChipsError;
use crate::point::Point;

verus! {

/// One more than the largest value of a single-byte coordinate.
pub const WINDOW: i32 = 256;

/// The points of a list, as pairs of integers.
pub open spec fn point_models(points: Seq<Point>) -> Seq<(int, int)> {
    Seq::new(points.len(), |i: int| points[i]@)
}

/// A point is near when both its coordinates are below 256.
pub open spec fn is_near(p: (int, int)) -> bool {
    p.0 < WINDOW && p.1 < WINDOW
}

/// The test for near points.
pub open spec fn near_pred() -> spec_fn((int, int)) -> bool {
    |p: (int, int)| is_near(p)
}

/// The test for far points.
pub open spec fn far_pred() -> spec_fn((int, int)) -> bool {
    |p: (int, int)| !is_near(p)
}

/// The near points, in their order.
pub open spec fn near_points(points: Seq<(int, int)>) -> Seq<(int, int)> {
    points.filter(near_pred())
}

/// The far points, in their order.
pub open spec fn far_points(points: Seq<(int, int)>) -> Seq<(int, int)> {
    points.filter(far_pred())
}

/// The least x among the points; 0 where there is none.
pub open spec fn min_x(points: Seq<(int, int)>) -> int
    decreases points.len(),
{
    if points.len() == 0 {
        0
    } else if points.len() == 1 {
        points[0].0
    } else {
        let rest = min_x(points.drop_last());
        if points.last().0 < rest {
            points.last().0
        } else {
            rest
        }
    }
}

/// The least y among the points; 0 where there is none.
pub open spec fn min_y(points: Seq<(int, int)>) -> int
    decreases points.len(),
{
    if points.len() == 0 {
        0
    } else if points.len() == 1 {
        points[0].1
    } else {
        let rest = min_y(points.drop_last());
        if points.last().1 < rest {
            points.last().1
        } else {
            rest
        }
    }
}

/// Whether the points fit a 256 by 256 window anchored at their own least
/// x and least y.
pub open spec fn fits_window(points: Seq<(int, int)>) -> bool {
    forall|i: int|
        0 <= i < points.len() ==> (#[trigger] points[i]).0 - min_x(points) < WINDOW && points[i].1
            - min_y(points) < WINDOW
}

/// The coordinate bytes of a list of points relative to an offset: for each
/// point its x and then its y, each less the offset and cut to one byte.
pub open spec fn coordinate_bytes(points: Seq<(int, int)>, offset_x: int, offset_y: int) -> Seq<
    u8,
> {
    Seq::new(
        2 * points.len(),
        |j: int|
            if j % 2 == 0 {
                (points[j / 2].0 - offset_x) as u8
            } else {
                (points[j / 2].1 - offset_y) as u8
            },
    )
}

/// The point that byte pair `j` of a coordinate list stands for.
pub open spec fn decoded_point(bytes: Seq<u8>, offset_x: int, offset_y: int, j: int) -> (int, int)
    recommends
        0 <= j,
        2 * j + 1 < bytes.len(),
{
    (bytes[2 * j] + offset_x, bytes[2 * j + 1] + offset_y)
}

/// The least x is attained by a point and no point lies left of it.
pub proof fn lemma_min_x(points: Seq<(int, int)>)
    requires
        points.len() > 0,
    ensures
        forall|i: int| 0 <= i < points.len() ==> min_x(points) <= (#[trigger] points[i]).0,
        exists|i: int| 0 <= i < points.len() && (#[trigger] points[i]).0 == min_x(points),
    decreases points.len(),
{
    if points.len() == 1 {
        assert(points[0].0 == min_x(points));
    } else {
        let rest = points.drop_last();
        lemma_min_x(rest);
        let w = choose|i: int| 0 <= i < rest.len() && (#[trigger] rest[i]).0 == min_x(rest);
        assert(rest[w] == points[w]);
        assert forall|i: int| 0 <= i < points.len() implies min_x(points) <= (
        #[trigger] points[i]).0 by {
            if i < rest.len() {
                assert(rest[i] == points[i]);
            }
        }
        if points.last().0 < min_x(rest) {
            assert(points[points.len() - 1].0 == min_x(points));
        } else {
            assert(points[w].0 == min_x(points));
        }
    }
}

/// The least y is attained by a point and no point lies above it.
pub proof fn lemma_min_y(points: Seq<(int, int)>)
    requires
        points.len() > 0,
    ensures
        forall|i: int| 0 <= i < points.len() ==> min_y(points) <= (#[trigger] points[i]).1,
        exists|i: int| 0 <= i < points.len() && (#[trigger] points[i]).1 == min_y(points),
    decreases points.len(),
{
    if points.len() == 1 {
        assert(points[0].1 == min_y(points));
    } else {
        let rest = points.drop_last();
        lemma_min_y(rest);
        let w = choose|i: int| 0 <= i < rest.len() && (#[trigger] rest[i]).1 == min_y(rest);
        assert(rest[w] == points[w]);
        assert forall|i: int| 0 <= i < points.len() implies min_y(points) <= (
        #[trigger] points[i]).1 by {
            if i < rest.len() {
                assert(rest[i] == points[i]);
            }
        }
        if points.last().1 < min_y(rest) {
            assert(points[points.len() - 1].1 == min_y(points));
        } else {
            assert(points[w].1 == min_y(points));
        }
    }
}

proof fn lemma_coordinate_bytes_push(
    points: Seq<(int, int)>,
    p: (int, int),
    offset_x: int,
    offset_y: int,
)
    ensures
        coordinate_bytes(points.push(p), offset_x, offset_y) == coordinate_bytes(
            points,
            offset_x,
            offset_y,
        ).push((p.0 - offset_x) as u8).push((p.1 - offset_y) as u8),
{
    assert(coordinate_bytes(points.push(p), offset_x, offset_y) =~= coordinate_bytes(
        points,
        offset_x,
        offset_y,
    ).push((p.0 - offset_x) as u8).push((p.1 - offset_y) as u8));
}

/// Splits a point list: the coordinate bytes of its near points, with no
/// offset, and its far points, both in the order of the list.
pub fn split_points(points: &[Point]) -> (parts: (Vec<u8>, Vec<Point>))
    ensures
        parts.0@ == coordinate_bytes(near_points(point_models(points@)), 0, 0),
        point_models(parts.1@) == far_points(point_models(points@)),
{
    let ghost models = point_models(points@);
    let mut near: Vec<u8> = Vec::new();
    let mut far: Vec<Point> = Vec::new();
    let mut i: usize = 0;
    proof {
        reveal(Seq::filter);
        assert(models.take(0) =~= Seq::<(int, int)>::empty());
        assert(near@ =~= coordinate_bytes(near_points(models.take(0)), 0, 0));
        assert(point_models(far@) =~= far_points(models.take(0)));
    }
    while i < points.len()
        invariant
            i <= points@.len(),
            models == point_models(points@),
            near@ == coordinate_bytes(near_points(models.take(i as int)), 0, 0),
            point_models(far@) == far_points(models.take(i as int)),
        decreases points@.len() - i,
    {
        let x = points[i].x();
        let y = points[i].y();
        let ghost p = models[i as int];
        let ghost seen = models.take(i as int);
        proof {
            assert(models.take(i + 1) =~= seen.push(p));
            seen.lemma_filter_push(p, near_pred());
            seen.lemma_filter_push(p, far_pred());
        }
        if x < WINDOW && y < WINDOW {
            proof {
                lemma_coordinate_bytes_push(near_points(seen), p, 0, 0);
            }
            near.push(#[verifier::truncate] (x as u8));
            near.push(#[verifier::truncate] (y as u8));
        } else {
            let ghost before = far@;
            far.push(Point::new(x, y));
            assert(point_models(far@) =~= point_models(before).push(p));
        }
        i = i + 1;
    }
    assert(models.take(points@.len() as int) =~= models);
    (near, far)
}

/// The far points ready to send: their offset and their coordinate bytes
/// relative to it.
#[derive(Debug, Clone)]
pub struct FarPixels {
    pub offset_x: i32,
    pub offset_y: i32,
    pub coordinates: Vec<u8>,
}

/// Anchors a list of points at its least x and least y and encodes it
/// relative to that offset. Fails where a point is then still 256 or more
/// away in x or in y.
pub fn encode_far(far: &[Point]) -> (result: Result<FarPixels, ChipsError>)
    ensures
        !fits_window(point_models(far@)) <==> result == Err::<FarPixels, ChipsError>(
            ChipsError::BoundsTooLarge,
        ),
        fits_window(point_models(far@)) ==> result is Ok && result->Ok_0.offset_x == min_x(
            point_models(far@),
        ) && result->Ok_0.offset_y == min_y(point_models(far@)) && result->Ok_0.coordinates@
            == coordinate_bytes(
            point_models(far@),
            min_x(point_models(far@)),
            min_y(point_models(far@)),
        ),
{
    let ghost models = point_models(far@);
    let n = far.len();
    if n == 0 {
        let coordinates: Vec<u8> = Vec::new();
        assert(coordinates@ =~= coordinate_bytes(models, 0, 0));
        return Ok(FarPixels { offset_x: 0, offset_y: 0, coordinates });
    }
    let mut offset_x: i32 = far[0].x();
    let mut offset_y: i32 = far[0].y();
    let mut i: usize = 1;
    assert(models.take(1).len() == 1);
    while i < n
        invariant
            1 <= i <= n,
            n == far@.len(),
            models == point_models(far@),
            offset_x == min_x(models.take(i as int)),
            offset_y == min_y(models.take(i as int)),
        decreases n - i,
    {
        let x = far[i].x();
        let y = far[i].y();
        proof {
            assert(models.take(i + 1).drop_last() =~= models.take(i as int));
        }
        if x < offset_x {
            offset_x = x;
        }
        if y < offset_y {
            offset_y = y;
        }
        i = i + 1;
    }
    proof {
        assert(models.take(n as int) =~= models);
        lemma_min_x(models);
        lemma_min_y(models);
    }
    let mut coordinates: Vec<u8> = Vec::new();
    let mut j: usize = 0;
    assert(coordinates@ =~= coordinate_bytes(models.take(0), offset_x as int, offset_y as int));
    while j < n
        invariant
            j <= n,
            n == far@.len(),
            models == point_models(far@),
            offset_x == min_x(models),
            offset_y == min_y(models),
            forall|k: int| 0 <= k < models.len() ==> min_x(models) <= (#[trigger] models[k]).0,
            forall|k: int| 0 <= k < models.len() ==> min_y(models) <= (#[trigger] models[k]).1,
            forall|k: int|
                0 <= k < j ==> (#[trigger] models[k]).0 - min_x(models) < WINDOW && models[k].1
                    - min_y(models) < WINDOW,
            coordinates@ == coordinate_bytes(
                models.take(j as int),
                offset_x as int,
                offset_y as int,
            ),
        decreases n - j,
    {
        let dx: i64 = far[j].x() as i64 - offset_x as i64;
        let dy: i64 = far[j].y() as i64 - offset_y as i64;
        assert(dx == models[j as int].0 - min_x(models));
        assert(dy == models[j as int].1 - min_y(models));
        if dx > 255 || dy > 255 {
            return Err(ChipsError::BoundsTooLarge);
        }
        proof {
            assert(models.take(j + 1) =~= models.take(j as int).push(models[j as int]));
            lemma_coordinate_bytes_push(
                models.take(j as int),
                models[j as int],
                offset_x as int,
                offset_y as int,
            );
        }
        coordinates.push(dx as u8);
        coordinates.push(dy as u8);
        j = j + 1;
    }
    assert(models.take(n as int) =~= models);
    Ok(FarPixels { offset_x, offset_y, coordinates })
}

/// Every point of a list is in exactly one of its two subsets: the near and
/// the far points together are the list's points, each as often as the list
/// holds it, every near point is near and every far point is not.
pub proof fn lemma_partition_is_exact(points: Seq<(int, int)>)
    ensures
        near_points(points).to_multiset().add(far_points(points).to_multiset())
            == points.to_multiset(),
        near_points(points).len() + far_points(points).len() == points.len(),
        forall|i: int|
            0 <= i < near_points(points).len() ==> is_near(#[trigger] near_points(points)[i]),
        forall|i: int|
            0 <= i < far_points(points).len() ==> !is_near(#[trigger] far_points(points)[i]),
    decreases points.len(),
{
    broadcast use vstd::seq_lib::to_multiset_build, vstd::seq_lib::to_multiset_len;
    broadcast use vstd::multiset::group_multiset_axioms;

    assert forall|i: int| 0 <= i < near_points(points).len() implies is_near(
        #[trigger] near_points(points)[i],
    ) by {
        points.lemma_filter_pred(near_pred(), i);
    }
    assert forall|i: int| 0 <= i < far_points(points).len() implies !is_near(
        #[trigger] far_points(points)[i],
    ) by {
        points.lemma_filter_pred(far_pred(), i);
    }
    if points.len() == 0 {
        reveal(Seq::filter);
        assert(near_points(points) =~= points);
        assert(far_points(points) =~= points);
        assert(points.to_multiset().len() == 0);
        assert(points.to_multiset() =~= vstd::multiset::Multiset::<(int, int)>::empty());
        assert(points.to_multiset().add(points.to_multiset()) =~= points.to_multiset());
    } else {
        let rest = points.drop_last();
        let last = points.last();
        lemma_partition_is_exact(rest);
        assert(points =~= rest.push(last));
        rest.lemma_filter_push(last, near_pred());
        rest.lemma_filter_push(last, far_pred());
        if is_near(last) {
            assert(near_points(rest).push(last).to_multiset().add(far_points(rest).to_multiset())
                =~= near_points(rest).to_multiset().add(far_points(rest).to_multiset()).insert(
                last,
            ));
        } else {
            assert(near_points(rest).to_multiset().add(far_points(rest).push(last).to_multiset())
                =~= near_points(rest).to_multiset().add(far_points(rest).to_multiset()).insert(
                last,
            ));
        }
    }
}

/// Byte pair `j` of the near points' coordinate bytes stands for near point
/// `j`, which is a point of the list, provided that the point has no negative
/// coordinate: a negative one is cut to its low eight bits.
pub proof fn lemma_near_bytes_decode(points: Seq<(int, int)>, j: int)
    requires
        0 <= j < near_points(points).len(),
        0 <= near_points(points)[j].0,
        0 <= near_points(points)[j].1,
    ensures
        decoded_point(coordinate_bytes(near_points(points), 0, 0), 0, 0, j) == near_points(
            points,
        )[j],
        points.contains(near_points(points)[j]),
{
    let near = near_points(points);
    points.lemma_filter_pred(near_pred(), j);
    assert(near.contains(near[j]));
    points.lemma_filter_contains_rev(near_pred(), near[j]);
    let bytes = coordinate_bytes(near, 0, 0);
    assert(bytes[2 * j] == (near[(2 * j) / 2].0 - 0) as u8);
    assert(bytes[2 * j + 1] == (near[(2 * j + 1) / 2].1 - 0) as u8);
}

/// Where the far points fit their window, byte pair `j` of their coordinate
/// bytes, with the offset added back, is far point `j`, which is a point of
/// the list.
pub proof fn lemma_far_bytes_decode(points: Seq<(int, int)>, j: int)
    requires
        fits_window(far_points(points)),
        0 <= j < far_points(points).len(),
    ensures
        decoded_point(
            coordinate_bytes(
                far_points(points),
                min_x(far_points(points)),
                min_y(far_points(points)),
            ),
            min_x(far_points(points)),
            min_y(far_points(points)),
            j,
        ) == far_points(points)[j],
        points.contains(far_points(points)[j]),
{
    let far = far_points(points);
    assert(far.contains(far[j]));
    points.lemma_filter_contains_rev(far_pred(), far[j]);
    lemma_min_x(far);
    lemma_min_y(far);
    let bytes = coordinate_bytes(far, min_x(far), min_y(far));
    assert(bytes[2 * j] == (far[(2 * j) / 2].0 - min_x(far)) as u8);
    assert(bytes[2 * j + 1] == (far[(2 * j + 1) / 2].1 - min_y(far)) as u8);
}

/// Points fit their window exactly when no two of them are more than 255
/// apart in x or in y: a span of 255 fits, a span of 256 does not.
pub proof fn lemma_window_is_span(points: Seq<(int, int)>)
    ensures
        fits_window(points) <==> forall|i: int, j: int|
            0 <= i < points.len() && 0 <= j < points.len() ==> (#[trigger] points[i]).0 - (
            #[trigger] points[j]).0 < WINDOW && points[i].1 - points[j].1 < WINDOW,
{
    if points.len() > 0 {
        lemma_min_x(points);
        lemma_min_y(points);
        let wx = choose|i: int| 0 <= i < points.len() && (#[trigger] points[i]).0 == min_x(points);
        let wy = choose|i: int| 0 <= i < points.len() && (#[trigger] points[i]).1 == min_y(points);
        if forall|i: int, j: int|
            0 <= i < points.len() && 0 <= j < points.len() ==> (#[trigger] points[i]).0 - (
            #[trigger] points[j]).0 < WINDOW && points[i].1 - points[j].1 < WINDOW {
            assert forall|i: int| 0 <= i < points.len() implies (#[trigger] points[i]).0 - min_x(
                points,
            ) < WINDOW && points[i].1 - min_y(points) < WINDOW by {
                assert(points[i].0 - points[wx].0 < WINDOW);
                assert(points[i].1 - points[wy].1 < WINDOW);
            }
        }
    }
}

} // verus!
