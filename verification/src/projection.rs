//! Where a target is seen: which part of it is visible, or why none is.
//!
//! Coordinates are the bits of singles. What the application computes (corners, projections,
//! viewports) comes in as facts; what follows from them is decided here.
use crate::commands::Point;
use crate::reals;
use crate::reals::{at_most_single, equal_single, is_finite_single, is_nan_single, less_single};
use vstd::prelude::*;

verus! {

/// A rectangle by two opposite corners.
#[derive(Clone, Copy, Debug, PartialEq, Eq, Structural)]
pub struct Rectangle {
    /// The upper left corner.
    pub min: Point,
    /// The lower right corner.
    pub max: Point,
}

/// The lesser of two singles; the second where they cannot be told apart.
pub open spec fn lesser(a: u32, b: u32) -> u32 {
    if reals::single_less(a, b) {
        a
    } else {
        b
    }
}

/// The greater of two singles; the second where they cannot be told apart.
pub open spec fn greater(a: u32, b: u32) -> u32 {
    if reals::single_less(b, a) {
        a
    } else {
        b
    }
}

/// The upper left corner of two points.
pub open spec fn point_min(p: Point, q: Point) -> Point {
    Point { x: lesser(p.x, q.x), y: lesser(p.y, q.y) }
}

/// The lower right corner of two points.
pub open spec fn point_max(p: Point, q: Point) -> Point {
    Point { x: greater(p.x, q.x), y: greater(p.y, q.y) }
}

fn min_point(p: Point, q: Point) -> (r: Point)
    ensures
        r == point_min(p, q),
{
    Point {
        x: if less_single(p.x, q.x) {
            p.x
        } else {
            q.x
        },
        y: if less_single(p.y, q.y) {
            p.y
        } else {
            q.y
        },
    }
}

fn max_point(p: Point, q: Point) -> (r: Point)
    ensures
        r == point_max(p, q),
{
    Point {
        x: if less_single(q.x, p.x) {
            p.x
        } else {
            q.x
        },
        y: if less_single(q.y, p.y) {
            p.y
        } else {
            q.y
        },
    }
}

/// The lesser of two singles, where one that is no number gives way to the other.
pub open spec fn lower(a: u32, b: u32) -> u32 {
    if reals::single_nan(a) {
        b
    } else if reals::single_less(b, a) {
        b
    } else {
        a
    }
}

/// The greater of two singles, where one that is no number gives way to the other.
pub open spec fn upper(a: u32, b: u32) -> u32 {
    if reals::single_nan(a) {
        b
    } else if reals::single_less(a, b) {
        b
    } else {
        a
    }
}

/// The rectangle between two opposite corners.
pub open spec fn between(p: Point, q: Point) -> Rectangle {
    Rectangle {
        min: Point { x: lower(p.x, q.x), y: lower(p.y, q.y) },
        max: Point { x: upper(p.x, q.x), y: upper(p.y, q.y) },
    }
}

fn lower_of(a: u32, b: u32) -> (r: u32)
    ensures
        r == lower(a, b),
{
    if is_nan_single(a) {
        b
    } else if less_single(b, a) {
        b
    } else {
        a
    }
}

fn upper_of(a: u32, b: u32) -> (r: u32)
    ensures
        r == upper(a, b),
{
    if is_nan_single(a) {
        b
    } else if less_single(a, b) {
        b
    } else {
        a
    }
}

/// The least corner of the first `n` points.
pub open spec fn least_corner(points: Seq<Point>, n: int) -> Point
    decreases n,
{
    if n <= 1 {
        points[0]
    } else {
        point_min(least_corner(points, n - 1), points[n - 1])
    }
}

/// The greatest corner of the first `n` points.
pub open spec fn greatest_corner(points: Seq<Point>, n: int) -> Point
    decreases n,
{
    if n <= 1 {
        points[0]
    } else {
        point_max(greatest_corner(points, n - 1), points[n - 1])
    }
}

/// The rectangle around some points.
pub open spec fn around(points: Seq<Point>) -> Rectangle {
    between(
        least_corner(points, points.len() as int),
        greatest_corner(points, points.len() as int),
    )
}

/// Finds the rectangle around some points.
pub fn points_rect(points: &Vec<Point>) -> (r: Rectangle)
    requires
        points@.len() > 0,
    ensures
        r == around(points@),
{
    let mut min = points[0];
    let mut max = points[0];
    let mut i: usize = 1;
    while i < points.len()
        invariant
            1 <= i <= points@.len(),
            min == least_corner(points@, i as int),
            max == greatest_corner(points@, i as int),
        decreases points@.len() - i,
    {
        min = min_point(min, points[i]);
        max = max_point(max, points[i]);
        i = i + 1;
    }
    Rectangle {
        min: Point { x: lower_of(min.x, max.x), y: lower_of(min.y, max.y) },
        max: Point { x: upper_of(min.x, max.x), y: upper_of(min.y, max.y) },
    }
}

/// What two rectangles have in common, where that has an inside.
pub open spec fn common(a: Rectangle, b: Rectangle) -> Option<Rectangle> {
    let r = Rectangle { min: point_max(a.min, b.min), max: point_min(a.max, b.max) };
    if reals::single_less(r.min.x, r.max.x) && reals::single_less(r.min.y, r.max.y) {
        Some(r)
    } else {
        None
    }
}

/// Finds what two rectangles have in common.
pub fn intersect_rect(a: Rectangle, b: Rectangle) -> (r: Option<Rectangle>)
    ensures
        r == common(a, b),
{
    let min = max_point(a.min, b.min);
    let max = min_point(a.max, b.max);
    if less_single(min.x, max.x) && less_single(min.y, max.y) {
        Some(Rectangle { min, max })
    } else {
        None
    }
}

/// The point lies in the rectangle or on its edge.
pub open spec fn holds(r: Rectangle, p: Point) -> bool {
    reals::single_at_most(r.min.x, p.x) && reals::single_at_most(p.x, r.max.x)
        && reals::single_at_most(r.min.y, p.y) && reals::single_at_most(p.y, r.max.y)
}

fn contains_point(r: Rectangle, p: Point) -> (b: bool)
    ensures
        b == holds(r, p),
{
    at_most_single(r.min.x, p.x) && at_most_single(p.x, r.max.x) && at_most_single(r.min.y, p.y)
        && at_most_single(p.y, r.max.y)
}

/// The rectangles have the same corners.
pub open spec fn same_rectangle(a: Rectangle, b: Rectangle) -> bool {
    reals::single_equal(a.min.x, b.min.x) && reals::single_equal(a.min.y, b.min.y)
        && reals::single_equal(a.max.x, b.max.x) && reals::single_equal(a.max.y, b.max.y)
}

fn equal_rectangles(a: Rectangle, b: Rectangle) -> (r: bool)
    ensures
        r == same_rectangle(a, b),
{
    equal_single(a.min.x, b.min.x) && equal_single(a.min.y, b.min.y) && equal_single(
        a.max.x,
        b.max.x,
    ) && equal_single(a.max.y, b.max.y)
}

/// The part of a target that is seen.
#[derive(Clone, Copy, Debug, PartialEq, Eq, Structural)]
pub struct Outline {
    /// The part.
    pub visible: Rectangle,
    /// Whether it is less than the whole.
    pub clipped: bool,
}

/// Why a target is not shown, if it is not: whether it is visible is told by its inherited
/// visibility.
pub open spec fn visibility_objection(visible: Option<bool>) -> Option<&'static str> {
    match visible {
        Some(true) => None,
        Some(false) => Some("hidden"),
        None => Some("missing_inherited_visibility"),
    }
}

/// Checks that a target is shown.
pub fn require_visible(visible: Option<bool>) -> (r: Result<(), &'static str>)
    ensures
        match visibility_objection(visible) {
            None => r is Ok,
            Some(reason) => r == Err::<(), &'static str>(reason),
        },
{
    match visible {
        Some(true) => Ok(()),
        Some(false) => Err("hidden"),
        None => Err("missing_inherited_visibility"),
    }
}

/// What is known of a node of the user interface.
pub struct UiFacts {
    /// The size of the node, where it was computed.
    pub size: Option<Point>,
    /// Its inherited visibility.
    pub visible: Option<bool>,
    /// Whether it has a transform.
    pub has_transform: bool,
    /// Whether the camera that draws it is the one that is asked for, where one draws it.
    pub camera_matches: Option<bool>,
    /// Whether the camera is there.
    pub has_camera: bool,
    /// Whether the window is there.
    pub has_window: bool,
    /// The part of the window that the camera fills, in pixels.
    pub viewport: Option<Rectangle>,
    /// The four corners of the node in pixels, where transform and viewport are there.
    pub corners: Vec<Point>,
    /// What the node is cut off at.
    pub clip: Option<Rectangle>,
    /// How many logical units a pixel has.
    pub inverse_scale: u32,
}

/// A size that is finite and above zero.
pub open spec fn proper_size(size: Point) -> bool {
    reals::single_finite(size.x) && reals::single_finite(size.y) && reals::single_less(0, size.x)
        && reals::single_less(0, size.y)
}

/// Some point is not finite.
pub open spec fn some_infinite(points: Seq<Point>) -> bool {
    exists|i: int|
        0 <= i < points.len() && !(reals::single_finite((#[trigger] points[i]).x)
            && reals::single_finite(points[i].y))
}

fn any_infinite(points: &Vec<Point>) -> (r: bool)
    ensures
        r == some_infinite(points@),
{
    let mut i: usize = 0;
    while i < points.len()
        invariant
            i <= points@.len(),
            forall|k: int|
                0 <= k < i ==> reals::single_finite((#[trigger] points@[k]).x)
                    && reals::single_finite(points@[k].y),
        decreases points@.len() - i,
    {
        if !is_finite_single(points[i].x) || !is_finite_single(points[i].y) {
            assert(!(reals::single_finite(points@[i as int].x) && reals::single_finite(
                points@[i as int].y,
            )));
            return true;
        }
        i = i + 1;
    }
    false
}

/// The part of a node that is seen in pixels, before the size of a pixel is looked at.
pub open spec fn ui_part(f: UiFacts, viewport: Rectangle) -> Option<Rectangle> {
    match common(around(f.corners@), viewport) {
        None => None,
        Some(part) => match f.clip {
            None => Some(part),
            Some(clip) => common(part, clip),
        },
    }
}

/// The part of a node that is seen in pixels, or why none is.
pub open spec fn ui_seen(f: UiFacts) -> Result<Outline, &'static str> {
    if f.size is None {
        Err("missing_computed_node")
    } else if !proper_size(f.size->Some_0) {
        Err("empty_computed_node")
    } else if visibility_objection(f.visible) is Some {
        Err(visibility_objection(f.visible)->Some_0)
    } else if !f.has_transform {
        Err("missing_ui_global_transform")
    } else if f.camera_matches is None {
        Err("missing_ui_target_camera")
    } else if f.camera_matches == Some(false) {
        Err("ui_camera_mismatch")
    } else if !f.has_camera {
        Err("camera_component_missing")
    } else if !f.has_window {
        Err("primary_window_missing")
    } else if f.viewport is None {
        Err("empty_camera_viewport")
    } else if some_infinite(f.corners@) {
        Err("invalid_ui_transform")
    } else {
        match ui_part(f, f.viewport->Some_0) {
            None => Err("fully_clipped"),
            Some(visible) => if !reals::single_finite(f.inverse_scale) || !reals::single_less(
                0,
                f.inverse_scale,
            ) {
                Err("invalid_ui_scale_factor")
            } else {
                Ok(
                    Outline {
                        visible,
                        clipped: !same_rectangle(around(f.corners@), visible),
                    },
                )
            },
        }
    }
}

/// Finds the part of a node of the user interface that is seen, in pixels.
pub fn project_ui(f: &UiFacts) -> (r: Result<Outline, &'static str>)
    requires
        f.corners@.len() == 4,
    ensures
        r == ui_seen(*f),
{
    let size = match f.size {
        Some(size) => size,
        None => return Err("missing_computed_node"),
    };
    if !(is_finite_single(size.x) && is_finite_single(size.y) && less_single(0, size.x)
        && less_single(0, size.y)) {
        return Err("empty_computed_node");
    }
    match require_visible(f.visible) {
        Ok(()) => {},
        Err(reason) => return Err(reason),
    }
    if !f.has_transform {
        return Err("missing_ui_global_transform");
    }
    match f.camera_matches {
        None => return Err("missing_ui_target_camera"),
        Some(matches) => if !matches {
            return Err("ui_camera_mismatch");
        },
    }
    if !f.has_camera {
        return Err("camera_component_missing");
    }
    if !f.has_window {
        return Err("primary_window_missing");
    }
    let viewport = match f.viewport {
        Some(viewport) => viewport,
        None => return Err("empty_camera_viewport"),
    };
    if any_infinite(&f.corners) {
        return Err("invalid_ui_transform");
    }
    let raw = points_rect(&f.corners);
    let part = match intersect_rect(raw, viewport) {
        Some(part) => part,
        None => return Err("fully_clipped"),
    };
    let visible = match f.clip {
        None => part,
        Some(clip) => match intersect_rect(part, clip) {
            Some(visible) => visible,
            None => return Err("fully_clipped"),
        },
    };
    if !is_finite_single(f.inverse_scale) || !less_single(0, f.inverse_scale) {
        return Err("invalid_ui_scale_factor");
    }
    Ok(Outline { visible, clipped: !equal_rectangles(raw, visible) })
}

/// What is known of an entity of the world.
pub struct WorldFacts {
    /// Its inherited visibility.
    pub visible: Option<bool>,
    /// Whether it has a transform.
    pub has_transform: bool,
    /// Whether the camera is there.
    pub has_camera: bool,
    /// Whether the camera has a transform.
    pub has_camera_transform: bool,
    /// Whether the window is there.
    pub has_window: bool,
    /// The part of the window that the camera fills, in logical units.
    pub viewport: Option<Rectangle>,
    /// The middle of the entity in logical units, where it could be projected.
    pub center: Option<Point>,
    /// The corners of the box around the entity, where it has one: each in logical units, where it
    /// could be projected.
    pub corners: Option<Vec<Option<Point>>>,
}

/// Where an entity of the world is seen.
#[derive(Clone, Copy, Debug, PartialEq, Eq, Structural)]
pub enum WorldSight {
    /// Its middle is seen; how far it reaches is not known.
    Center {
        /// The middle.
        at: Point,
        /// Whether it has a box of which some corner could not be projected.
        clipped: bool,
    },
    /// A part of it is seen.
    Part(Outline),
}

/// The corners that could be projected, among the first `n`.
pub open spec fn projected(corners: Seq<Option<Point>>, n: int) -> Seq<Point>
    decreases n,
{
    if n <= 0 {
        Seq::empty()
    } else {
        match corners[n - 1] {
            Some(p) => projected(corners, n - 1).push(p),
            None => projected(corners, n - 1),
        }
    }
}

/// An entity of which only the middle is known.
pub open spec fn center_seen(viewport: Rectangle, at: Point, clipped: bool) -> Result<
    WorldSight,
    &'static str,
> {
    if holds(viewport, at) {
        Ok(WorldSight::Center { at, clipped })
    } else {
        Err("fully_clipped")
    }
}

/// Where an entity of the world is seen, or why it is not.
pub open spec fn world_seen(f: WorldFacts) -> Result<WorldSight, &'static str> {
    if visibility_objection(f.visible) is Some {
        Err(visibility_objection(f.visible)->Some_0)
    } else if !f.has_transform {
        Err("missing_global_transform")
    } else if !f.has_camera {
        Err("camera_component_missing")
    } else if !f.has_camera_transform {
        Err("camera_transform_missing")
    } else if !f.has_window {
        Err("primary_window_missing")
    } else if f.viewport is None {
        Err("empty_camera_viewport")
    } else if f.center is None {
        Err("center_projection_failed")
    } else {
        let viewport = f.viewport->Some_0;
        match f.corners {
            None => center_seen(viewport, f.center->Some_0, false),
            Some(corners) => {
                let points = projected(corners@, corners@.len() as int);
                if points.len() != corners@.len() {
                    center_seen(viewport, f.center->Some_0, true)
                } else {
                    match common(around(points), viewport) {
                        None => Err("fully_clipped"),
                        Some(visible) => Ok(
                            WorldSight::Part(
                                Outline {
                                    visible,
                                    clipped: !same_rectangle(around(points), visible),
                                },
                            ),
                        ),
                    }
                }
            },
        }
    }
}

fn look_at_center(viewport: Rectangle, at: Point, clipped: bool) -> (r: Result<
    WorldSight,
    &'static str,
>)
    ensures
        r == center_seen(viewport, at, clipped),
{
    if contains_point(viewport, at) {
        Ok(WorldSight::Center { at, clipped })
    } else {
        Err("fully_clipped")
    }
}

/// Finds where an entity of the world is seen, in logical units.
pub fn project_world(f: &WorldFacts) -> (r: Result<WorldSight, &'static str>)
    requires
        f.corners matches Some(corners) ==> corners@.len() == 8,
    ensures
        r == world_seen(*f),
{
    match require_visible(f.visible) {
        Ok(()) => {},
        Err(reason) => return Err(reason),
    }
    if !f.has_transform {
        return Err("missing_global_transform");
    }
    if !f.has_camera {
        return Err("camera_component_missing");
    }
    if !f.has_camera_transform {
        return Err("camera_transform_missing");
    }
    if !f.has_window {
        return Err("primary_window_missing");
    }
    let viewport = match f.viewport {
        Some(viewport) => viewport,
        None => return Err("empty_camera_viewport"),
    };
    let center = match f.center {
        Some(center) => center,
        None => return Err("center_projection_failed"),
    };
    let corners = match &f.corners {
        None => return look_at_center(viewport, center, false),
        Some(corners) => corners,
    };
    let mut points: Vec<Point> = Vec::new();
    let mut i: usize = 0;
    while i < corners.len()
        invariant
            i <= corners@.len(),
            points@ == projected(corners@, i as int),
            points@.len() <= i,
        decreases corners@.len() - i,
    {
        if let Some(p) = corners[i] {
            points.push(p);
        }
        i = i + 1;
    }
    if points.len() != corners.len() {
        return look_at_center(viewport, center, true);
    }
    let raw = points_rect(&points);
    match intersect_rect(raw, viewport) {
        None => Err("fully_clipped"),
        Some(visible) => Ok(
            WorldSight::Part(Outline { visible, clipped: !equal_rectangles(raw, visible) }),
        ),
    }
}

/// A rectangle whose corners are numbers.
pub open spec fn numbered(r: Rectangle) -> bool {
    !reals::single_nan(r.min.x) && !reals::single_nan(r.min.y) && !reals::single_nan(r.max.x)
        && !reals::single_nan(r.max.y)
}

/// Law: what two rectangles have in common lies in both, and does not depend on which comes first
/// but for the sign of a zero.
pub proof fn law_common_part_is_inside(a: Rectangle, b: Rectangle, p: Point)
    requires
        numbered(a),
        numbered(b),
    ensures
        common(a, b) matches Some(r) ==> (holds(r, p) <==> holds(a, p) && holds(b, p)),
        common(a, b) is Some <==> common(b, a) is Some,
        common(a, b) matches Some(r) ==> same_rectangle(r, common(b, a)->Some_0),
{
}

/// Law: of a target that is seen, the visible part lies in the viewport.
pub proof fn law_visible_part_is_in_viewport(f: WorldFacts, p: Point)
    requires
        f.viewport matches Some(v) && numbered(v),
    ensures
        world_seen(f) matches Ok(WorldSight::Part(outline)) && holds(outline.visible, p) ==> holds(
            f.viewport->Some_0,
            p,
        ),
        world_seen(f) matches Ok(WorldSight::Center { at, .. }) ==> holds(f.viewport->Some_0, at),
{
}

/// A point whose coordinates are finite.
pub open spec fn finite_point(p: Point) -> bool {
    reals::single_finite(p.x) && reals::single_finite(p.y)
}

/// A rectangle whose corners are finite.
pub open spec fn finite_rectangle(r: Rectangle) -> bool {
    finite_point(r.min) && finite_point(r.max)
}

/// A point lies in a rectangle or on its edge, by the values of its coordinates.
pub open spec fn lies_in(r: Rectangle, p: Point) -> bool {
    reals::single_value(r.min.x) <= reals::single_value(p.x) <= reals::single_value(r.max.x)
        && reals::single_value(r.min.y) <= reals::single_value(p.y) <= reals::single_value(r.max.y)
}

/// Law: for finite coordinates, a rectangle holds a point exactly where the point lies in it by its
/// values.
pub proof fn law_rectangles_hold_by_value(r: Rectangle, p: Point)
    requires
        finite_rectangle(r),
        finite_point(p),
    ensures
        holds(r, p) <==> lies_in(r, p),
{
    reals::law_singles_are_ordered_by_value(r.min.x, p.x);
    reals::law_singles_are_ordered_by_value(p.x, r.max.x);
    reals::law_singles_are_ordered_by_value(r.min.y, p.y);
    reals::law_singles_are_ordered_by_value(p.y, r.max.y);
}

proof fn lemma_corners(points: Seq<Point>, n: int)
    requires
        0 < n <= points.len(),
        forall|i: int| 0 <= i < points.len() ==> finite_point(#[trigger] points[i]),
    ensures
        finite_point(least_corner(points, n)),
        finite_point(greatest_corner(points, n)),
        forall|i: int|
            0 <= i < n ==> reals::single_value(least_corner(points, n).x) <= reals::single_value(
                (#[trigger] points[i]).x,
            ) <= reals::single_value(greatest_corner(points, n).x),
        forall|i: int|
            0 <= i < n ==> reals::single_value(least_corner(points, n).y) <= reals::single_value(
                (#[trigger] points[i]).y,
            ) <= reals::single_value(greatest_corner(points, n).y),
        exists|i: int| 0 <= i < n && (#[trigger] points[i]).x == least_corner(points, n).x,
        exists|i: int| 0 <= i < n && (#[trigger] points[i]).y == least_corner(points, n).y,
        exists|i: int| 0 <= i < n && (#[trigger] points[i]).x == greatest_corner(points, n).x,
        exists|i: int| 0 <= i < n && (#[trigger] points[i]).y == greatest_corner(points, n).y,
    decreases n,
{
    let last = points[n - 1];
    assert(finite_point(points[n - 1]));
    assert(finite_point(points[0]));
    if n > 1 {
        lemma_corners(points, n - 1);
        let low = least_corner(points, n - 1);
        let high = greatest_corner(points, n - 1);
        reals::law_singles_are_ordered_by_value(low.x, last.x);
        reals::law_singles_are_ordered_by_value(low.y, last.y);
        reals::law_singles_are_ordered_by_value(last.x, high.x);
        reals::law_singles_are_ordered_by_value(last.y, high.y);
        let a = choose|i: int| 0 <= i < n - 1 && (#[trigger] points[i]).x == low.x;
        let b = choose|i: int| 0 <= i < n - 1 && (#[trigger] points[i]).y == low.y;
        let c = choose|i: int| 0 <= i < n - 1 && (#[trigger] points[i]).x == high.x;
        let d = choose|i: int| 0 <= i < n - 1 && (#[trigger] points[i]).y == high.y;
        assert(points[a].x == low.x && points[b].y == low.y && points[c].x == high.x
            && points[d].y == high.y);
    }
}

/// Law: the rectangle around some finite points holds all of them, and is no larger than it has to
/// be: some point lies on each of its edges.
pub proof fn law_rectangles_fit_their_points(points: Seq<Point>)
    requires
        points.len() > 0,
        forall|i: int| 0 <= i < points.len() ==> finite_point(#[trigger] points[i]),
    ensures
        finite_rectangle(around(points)),
        forall|i: int| 0 <= i < points.len() ==> lies_in(around(points), #[trigger] points[i]),
        exists|i: int| 0 <= i < points.len() && (#[trigger] points[i]).x == around(points).min.x,
        exists|i: int| 0 <= i < points.len() && (#[trigger] points[i]).y == around(points).min.y,
        exists|i: int| 0 <= i < points.len() && (#[trigger] points[i]).x == around(points).max.x,
        exists|i: int| 0 <= i < points.len() && (#[trigger] points[i]).y == around(points).max.y,
{
    let n = points.len() as int;
    lemma_corners(points, n);
    let low = least_corner(points, n);
    let high = greatest_corner(points, n);
    reals::law_singles_are_ordered_by_value(low.x, high.x);
    reals::law_singles_are_ordered_by_value(low.y, high.y);
    reals::law_singles_are_ordered_by_value(high.x, low.x);
    reals::law_singles_are_ordered_by_value(high.y, low.y);
    assert(reals::single_value(low.x) <= reals::single_value(points[0].x));
    assert(reals::single_value(low.y) <= reals::single_value(points[0].y));
    let r = around(points);
    assert(r.min == low && r.max == high);
}

/// Law: two finite rectangles have something in common exactly where each begins before the other
/// ends, in both directions; the common part is finite, has an inside, and is exactly where both are.
pub proof fn law_common_parts_are_where_both_are(a: Rectangle, b: Rectangle)
    requires
        finite_rectangle(a),
        finite_rectangle(b),
    ensures
        ({
            let left = if reals::single_value(a.min.x) >= reals::single_value(b.min.x) {
                reals::single_value(a.min.x)
            } else {
                reals::single_value(b.min.x)
            };
            let right = if reals::single_value(a.max.x) <= reals::single_value(b.max.x) {
                reals::single_value(a.max.x)
            } else {
                reals::single_value(b.max.x)
            };
            let top = if reals::single_value(a.min.y) >= reals::single_value(b.min.y) {
                reals::single_value(a.min.y)
            } else {
                reals::single_value(b.min.y)
            };
            let bottom = if reals::single_value(a.max.y) <= reals::single_value(b.max.y) {
                reals::single_value(a.max.y)
            } else {
                reals::single_value(b.max.y)
            };
            &&& common(a, b) is Some <==> left < right && top < bottom
            &&& common(a, b) matches Some(r) ==> {
                &&& finite_rectangle(r)
                &&& reals::single_value(r.min.x) == left && reals::single_value(r.max.x) == right
                &&& reals::single_value(r.min.y) == top && reals::single_value(r.max.y) == bottom
            }
        }),
{
    reals::law_singles_are_ordered_by_value(a.min.x, b.min.x);
    reals::law_singles_are_ordered_by_value(b.min.x, a.min.x);
    reals::law_singles_are_ordered_by_value(a.min.y, b.min.y);
    reals::law_singles_are_ordered_by_value(b.min.y, a.min.y);
    reals::law_singles_are_ordered_by_value(a.max.x, b.max.x);
    reals::law_singles_are_ordered_by_value(a.max.y, b.max.y);
    let low = point_max(a.min, b.min);
    let high = point_min(a.max, b.max);
    reals::law_singles_are_ordered_by_value(low.x, high.x);
    reals::law_singles_are_ordered_by_value(low.y, high.y);
}

/// A target of the user interface has everything that is needed to see it.
pub open spec fn ui_in_order(f: UiFacts) -> bool {
    &&& f.size is Some && proper_size(f.size->Some_0)
    &&& f.visible == Some(true)
    &&& f.has_transform
    &&& f.camera_matches == Some(true)
    &&& f.has_camera
    &&& f.has_window
    &&& f.viewport is Some
    &&& forall|i: int| 0 <= i < f.corners@.len() ==> finite_point(#[trigger] f.corners@[i])
    &&& reals::single_finite(f.inverse_scale) && reals::single_less(0, f.inverse_scale)
}

/// Law: a node of the user interface is seen only where everything that is needed to see it is in
/// order. The part that is seen lies in the rectangle around its corners, in the viewport and in
/// what it is cut off at, and is all of what they have in common; it counts as clipped exactly where
/// it is another rectangle than the one around the corners.
pub proof fn law_nodes_are_seen_where_nothing_hides_them(f: UiFacts, p: Point)
    requires
        f.corners@.len() > 0,
        f.viewport matches Some(v) ==> finite_rectangle(v),
        f.clip matches Some(c) ==> finite_rectangle(c),
        finite_point(p),
    ensures
        ui_seen(f) is Ok ==> ui_in_order(f),
        ui_in_order(f) ==> (ui_seen(f) is Err ==> ui_seen(f)->Err_0 == "fully_clipped"),
        ui_seen(f) matches Ok(outline) ==> {
            let whole = around(f.corners@);
            &&& lies_in(outline.visible, p) <==> lies_in(whole, p) && lies_in(
                f.viewport->Some_0,
                p,
            ) && (f.clip matches Some(c) ==> lies_in(c, p))
            &&& reals::single_value(outline.visible.min.x) < reals::single_value(
                outline.visible.max.x,
            )
            &&& reals::single_value(outline.visible.min.y) < reals::single_value(
                outline.visible.max.y,
            )
            &&& !outline.clipped <==> reals::single_value(outline.visible.min.x)
                == reals::single_value(whole.min.x) && reals::single_value(outline.visible.min.y)
                == reals::single_value(whole.min.y) && reals::single_value(outline.visible.max.x)
                == reals::single_value(whole.max.x) && reals::single_value(outline.visible.max.y)
                == reals::single_value(whole.max.y)
        },
{
    if ui_seen(f) is Ok {
        assert(f.camera_matches is Some);
        if !f.camera_matches->Some_0 {
            assert(f.camera_matches == Some(false));
        }
        assert(f.camera_matches == Some(true));
        assert(visibility_objection(f.visible) is None);
        assert(f.visible == Some(true));
    }
    if ui_seen(f) is Ok || ui_in_order(f) {
        assert forall|i: int| 0 <= i < f.corners@.len() implies finite_point(
            #[trigger] f.corners@[i],
        ) by {
            if !finite_point(f.corners@[i]) {
                assert(some_infinite(f.corners@));
            }
        }
        law_rectangles_fit_their_points(f.corners@);
        let whole = around(f.corners@);
        let viewport = f.viewport->Some_0;
        law_common_parts_are_where_both_are(whole, viewport);
        if common(whole, viewport) is Some {
            let part = common(whole, viewport)->Some_0;
            if f.clip is Some {
                law_common_parts_are_where_both_are(part, f.clip->Some_0);
            }
            if ui_seen(f) is Ok {
                let seen = ui_seen(f)->Ok_0.visible;
                reals::law_singles_are_ordered_by_value(whole.min.x, seen.min.x);
                reals::law_singles_are_ordered_by_value(whole.min.y, seen.min.y);
                reals::law_singles_are_ordered_by_value(whole.max.x, seen.max.x);
                reals::law_singles_are_ordered_by_value(whole.max.y, seen.max.y);
            }
        }
    }
}

/// An entity of the world has everything that is needed to see it.
pub open spec fn world_in_order(f: WorldFacts) -> bool {
    f.visible == Some(true) && f.has_transform && f.has_camera && f.has_camera_transform
        && f.has_window && f.viewport is Some && f.center is Some
}

proof fn lemma_projected(corners: Seq<Option<Point>>, n: int)
    requires
        0 <= n <= corners.len(),
    ensures
        projected(corners, n).len() <= n,
        projected(corners, n).len() == n <==> forall|i: int|
            0 <= i < n ==> #[trigger] corners[i] is Some,
        (forall|i: int| 0 <= i < n ==> #[trigger] corners[i] is Some) ==> projected(corners, n)
            == Seq::new(n as nat, |i: int| corners[i]->Some_0),
    decreases n,
{
    if n > 0 {
        lemma_projected(corners, n - 1);
        if forall|i: int| 0 <= i < n ==> #[trigger] corners[i] is Some {
            assert(corners[n - 1] is Some);
            assert(projected(corners, n) =~= Seq::new(n as nat, |i: int| corners[i]->Some_0));
        } else if corners[n - 1] is Some {
            let k = choose|i: int| 0 <= i < n && !(#[trigger] corners[i] is Some);
            assert(k < n - 1);
        }
    }
}

/// Law: an entity of the world is seen only where everything that is needed to see it is in order.
/// With a box whose corners could all be projected, the part that is seen is what the rectangle
/// around the corners has in common with the viewport. Without one, or where a corner could not be
/// projected, its middle is seen exactly where it is in the viewport.
pub proof fn law_entities_are_seen_in_the_viewport(f: WorldFacts, p: Point)
    requires
        f.viewport matches Some(v) ==> finite_rectangle(v),
        f.corners matches Some(c) ==> c@.len() > 0 && forall|i: int|
            0 <= i < c@.len() && #[trigger] c@[i] is Some ==> finite_point(c@[i]->Some_0),
        f.center matches Some(at) ==> finite_point(at),
        finite_point(p),
    ensures
        ({
            let boxed = f.corners is Some && forall|i: int|
                0 <= i < f.corners->Some_0@.len() ==> #[trigger] f.corners->Some_0@[i] is Some;
            let whole = around(
                Seq::new(
                    f.corners->Some_0@.len(),
                    |i: int| f.corners->Some_0@[i]->Some_0,
                ),
            );
            &&& world_seen(f) is Ok ==> world_in_order(f)
            &&& world_in_order(f) && world_seen(f) is Err ==> world_seen(f)->Err_0
                == "fully_clipped"
            &&& world_in_order(f) && !boxed ==> (world_seen(f) is Ok <==> lies_in(
                f.viewport->Some_0,
                f.center->Some_0,
            ))
            &&& world_seen(f) is Ok && !boxed ==> world_seen(f)->Ok_0 == (WorldSight::Center {
                at: f.center->Some_0,
                clipped: f.corners is Some,
            })
            &&& world_seen(f) is Ok && boxed ==> {
                &&& world_seen(f)->Ok_0 matches WorldSight::Part(outline)
                &&& lies_in(outline.visible, p) <==> lies_in(whole, p) && lies_in(
                    f.viewport->Some_0,
                    p,
                )
                &&& !outline.clipped <==> same_rectangle(whole, outline.visible)
            }
        }),
{
    if f.center is Some && f.viewport is Some {
        law_rectangles_hold_by_value(f.viewport->Some_0, f.center->Some_0);
    }
    if f.corners is Some {
        let corners = f.corners->Some_0@;
        lemma_projected(corners, corners.len() as int);
        if forall|i: int| 0 <= i < corners.len() ==> #[trigger] corners[i] is Some {
            let points = Seq::new(corners.len(), |i: int| corners[i]->Some_0);
            assert forall|i: int| 0 <= i < points.len() implies finite_point(
                #[trigger] points[i],
            ) by {
                assert(corners[i] is Some);
            }
            law_rectangles_fit_their_points(points);
            if f.viewport is Some {
                law_common_parts_are_where_both_are(around(points), f.viewport->Some_0);
            }
        }
    }
}

} // verus!
