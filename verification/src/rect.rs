use vstd::prelude::*;

use crate::point::Point;

verus! {

/// An axis-aligned rectangle on the integer grid.
///
/// `y` grows upward: `top` is the largest `y` the rect covers, and the
/// derived `bottom` (see [`Rect::bottom`]) is the smallest. A sane rect
/// has `wid >= 1` and `hgt >= 1`; nothing validates that, and a rect
/// with a smaller size gives degenerate but well-defined answers
/// (empty traversals, an inverted extent).
#[derive(Clone, Copy, Debug, Default, PartialEq, Eq, Structural)]
pub struct Rect {
    /// Largest y co-ordinate covered by the rect.
    pub top: i32,
    /// Smallest x co-ordinate covered by the rect.
    pub left: i32,
    /// Width of the rect in cells.
    pub wid: i32,
    /// Height of the rect in cells.
    pub hgt: i32,
}

impl Rect {
    /// Largest x co-ordinate covered, as a mathematical integer.
    pub open spec fn spec_right(self) -> int {
        self.left + self.wid - 1
    }

    /// Smallest y co-ordinate covered, as a mathematical integer.
    pub open spec fn spec_bottom(self) -> int {
        self.top - self.hgt + 1
    }

    /// The sum `left + wid` stays within `i32`, so [`Rect::right`] can be
    /// computed without overflow.
    pub open spec fn x_extent_in_range(self) -> bool {
        i32::MIN < self.left + self.wid <= i32::MAX
    }

    /// The difference `top - hgt` stays within `i32`, so [`Rect::bottom`]
    /// can be computed without overflow.
    pub open spec fn y_extent_in_range(self) -> bool {
        i32::MIN <= self.top - self.hgt < i32::MAX
    }

    /// Both rects cover a common cell: their column ranges and their row
    /// ranges both intersect.
    pub open spec fn spec_overlaps(self, other: Rect) -> bool {
        &&& self.left <= other.spec_right()
        &&& self.spec_right() >= other.left
        &&& self.top >= other.spec_bottom()
        &&& self.spec_bottom() <= other.top
    }

    /// The point sits within the rect, boundary included on all four
    /// sides.
    pub open spec fn spec_contains(self, pos: Point) -> bool {
        &&& self.left <= pos.x <= self.spec_right()
        &&& self.spec_bottom() <= pos.y <= self.top
    }

    /// The rect's top-left corner.
    pub open spec fn spec_top_left(self) -> Point {
        Point { x: self.left, y: self.top }
    }

    /// Absolute area in cells, as a mathematical integer.
    pub open spec fn spec_area(self) -> int {
        vstd::math::abs(self.wid * self.hgt) as int
    }

    /// Create a rectangle from its top-left corner and its size.
    pub fn new(left: i32, top: i32, wid: i32, hgt: i32) -> (r: Rect)
        ensures
            r.left == left,
            r.top == top,
            r.wid == wid,
            r.hgt == hgt,
    {
        Rect { top, left, wid, hgt }
    }

    /// Rightmost x co-ordinate of the rect.
    pub fn right(&self) -> (r: i32)
        requires
            self.x_extent_in_range(),
        ensures
            r == self.spec_right(),
    {
        self.left + self.wid - 1
    }

    /// Lowest y co-ordinate of the rect.
    pub fn bottom(&self) -> (b: i32)
        requires
            self.y_extent_in_range(),
        ensures
            b == self.spec_bottom(),
    {
        self.top - self.hgt + 1
    }

    /// Returns true if the rect overlaps the other.
    pub fn overlaps(&self, other: &Self) -> (r: bool)
        requires
            self.x_extent_in_range(),
            self.y_extent_in_range(),
            other.x_extent_in_range(),
            other.y_extent_in_range(),
        ensures
            r == self.spec_overlaps(*other),
    {
        self.left <= other.right()
            && self.right() >= other.left
            && self.top >= other.bottom()
            && self.bottom() <= other.top
    }

    /// Returns the top-left corner as a point.
    pub fn top_left(&self) -> (p: Point)
        ensures
            p == self.spec_top_left(),
    {
        Point::new(self.left, self.top)
    }

    /// Checks whether the given position is within or on the rect's
    /// boundaries.
    pub fn contains(&self, pos: Point) -> (r: bool)
        requires
            self.x_extent_in_range(),
            self.y_extent_in_range(),
        ensures
            r == self.spec_contains(pos),
    {
        self.left <= pos.x && self.right() >= pos.x && self.top >= pos.y && self.bottom() <= pos.y
    }

    /// Returns the area of the rect in cells. A malformed negative size
    /// still gives the absolute cell count, never a negative value.
    pub fn area(&self) -> (a: u32)
        requires
            i32::MIN <= self.wid * self.hgt <= i32::MAX,
        ensures
            a == self.spec_area(),
    {
        let prod: i32 = self.wid * self.hgt;
        if prod >= 0 {
            prod as u32
        } else {
            (-(prod as i64)) as u32
        }
    }

    /// Returns each corner of the rect, in the order top-left,
    /// top-right, bottom-left, bottom-right.
    pub fn corners(&self) -> (c: Vec<Point>)
        requires
            self.x_extent_in_range(),
            self.y_extent_in_range(),
        ensures
            c@ == self.spec_corners(),
    {
        let left = self.left;
        let right = self.right();
        let top = self.top;
        let bottom = self.bottom();

        let mut c: Vec<Point> = Vec::new();
        c.push(Point::new(left, top));
        c.push(Point::new(right, top));
        c.push(Point::new(left, bottom));
        c.push(Point::new(right, bottom));
        proof {
            assert(c@ =~= self.spec_corners());
        }
        c
    }

    /// The four corners, in the order top-left, top-right, bottom-left,
    /// bottom-right.
    pub open spec fn spec_corners(self) -> Seq<Point> {
        seq![
            Point { x: self.left, y: self.top },
            Point { x: self.spec_right() as i32, y: self.top },
            Point { x: self.left, y: self.spec_bottom() as i32 },
            Point { x: self.spec_right() as i32, y: self.spec_bottom() as i32 },
        ]
    }

    /// The boundary cells the horizontal pass emits: for each column
    /// from `left` to `right`, the cell on the top row then the cell
    /// on the bottom row.
    pub open spec fn edge_rows_seq(self) -> Seq<Point> {
        Seq::new(
            if self.wid >= 1 {
                (2 * self.wid) as nat
            } else {
                0
            },
            |i: int|
                (Point {
                    x: (self.left + i / 2) as i32,
                    y: if i % 2 == 0 {
                        self.top
                    } else {
                        self.spec_bottom() as i32
                    },
                }),
        )
    }

    /// The boundary cells the vertical pass emits: for each row
    /// strictly between `bottom` and `top`, going upward, the cell on
    /// the left column then the cell on the right column.
    pub open spec fn edge_cols_seq(self) -> Seq<Point> {
        Seq::new(
            if self.hgt >= 3 {
                (2 * (self.hgt - 2)) as nat
            } else {
                0
            },
            |i: int|
                (Point {
                    x: if i % 2 == 0 {
                        self.left
                    } else {
                        self.spec_right() as i32
                    },
                    y: (self.spec_bottom() + 1 + i / 2) as i32,
                }),
        )
    }

    /// Every boundary cell in emission order: the horizontal pass over
    /// the top and bottom rows, then the vertical pass over the left
    /// and right columns. Each corner appears twice, once in each row
    /// pair of the horizontal pass.
    pub open spec fn edges_seq(self) -> Seq<Point> {
        self.edge_rows_seq() + self.edge_cols_seq()
    }

    /// Returns each point on the edge of the rect: top and bottom row
    /// pairs left to right, then left and right column pairs bottom to
    /// top. The four corners are emitted twice by design.
    pub fn edges(&self) -> (points: Vec<Point>)
        requires
            self.x_extent_in_range(),
            self.y_extent_in_range(),
            self.spec_bottom() < i32::MAX,
            i32::MIN < self.top,
        ensures
            points@ == self.edges_seq(),
    {
        let mut points: Vec<Point> = Vec::new();
        let right = self.right();
        let bottom = self.bottom();

        let mut x: i32 = self.left;
        while x <= right
            invariant
                self.x_extent_in_range(),
                right == self.spec_right(),
                bottom == self.spec_bottom(),
                self.left <= x,
                2 * (x - self.left) <= self.edge_rows_seq().len(),
                points@ == self.edge_rows_seq().take(2 * (x - self.left)),
            decreases right + 1 - x,
        {
            points.push(Point::new(x, self.top));
            points.push(Point::new(x, bottom));
            proof {
                assert(points@ =~= self.edge_rows_seq().take(2 * (x + 1 - self.left)));
            }
            x = x + 1;
        }
        proof {
            assert(points@ =~= self.edge_rows_seq());
        }

        let top_m1 = self.top - 1;
        let mut y: i32 = bottom + 1;
        while y <= top_m1
            invariant
                self.x_extent_in_range(),
                self.y_extent_in_range(),
                right == self.spec_right(),
                bottom == self.spec_bottom(),
                top_m1 == self.top - 1,
                bottom + 1 <= y,
                2 * (y - (bottom + 1)) <= self.edge_cols_seq().len(),
                points@ == self.edge_rows_seq() + self.edge_cols_seq().take(
                    2 * (y - (bottom + 1)),
                ),
            decreases top_m1 + 1 - y,
        {
            points.push(Point::new(self.left, y));
            points.push(Point::new(right, y));
            proof {
                assert(points@ =~= self.edge_rows_seq() + self.edge_cols_seq().take(
                    2 * (y + 1 - (bottom + 1)),
                ));
            }
            y = y + 1;
        }
        proof {
            assert(points@ =~= self.edges_seq());
        }

        points
    }

    /// Grows the rect in the given direction: the width by `|dir.x|`
    /// and the height by `|dir.y|`. Growing leftward (`dir.x < 0`)
    /// moves `left` and keeps the right edge; growing upward
    /// (`dir.y > 0`) moves `top` and keeps the bottom edge; the other
    /// two directions keep `left` and `top`.
    pub fn expand(&mut self, dir: Point)
        requires
            i32::MIN < dir.x,
            i32::MIN < dir.y,
            old(self).wid + vstd::math::abs(dir.x as int) <= i32::MAX,
            old(self).hgt + vstd::math::abs(dir.y as int) <= i32::MAX,
            dir.x < 0 ==> i32::MIN <= old(self).left + dir.x,
            dir.y > 0 ==> old(self).top + dir.y <= i32::MAX,
        ensures
            final(self).wid == old(self).wid + vstd::math::abs(dir.x as int),
            final(self).hgt == old(self).hgt + vstd::math::abs(dir.y as int),
            final(self).left == old(self).left + (if dir.x < 0 { dir.x as int } else { 0 }),
            final(self).top == old(self).top + (if dir.y > 0 { dir.y as int } else { 0 }),
            dir.x < 0 ==> final(self).spec_right() == old(self).spec_right(),
            dir.y > 0 ==> final(self).spec_bottom() == old(self).spec_bottom(),
    {
        let ax: i32 = if dir.x < 0 { -dir.x } else { dir.x };
        self.wid = self.wid + ax;

        if dir.x < 0 {
            self.left = self.left + dir.x;
        }

        let ay: i32 = if dir.y < 0 { -dir.y } else { dir.y };
        self.hgt = self.hgt + ay;

        if dir.y > 0 {
            self.top = self.top + dir.y;
        }
    }

    /// Relocates the rect's top-left corner to the given position,
    /// keeping its size.
    pub fn move_to(&mut self, pos: Point)
        ensures
            final(self).left == pos.x,
            final(self).top == pos.y,
            final(self).wid == old(self).wid,
            final(self).hgt == old(self).hgt,
    {
        self.left = pos.x;
        self.top = pos.y;
    }

    /// Centres the rect on the given position. When the rect cannot be
    /// centred exactly (an odd width or height), the new centre lands
    /// to the right of and/or below the requested position.
    pub fn centre_on(&mut self, centre: Point)
        requires
            i32::MIN < old(self).wid,
            i32::MIN <= centre.x - half_toward_zero(old(self).wid as int) <= i32::MAX,
            i32::MIN <= centre.y + half_toward_zero(old(self).hgt as int) <= i32::MAX,
        ensures
            final(self).left == centre.x - half_toward_zero(old(self).wid as int),
            final(self).top == centre.y + half_toward_zero(old(self).hgt as int),
            final(self).wid == old(self).wid,
            final(self).hgt == old(self).hgt,
    {
        self.move_to(Point::new(centre.x + (-self.wid) / 2, centre.y + self.hgt / 2));
    }
}

/// Half of `a`, rounded toward zero, as Rust's integer division
/// computes it.
pub open spec fn half_toward_zero(a: int) -> int {
    if a >= 0 {
        a / 2
    } else {
        -((-a) / 2)
    }
}

/// Law: the derived bounds agree with the stored sizes — a rect spans
/// exactly `wid` columns and `hgt` rows.
pub proof fn lemma_extent(r: Rect)
    ensures
        r.spec_right() - r.left + 1 == r.wid,
        r.top - r.spec_bottom() + 1 == r.hgt,
{
}

/// Law: overlap is symmetric — `a` overlaps `b` exactly when `b`
/// overlaps `a`.
pub proof fn lemma_overlaps_symmetric(a: Rect, b: Rect)
    ensures
        a.spec_overlaps(b) == b.spec_overlaps(a),
{
}

/// Law: a rect with positive extent contains its own top-left corner.
pub proof fn lemma_contains_top_left(r: Rect)
    requires
        r.wid >= 1,
        r.hgt >= 1,
    ensures
        r.spec_contains(r.spec_top_left()),
{
}

} // verus!

