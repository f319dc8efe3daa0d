use vstd::prelude::*;

use crate::point::Point;
use crate::rect::Rect;

verus! {

/// The cells of `r` from the cursor position `(x, y)` onward, in
/// traversal order: the rest of the row of `y` rightward, then every
/// full row below it down to the bottom edge.
pub open spec fn cells_from(r: Rect, x: int, y: int) -> Seq<Point>
    decreases y - r.spec_bottom(), r.spec_right() - x
        when r.left <= x <= r.spec_right() && r.spec_bottom() <= y <= r.top
{
    seq![Point { x: x as i32, y: y as i32 }] + if x < r.spec_right() {
        cells_from(r, x + 1, y)
    } else if y > r.spec_bottom() {
        cells_from(r, r.left as int, y - 1)
    } else {
        Seq::<Point>::empty()
    }
}

impl Rect {
    /// Every cell the rect covers, in traversal order: the top row left
    /// to right, then each following row down to the bottom row. A rect
    /// with `wid < 1` or `hgt < 1` covers no cells.
    pub open spec fn cells_seq(self) -> Seq<Point> {
        if self.wid >= 1 && self.hgt >= 1 {
            cells_from(self, self.left as int, self.top as int)
        } else {
            Seq::<Point>::empty()
        }
    }

    /// The rect that [`Rect::inner_cells`] traverses: this rect shrunk
    /// by one cell of margin on every side.
    pub open spec fn spec_inner(self) -> Rect {
        Rect {
            top: (self.top - 1) as i32,
            left: (self.left + 1) as i32,
            wid: (self.wid - 2) as i32,
            hgt: (self.hgt - 2) as i32,
        }
    }

    /// Return a cursor over all positions contained within the rect,
    /// including the edges.
    pub fn cells(&self) -> (it: InteriorIter)
        requires
            self.wid >= 1 && self.hgt >= 1 ==> self.spec_right() < i32::MAX && i32::MIN
                < self.spec_bottom(),
        ensures
            it.wf(),
            it.remaining() == self.cells_seq(),
    {
        InteriorIter::from(*self)
    }

    /// Return a cursor over the positions strictly inside the rect,
    /// excluding the edges. With `wid <= 2` or `hgt <= 2` no cell is
    /// strictly interior and the traversal is empty.
    pub fn inner_cells(&self) -> (it: InteriorIter)
        requires
            self.left < i32::MAX,
            i32::MIN < self.top,
            i32::MIN + 2 <= self.wid,
            i32::MIN + 2 <= self.hgt,
            self.wid >= 3 && self.hgt >= 3 ==> self.spec_right() <= i32::MAX && i32::MIN
                <= self.spec_bottom(),
        ensures
            it.wf(),
            it.remaining() == self.spec_inner().cells_seq(),
            self.wid <= 2 || self.hgt <= 2 ==> it.remaining() == Seq::<Point>::empty(),
    {
        InteriorIter::from(Rect::new(self.left + 1, self.top - 1, self.wid - 2, self.hgt - 2))
    }
}

/// A cursor over the cells of a rect, top row to bottom row and left to
/// right within a row. Single pass: once exhausted it stays exhausted,
/// and a fresh cursor must be built to traverse again.
#[derive(Clone, Debug)]
pub struct InteriorIter {
    cur_pos: Point,
    rect: Rect,
    end: bool,
}

impl InteriorIter {
    /// While the cursor is live it sits on a cell of a rect with
    /// positive extent, and the rect's bounds leave room for the step
    /// arithmetic.
    pub closed spec fn wf(self) -> bool {
        !self.end ==> {
            &&& self.rect.wid >= 1 && self.rect.hgt >= 1
            &&& self.rect.left <= self.cur_pos.x <= self.rect.spec_right()
            &&& self.rect.spec_bottom() <= self.cur_pos.y <= self.rect.top
            &&& self.rect.spec_right() < i32::MAX
            &&& i32::MIN < self.rect.spec_bottom()
        }
    }

    /// The cells the cursor has yet to produce, in order.
    pub closed spec fn remaining(self) -> Seq<Point> {
        if self.end {
            Seq::<Point>::empty()
        } else {
            cells_from(self.rect, self.cur_pos.x as int, self.cur_pos.y as int)
        }
    }

    /// Produce the cell under the cursor and step to the next one, or
    /// report exhaustion once every cell has been produced.
    pub fn next(&mut self) -> (r: Option<Point>)
        requires
            old(self).wf(),
        ensures
            final(self).wf(),
            old(self).remaining().len() == 0 ==> r is None && final(self).remaining()
                == Seq::<Point>::empty(),
            old(self).remaining().len() > 0 ==> r == Some(old(self).remaining()[0])
                && final(self).remaining() == old(self).remaining().skip(1),
    {
        if self.end {
            return None;
        }
        let ret = self.cur_pos;

        let mut new_x = self.cur_pos.x + 1;

        // Check if end of row.
        if new_x > self.rect.right() {
            new_x = self.rect.left;
            self.cur_pos.y = self.cur_pos.y - 1;

            // Check if end of rectangle.
            if self.cur_pos.y < self.rect.bottom() {
                self.end = true;
            }
        }

        self.cur_pos.x = new_x;

        proof {
            assert(old(self).remaining() =~= seq![ret] + self.remaining());
            assert(old(self).remaining().skip(1) =~= self.remaining());
        }
        Some(ret)
    }
}

impl From<Rect> for InteriorIter {
    /// Start a traversal at the rect's top-left corner. A rect with
    /// `wid < 1` or `hgt < 1` covers no cells, so its cursor starts
    /// exhausted.
    fn from(val: Rect) -> (it: Self) {
        InteriorIter {
            cur_pos: Point { x: val.left, y: val.top },
            rect: val,
            end: val.wid < 1 || val.hgt < 1,
        }
    }
}

impl vstd::std_specs::convert::FromSpecImpl<Rect> for InteriorIter {
    open spec fn obeys_from_spec() -> bool {
        true
    }

    closed spec fn from_spec(val: Rect) -> InteriorIter {
        InteriorIter {
            cur_pos: Point { x: val.left, y: val.top },
            rect: val,
            end: val.wid < 1 || val.hgt < 1,
        }
    }
}

/// Law: a traversal of a rect with positive extent covers exactly
/// `wid * hgt` cells.
pub proof fn lemma_cells_count(r: Rect)
    requires
        r.wid >= 1,
        r.hgt >= 1,
    ensures
        r.cells_seq().len() == r.wid * r.hgt,
{
    lemma_cells_from_len(r, r.left as int, r.top as int);
    let w = r.spec_right() - r.left + 1;
    let h = r.top - r.spec_bottom() + 1;
    assert((h - 1) * w + w == r.wid * r.hgt) by (nonlinear_arith)
        requires
            w == r.wid,
            h == r.hgt,
    ;
}

/// Law: traversal order — counting `i` rows down from the top row and
/// `j` columns right from the left column, the traversal's element at
/// position `i * wid + j` is the cell `(left + j, top - i)`. Rows are
/// produced top to bottom and each row left to right.
pub proof fn lemma_cells_order(r: Rect, i: int, j: int)
    requires
        r.wid >= 1,
        r.hgt >= 1,
        0 <= i < r.hgt,
        0 <= j < r.wid,
    ensures
        0 <= i * r.wid + j < r.cells_seq().len(),
        r.cells_seq()[i * r.wid + j] == (Point { x: (r.left + j) as i32, y: (r.top - i) as i32 }),
{
    lemma_cells_from_grid(r, r.top as int, i, j);
}

/// The element of a whole-row traversal from `(left, y)` at offset
/// `i * w + j`, where `w` is the row width: `i` rows down and `j`
/// columns right.
proof fn lemma_cells_from_grid(r: Rect, y: int, i: int, j: int)
    requires
        r.spec_bottom() <= y <= r.top,
        0 <= i <= y - r.spec_bottom(),
        0 <= j <= r.spec_right() - r.left,
    ensures
        0 <= i * (r.spec_right() - r.left + 1) + j < cells_from(r, r.left as int, y).len(),
        cells_from(r, r.left as int, y)[i * (r.spec_right() - r.left + 1) + j] == (Point {
            x: (r.left + j) as i32,
            y: (y - i) as i32,
        }),
    decreases i,
{
    let w = r.spec_right() - r.left + 1;
    let m = i * w + j;
    lemma_cells_from_len(r, r.left as int, y);
    if i == 0 {
        assert(m == j) by (nonlinear_arith)
            requires
                i == 0,
                m == i * w + j,
        ;
        lemma_cells_from_row(r, r.left as int, y, j);
    } else {
        assert(w <= m && m - w == (i - 1) * w + j && m <= (y - r.spec_bottom()) * w + w - 1)
            by (nonlinear_arith)
            requires
                m == i * w + j,
                1 <= i <= y - r.spec_bottom(),
                0 <= j <= w - 1,
                1 <= w,
        ;
        lemma_cells_from_peel(r, r.left as int, y, m);
        lemma_cells_from_grid(r, y - 1, i - 1, j);
    }
}

/// The element at offset `j` of a traversal from `(x, y)` is the cell
/// `(x + j, y)`, as long as the offset stays within the row of `y`.
proof fn lemma_cells_from_row(r: Rect, x: int, y: int, j: int)
    requires
        r.left <= x <= r.spec_right(),
        r.spec_bottom() <= y <= r.top,
        0 <= j <= r.spec_right() - x,
    ensures
        j < cells_from(r, x, y).len(),
        cells_from(r, x, y)[j] == (Point { x: (x + j) as i32, y: y as i32 }),
    decreases j,
{
    lemma_cells_from_len(r, x, y);
    assert((y - r.spec_bottom()) * (r.spec_right() - r.left + 1) >= 0) by (nonlinear_arith)
        requires
            y >= r.spec_bottom(),
            r.spec_right() - r.left + 1 >= 1,
    ;
    if j > 0 {
        lemma_cells_from_row(r, x + 1, y, j - 1);
    }
}

/// Past the end of the cursor's row, a traversal from `(x, y)`
/// continues as the whole-row traversal of the row below.
proof fn lemma_cells_from_peel(r: Rect, x: int, y: int, m: int)
    requires
        r.left <= x <= r.spec_right(),
        r.spec_bottom() < y <= r.top,
        r.spec_right() - x + 1 <= m < cells_from(r, x, y).len(),
    ensures
        cells_from(r, x, y)[m] == cells_from(r, r.left as int, y - 1)[m - (r.spec_right() - x
            + 1)],
    decreases r.spec_right() - x,
{
    if x < r.spec_right() {
        lemma_cells_from_peel(r, x + 1, y, m - 1);
    }
}

/// The count of cells from a cursor position onward: the rest of the
/// cursor's row, plus one full row of cells for every row below it.
proof fn lemma_cells_from_len(r: Rect, x: int, y: int)
    requires
        r.left <= x <= r.spec_right(),
        r.spec_bottom() <= y <= r.top,
    ensures
        cells_from(r, x, y).len() == (y - r.spec_bottom()) * (r.spec_right() - r.left + 1) + (
        r.spec_right() - x + 1),
    decreases y - r.spec_bottom(), r.spec_right() - x,
{
    if x < r.spec_right() {
        lemma_cells_from_len(r, x + 1, y);
    } else if y > r.spec_bottom() {
        lemma_cells_from_len(r, r.left as int, y - 1);
        let w = r.spec_right() - r.left + 1;
        assert((y - 1 - r.spec_bottom()) * w + w == (y - r.spec_bottom()) * w) by (nonlinear_arith);
    } else {
        assert((y - r.spec_bottom()) * (r.spec_right() - r.left + 1) == 0) by (nonlinear_arith)
            requires
                y == r.spec_bottom(),
        ;
    }
}

} // verus!
