//! Which items of a scrolled grid are visible, and how the selection moves in the
//! single-image view.

use vstd::prelude::*;

verus! {

/// The number of rows that `n_items` take with `n_columns` items per row.
pub open spec fn spec_total_rows(n_items: int, n_columns: int) -> int {
    (n_items + n_columns - 1) / n_columns
}

/// The first row drawn: one row of margin above the first visible one, not above the top.
pub open spec fn spec_start_row(visible_start: int) -> int {
    if visible_start - 1 > 0 {
        visible_start - 1
    } else {
        0
    }
}

/// The last row bound: one row of margin below the last visible one, at most the
/// number of rows; a bound above the top wraps around to a huge row number.
pub open spec fn spec_end_row(visible_end: int, total_rows: int) -> int {
    if visible_end + 1 < 0 {
        total_rows
    } else if visible_end + 1 < total_rows {
        visible_end + 1
    } else {
        total_rows
    }
}

/// The first and last index (both included) of the items that are drawn.
pub open spec fn spec_visible_range(visible_start: int, visible_end: int, n_items: int, n_columns: int) -> (int, int) {
    let start = spec_start_row(visible_start) * n_columns;
    let end_by_rows = spec_end_row(visible_end, spec_total_rows(n_items, n_columns)) * n_columns;
    let end = if end_by_rows < n_items {
        end_by_rows
    } else {
        n_items
    };
    if start > end {
        (end, start)
    } else {
        (start, end)
    }
}

pub fn total_rows(n_items: usize, n_columns: usize) -> (rows: usize)
    requires
        n_columns > 0,
    ensures
        rows == spec_total_rows(n_items as int, n_columns as int),
{
    let rows: usize = n_items / n_columns;
    let rest: usize = n_items % n_columns;
    proof {
        vstd::arithmetic::div_mod::lemma_fundamental_div_mod(n_items as int, n_columns as int);
        let q = rows as int;
        let r = rest as int;
        let c = n_columns as int;
        assert(n_items as int == c * q + r);
        if r != 0 {
            assert(c >= 2);
            assert(q * c <= n_items) by (nonlinear_arith)
                requires
                    n_items as int == c * q + r,
                    r >= 0,
            ;
            assert(q + 1 <= usize::MAX) by (nonlinear_arith)
                requires
                    q * c <= n_items,
                    c >= 2,
                    n_items <= usize::MAX,
                    q >= 0,
            ;
            vstd::arithmetic::div_mod::lemma_div_multiples_vanish_fancy(q + 1, r - 1, c);
            assert((n_items + c - 1) == c * (q + 1) + (r - 1)) by (nonlinear_arith)
                requires
                    n_items as int == c * q + r,
            ;
        } else {
            vstd::arithmetic::div_mod::lemma_div_multiples_vanish_fancy(q, c - 1, c);
            assert((n_items + c - 1) == c * q + (c - 1)) by (nonlinear_arith)
                requires
                    n_items as int == c * q + r,
                    r == 0,
            ;
        }
    }
    if rest != 0 {
        rows + 1
    } else {
        rows
    }
}

/// The range of item indices to draw for the rows `visible_start..visible_end` of the
/// viewport, with one row of margin on each side.
pub fn visible_range(visible_start: isize, visible_end: isize, n_items: usize, n_columns: usize) -> (range: (
    usize,
    usize,
))
    requires
        n_columns > 0,
        visible_start > isize::MIN,
        visible_end < isize::MAX,
        n_items <= isize::MAX,
        spec_start_row(visible_start as int) * n_columns <= usize::MAX,
        spec_end_row(visible_end as int, spec_total_rows(n_items as int, n_columns as int))
            * n_columns <= usize::MAX,
    ensures
        range.0 == spec_visible_range(visible_start as int, visible_end as int, n_items as int, n_columns as int).0,
        range.1 == spec_visible_range(visible_start as int, visible_end as int, n_items as int, n_columns as int).1,
        range.0 <= range.1,
{
    let margin: isize = 1;
    let rows: usize = total_rows(n_items, n_columns);
    let start_row: usize = if visible_start - margin > 0 {
        (visible_start - margin) as usize
    } else {
        0
    };
    let end_row: usize = if visible_end + margin < 0 {
        rows
    } else if ((visible_end + margin) as usize) < rows {
        (visible_end + margin) as usize
    } else {
        rows
    };
    let mut start_index: usize = start_row * n_columns;
    let end_by_rows: usize = end_row * n_columns;
    let mut end_index: usize = if end_by_rows < n_items {
        end_by_rows
    } else {
        n_items
    };
    if start_index > end_index {
        let x: usize = start_index;
        start_index = end_index;
        end_index = x;
    }
    (start_index, end_index)
}

/// An item is drawn when its index lies within the range, both ends included.
pub fn is_visible(range: (usize, usize), index: usize) -> (visible: bool)
    ensures
        visible == (range.0 <= index && index <= range.1),
{
    range.0 <= index && index <= range.1
}

/// `a + b`, or the largest `usize` when the sum does not fit.
pub open spec fn saturating_add(a: int, b: int) -> int {
    if a + b <= usize::MAX {
        a + b
    } else {
        usize::MAX as int
    }
}

/// `a - b`, or zero when `b` is larger.
pub open spec fn saturating_sub(a: int, b: int) -> int {
    if a >= b {
        a - b
    } else {
        0
    }
}

/// The bounds `min..max` of the items shown around the selected one.
pub open spec fn spec_neighbour_window(selected: int, extra: int, n_items: int) -> (int, int) {
    let up = saturating_add(selected, extra);
    let last = saturating_sub(n_items, 1);
    (saturating_sub(selected, extra), if up <= last {
        up
    } else {
        last
    })
}

/// The selection after moving one image forward.
pub open spec fn spec_select_next(selected: int, n_items: int) -> int {
    let up = saturating_add(selected, 1);
    let last = saturating_sub(n_items, 1);
    if up <= last {
        up
    } else {
        last
    }
}

/// The selection after moving one image back.
pub open spec fn spec_select_previous(selected: int) -> int {
    saturating_sub(selected, 1)
}

/// The indices `min..max` of the items shown around the selected one: up to `extra`
/// on each side, never past the last item; `max` itself is not shown.
pub fn neighbour_window(selected: usize, extra: usize, n_items: usize) -> (window: (usize, usize))
    ensures
        window.0 == spec_neighbour_window(selected as int, extra as int, n_items as int).0,
        window.1 == spec_neighbour_window(selected as int, extra as int, n_items as int).1,
{
    let min_index: usize = selected.saturating_sub(extra);
    let up: usize = selected.saturating_add(extra);
    let last: usize = n_items.saturating_sub(1);
    let max_index: usize = if up <= last {
        up
    } else {
        last
    };
    (min_index, max_index)
}

/// The selection after moving one image forward, stopping at the last image.
pub fn select_next(selected: usize, n_items: usize) -> (next: usize)
    ensures
        next == spec_select_next(selected as int, n_items as int),
{
    let up: usize = selected.saturating_add(1);
    let last: usize = n_items.saturating_sub(1);
    if up <= last {
        up
    } else {
        last
    }
}

/// The selection after moving one image back, stopping at the first image.
pub fn select_previous(selected: usize) -> (previous: usize)
    ensures
        previous == spec_select_previous(selected as int),
{
    selected.saturating_sub(1)
}

/// What the gallery screen shows: the grid of thumbnails, or one image.
#[derive(Clone, Copy, Debug, PartialEq, Eq, Structural)]
pub enum GalleryMode {
    Grid,
    FullImage { selected: usize },
}

/// The next mode, and whether the loads started for the mode being left are cancelled.
#[derive(Clone, Copy, Debug, PartialEq, Eq, Structural)]
pub struct GalleryStep {
    pub mode: GalleryMode,
    pub cancel_loads: bool,
}

/// One frame of the gallery screen. In the grid, a clicked item opens it alone and
/// cancels the grid's loads. On one image, the right arrow moves forward and the left
/// arrow back (both when both are pressed), and Escape returns to the grid and cancels
/// the image's loads.
pub fn gallery_step(
    mode: GalleryMode,
    clicked: Option<usize>,
    right: bool,
    left: bool,
    escape: bool,
    n_items: usize,
) -> (step: GalleryStep)
    ensures
        match mode {
            GalleryMode::Grid => match clicked {
                Some(i) => step == GalleryStep { mode: GalleryMode::FullImage { selected: i }, cancel_loads: true },
                None => step == GalleryStep { mode: GalleryMode::Grid, cancel_loads: false },
            },
            GalleryMode::FullImage { selected } => {
                let after_right = if right {
                    spec_select_next(selected as int, n_items as int)
                } else {
                    selected as int
                };
                let after_left = if left {
                    spec_select_previous(after_right)
                } else {
                    after_right
                };
                if escape {
                    step == GalleryStep { mode: GalleryMode::Grid, cancel_loads: true }
                } else {
                    step.mode == GalleryMode::FullImage { selected: after_left as usize }
                        && !step.cancel_loads
                }
            },
        },
{
    match mode {
        GalleryMode::Grid => match clicked {
            Some(i) => GalleryStep { mode: GalleryMode::FullImage { selected: i }, cancel_loads: true },
            None => GalleryStep { mode: GalleryMode::Grid, cancel_loads: false },
        },
        GalleryMode::FullImage { selected } => {
            let mut current: usize = selected;
            if right {
                current = select_next(current, n_items);
            }
            if left {
                current = select_previous(current);
            }
            if escape {
                GalleryStep { mode: GalleryMode::Grid, cancel_loads: true }
            } else {
                GalleryStep { mode: GalleryMode::FullImage { selected: current }, cancel_loads: false }
            }
        },
    }
}

/// Moving through the images keeps the selection on an image, and stepping forward
/// then back (or back then forward) away from the ends returns to the same image.
pub proof fn lemma_selection_moves(selected: int, n_items: int)
    requires
        0 <= selected < n_items <= usize::MAX,
    ensures
        0 <= spec_select_next(selected, n_items) < n_items,
        0 <= spec_select_previous(selected) < n_items,
        selected + 1 < n_items ==> spec_select_previous(spec_select_next(selected, n_items)) == selected,
        selected > 0 ==> spec_select_next(spec_select_previous(selected), n_items) == selected,
        selected + 1 == n_items ==> spec_select_next(selected, n_items) == selected,
        selected == 0 ==> spec_select_previous(selected) == selected,
{
}

/// The neighbour window of a selected image starts at or before it and ends at or
/// after it, within the images, so slicing it never fails.
pub proof fn lemma_window_around_selection(selected: int, extra: int, n_items: int)
    requires
        0 <= selected < n_items <= usize::MAX,
        0 <= extra <= usize::MAX,
    ensures
        spec_neighbour_window(selected, extra, n_items).0 <= selected,
        selected <= spec_neighbour_window(selected, extra, n_items).1 < n_items,
{
}

/// Every item in a visible row is drawn: with rows `visible_start..=visible_end` in
/// view, each item whose row lies there falls within the drawn range.
pub proof fn lemma_visible_rows_are_drawn(
    visible_start: int,
    visible_end: int,
    n_items: int,
    n_columns: int,
    index: int,
)
    requires
        0 <= visible_start <= visible_end,
        n_columns > 0,
        0 <= index < n_items,
        visible_start <= index / n_columns <= visible_end,
    ensures
        spec_visible_range(visible_start, visible_end, n_items, n_columns).0 <= index,
        index <= spec_visible_range(visible_start, visible_end, n_items, n_columns).1,
{
    let c = n_columns;
    let r = index / c;
    let rows = spec_total_rows(n_items, c);
    vstd::arithmetic::div_mod::lemma_fundamental_div_mod(index, c);
    let start_row = spec_start_row(visible_start);
    assert(start_row <= r);
    assert(start_row * c <= r * c) by (nonlinear_arith)
        requires
            start_row <= r,
            c > 0,
    ;
    assert(r * c <= index) by (nonlinear_arith)
        requires
            index == c * r + index % c,
            index % c >= 0,
    ;
    // the item's row is one of the grid's rows
    assert(r < rows) by {
        vstd::arithmetic::div_mod::lemma_div_is_ordered(index, n_items - 1, c);
        vstd::arithmetic::div_mod::lemma_fundamental_div_mod(n_items - 1, c);
        vstd::arithmetic::div_mod::lemma_fundamental_div_mod(n_items + c - 1, c);
        assert(n_items + c - 1 == (n_items - 1) + c);
        vstd::arithmetic::div_mod::lemma_div_plus_one(n_items - 1, c);
    }
    let end_row = spec_end_row(visible_end, rows);
    assert(r + 1 <= end_row);
    assert((r + 1) * c <= end_row * c) by (nonlinear_arith)
        requires
            r + 1 <= end_row,
            c > 0,
    ;
    assert(index < (r + 1) * c) by (nonlinear_arith)
        requires
            index == c * r + index % c,
            index % c < c,
    ;
}

} // verus!
