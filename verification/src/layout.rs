//! Tiling layouts: how the usable area of an output is divided among windows.

use vstd::prelude::*;
use vstd::slice::slice_to_vec;

use crate::config::{BorderConfig, Config, LayoutConfig};
use crate::text::str_eq;
use crate::geometry::{fits, half, max0, rect, trunc_div, Rectangle, Point, Size, clamp_nonneg};

verus! {

/// The arrangement that the layout engine applies.
#[derive(Debug, Clone, Copy, PartialEq, Eq, Structural)]
pub enum LayoutType {
    Dwindle,
    Master,
    Spiral,
    Columns,
    Grid,
    Floating,
}

/// Computes window geometries for the current layout.
pub struct LayoutEngine {
    pub config: LayoutConfig,
    pub current_layout: LayoutType,
    pub window_count: usize,
}

// ---------------------------------------------------------------------------
// The usable area: the output minus the outer gap on every side.
// ---------------------------------------------------------------------------

/// The arithmetic that shrinks the output by the outer gap stays within `i32`.
pub open spec fn usable_area_ok(output: Rectangle, outer: i32) -> bool {
    &&& fits(output.loc.x + outer)
    &&& fits(output.loc.y + outer)
    &&& fits(2 * outer)
    &&& fits(output.size.w - 2 * outer)
    &&& fits(output.size.h - 2 * outer)
}

/// The output shrunk by `outer` on every side; a negative size becomes zero.
pub open spec fn usable_area(output: Rectangle, outer: i32) -> Rectangle {
    rect(
        output.loc.x + outer,
        output.loc.y + outer,
        max0(output.size.w - 2 * outer),
        max0(output.size.h - 2 * outer),
    )
}

// ---------------------------------------------------------------------------
// Dwindle: each window takes half of what is left, alternating between a
// vertical and a horizontal cut; the last window takes all that remains.
// ---------------------------------------------------------------------------

/// The arithmetic of cut `i` of the remaining area `r` stays within `i32`.
pub open spec fn dwindle_cut_ok(r: Rectangle, gap: i32, i: int) -> bool {
    let g2 = half(gap as int);
    if i % 2 == 0 {
        let hw = half(r.size.w as int);
        &&& fits(hw - g2)
        &&& fits(r.loc.x + hw)
        &&& fits(r.loc.x + hw + g2)
        &&& fits(r.size.w - hw)
        &&& fits(r.size.w - hw - g2)
    } else {
        let hh = half(r.size.h as int);
        &&& fits(hh - g2)
        &&& fits(r.loc.y + hh)
        &&& fits(r.loc.y + hh + g2)
        &&& fits(r.size.h - hh)
        &&& fits(r.size.h - hh - g2)
    }
}

/// The tile that cut `i` gives to window `i` out of the remaining area `r`.
pub open spec fn dwindle_tile(r: Rectangle, gap: i32, i: int) -> Rectangle {
    let g2 = half(gap as int);
    if i % 2 == 0 {
        let hw = half(r.size.w as int);
        rect(r.loc.x as int, r.loc.y as int, max0(hw - g2), max0(r.size.h as int))
    } else {
        let hh = half(r.size.h as int);
        rect(r.loc.x as int, r.loc.y as int, max0(r.size.w as int), max0(hh - g2))
    }
}

/// What remains of `r` after cut `i`.
pub open spec fn dwindle_rest(r: Rectangle, gap: i32, i: int) -> Rectangle {
    let g2 = half(gap as int);
    if i % 2 == 0 {
        let hw = half(r.size.w as int);
        rect(r.loc.x + hw + g2, r.loc.y as int, max0(r.size.w - hw - g2), r.size.h as int)
    } else {
        let hh = half(r.size.h as int);
        rect(r.loc.x as int, r.loc.y + hh + g2, r.size.w as int, max0(r.size.h - hh - g2))
    }
}

/// The area that remains before cut `i`.
pub open spec fn dwindle_remaining(area: Rectangle, gap: i32, i: nat) -> Rectangle
    decreases i,
{
    if i == 0 {
        area
    } else {
        dwindle_rest(dwindle_remaining(area, gap, (i - 1) as nat), gap, i - 1)
    }
}

/// Every cut made for `n` windows stays within `i32`.
pub open spec fn dwindle_ok(area: Rectangle, gap: i32, n: int) -> bool {
    forall|i: nat| i < n - 1 ==> #[trigger] dwindle_cut_ok(dwindle_remaining(area, gap, i), gap, i as int)
}

/// The geometry of window `i` of `n` under the dwindle layout.
pub open spec fn dwindle_rect(area: Rectangle, gap: i32, n: int, i: int) -> Rectangle {
    let r = dwindle_remaining(area, gap, i as nat);
    if i == n - 1 {
        rect(r.loc.x as int, r.loc.y as int, max0(r.size.w as int), max0(r.size.h as int))
    } else {
        dwindle_tile(r, gap, i)
    }
}

/// The dwindle layout of `n` windows.
pub open spec fn dwindle(area: Rectangle, gap: i32, n: int) -> Seq<Rectangle> {
    Seq::new(n as nat, |i: int| dwindle_rect(area, gap, n, i))
}


// ---------------------------------------------------------------------------
// Master: the first window takes three fifths of the width on the left; the
// others are stacked in equal rows on the right.
// ---------------------------------------------------------------------------

/// The width of the master column: three fifths of the area's width, rounded toward zero.
pub open spec fn master_width_of(area: Rectangle) -> int {
    trunc_div(3 * area.size.w, 5)
}

/// The height of each of the `n - 1` stacked windows.
pub open spec fn stack_height_of(area: Rectangle, gap: i32, n: int) -> int {
    trunc_div(area.size.h - (n - 2) * gap, n - 1)
}

/// The arithmetic that places stacked window `i` stays within `i32`.
pub open spec fn master_stack_ok(area: Rectangle, gap: i32, n: int, i: int) -> bool {
    let sh = stack_height_of(area, gap, n);
    &&& fits(sh + gap)
    &&& fits(i * (sh + gap))
    &&& fits(area.loc.y + i * (sh + gap))
}

/// The arithmetic of the master layout of `n` windows stays within `i32`.
pub open spec fn master_ok(area: Rectangle, gap: i32, n: int) -> bool {
    let g2 = half(gap as int);
    let mw = master_width_of(area);
    n == 0 || {
        &&& fits(mw - g2)
        &&& n > 1 ==> {
            &&& fits(area.size.w - mw)
            &&& fits(area.size.w - mw - g2)
            &&& fits((n - 2) * gap)
            &&& fits(area.size.h - (n - 2) * gap)
            &&& fits(area.loc.x + mw)
            &&& fits(area.loc.x + mw + g2)
            &&& forall|i: int| 0 <= i < n - 1 ==> #[trigger] master_stack_ok(area, gap, n, i)
        }
    }
}

/// The geometry of window `i` of `n` under the master layout.
pub open spec fn master_rect(area: Rectangle, gap: i32, n: int, i: int) -> Rectangle {
    let g2 = half(gap as int);
    let mw = master_width_of(area);
    let sh = stack_height_of(area, gap, n);
    if i == 0 {
        rect(area.loc.x as int, area.loc.y as int, max0(mw - g2), area.size.h as int)
    } else {
        rect(
            area.loc.x + mw + g2,
            area.loc.y + (i - 1) * (sh + gap),
            max0(area.size.w - mw - g2),
            max0(sh),
        )
    }
}

/// The master layout of `n` windows.
pub open spec fn master(area: Rectangle, gap: i32, n: int) -> Seq<Rectangle> {
    Seq::new(n as nat, |i: int| master_rect(area, gap, n, i))
}

// ---------------------------------------------------------------------------
// Columns: up to three columns of equal width; windows fill the columns in
// order, each column holding the same number of rows except possibly the last.
// ---------------------------------------------------------------------------

/// The number of columns: the number of windows, at most three.
pub open spec fn column_count(n: int) -> int {
    if n < 3 {
        n
    } else {
        3
    }
}

/// The width of each column.
pub open spec fn column_width_of(area: Rectangle, gap: i32, n: int) -> int {
    let c = column_count(n);
    trunc_div(area.size.w - (c - 1) * gap, c)
}

/// How many windows go into each full column.
pub open spec fn windows_per_column_of(n: int) -> int {
    let c = column_count(n);
    (n + c - 1) / c
}

/// The number of rows in column `col`.
pub open spec fn rows_in_column(n: int, col: int) -> int {
    let wpc = windows_per_column_of(n);
    if n - col * wpc < wpc {
        n - col * wpc
    } else {
        wpc
    }
}

/// The height of each window of column `col`.
pub open spec fn column_window_height(area: Rectangle, gap: i32, n: int, col: int) -> int {
    let r = rows_in_column(n, col);
    trunc_div(area.size.h - (r - 1) * gap, r)
}

/// The arithmetic that places window `i` in its column stays within `i32`.
pub open spec fn columns_cell_ok(area: Rectangle, gap: i32, n: int, i: int) -> bool {
    let wpc = windows_per_column_of(n);
    let col = i / wpc;
    let row = i % wpc;
    let r = rows_in_column(n, col);
    let cw = column_width_of(area, gap, n);
    let wh = column_window_height(area, gap, n, col);
    &&& fits((r - 1) * gap)
    &&& fits(area.size.h - (r - 1) * gap)
    &&& fits(cw + gap)
    &&& fits(col * (cw + gap))
    &&& fits(area.loc.x + col * (cw + gap))
    &&& fits(wh + gap)
    &&& fits(row * (wh + gap))
    &&& fits(area.loc.y + row * (wh + gap))
}

/// The arithmetic of the columns layout of `n` windows stays within `i32`.
pub open spec fn columns_ok(area: Rectangle, gap: i32, n: int) -> bool {
    let c = column_count(n);
    n == 0 || {
        &&& fits((c - 1) * gap)
        &&& fits(area.size.w - (c - 1) * gap)
        &&& forall|i: int| 0 <= i < n ==> #[trigger] columns_cell_ok(area, gap, n, i)
    }
}

/// The geometry of window `i` of `n` under the columns layout.
pub open spec fn columns_rect(area: Rectangle, gap: i32, n: int, i: int) -> Rectangle {
    let wpc = windows_per_column_of(n);
    let col = i / wpc;
    let row = i % wpc;
    let cw = column_width_of(area, gap, n);
    let wh = column_window_height(area, gap, n, col);
    rect(area.loc.x + col * (cw + gap), area.loc.y + row * (wh + gap), max0(cw), max0(wh))
}

/// The columns layout of `n` windows.
pub open spec fn columns(area: Rectangle, gap: i32, n: int) -> Seq<Rectangle> {
    Seq::new(n as nat, |i: int| columns_rect(area, gap, n, i))
}

// ---------------------------------------------------------------------------
// Grid: cells of equal size, filled row by row, with as many columns as the
// rounded-up square root of the number of windows.
// ---------------------------------------------------------------------------

/// `c` is the square root of `n` rounded up (for `n >= 1`).
pub open spec fn is_ceil_sqrt(n: int, c: int) -> bool {
    &&& c >= 1
    &&& c * c >= n
    &&& (c - 1) * (c - 1) < n
}

/// The square root of `n`, rounded up.
pub open spec fn ceil_sqrt(n: int) -> int {
    choose|c: int| is_ceil_sqrt(n, c)
}

/// The number of grid columns.
pub open spec fn grid_cols(n: int) -> int {
    ceil_sqrt(n)
}

/// The number of grid rows: the number of windows over the number of columns, rounded up.
pub open spec fn grid_rows(n: int) -> int {
    let c = grid_cols(n);
    (n + c - 1) / c
}

/// The width of each grid cell.
pub open spec fn grid_cell_width(area: Rectangle, gap: i32, n: int) -> int {
    let c = grid_cols(n);
    trunc_div(area.size.w - (c - 1) * gap, c)
}

/// The height of each grid cell.
pub open spec fn grid_cell_height(area: Rectangle, gap: i32, n: int) -> int {
    let r = grid_rows(n);
    trunc_div(area.size.h - (r - 1) * gap, r)
}

/// The arithmetic that places window `i` in the grid stays within `i32`.
pub open spec fn grid_cell_ok(area: Rectangle, gap: i32, n: int, i: int) -> bool {
    let c = grid_cols(n);
    let cw = grid_cell_width(area, gap, n);
    let ch = grid_cell_height(area, gap, n);
    &&& fits(cw + gap)
    &&& fits((i % c) * (cw + gap))
    &&& fits(area.loc.x + (i % c) * (cw + gap))
    &&& fits(ch + gap)
    &&& fits((i / c) * (ch + gap))
    &&& fits(area.loc.y + (i / c) * (ch + gap))
}

/// The arithmetic of the grid layout of `n` windows stays within `i32`.
pub open spec fn grid_ok(area: Rectangle, gap: i32, n: int) -> bool {
    let c = grid_cols(n);
    let r = grid_rows(n);
    n == 0 || {
        &&& fits((c - 1) * gap)
        &&& fits(area.size.w - (c - 1) * gap)
        &&& fits((r - 1) * gap)
        &&& fits(area.size.h - (r - 1) * gap)
        &&& forall|i: int| 0 <= i < n ==> #[trigger] grid_cell_ok(area, gap, n, i)
    }
}

/// The geometry of window `i` of `n` under the grid layout.
pub open spec fn grid_rect(area: Rectangle, gap: i32, n: int, i: int) -> Rectangle {
    let c = grid_cols(n);
    let cw = grid_cell_width(area, gap, n);
    let ch = grid_cell_height(area, gap, n);
    rect(
        area.loc.x + (i % c) * (cw + gap),
        area.loc.y + (i / c) * (ch + gap),
        max0(cw),
        max0(ch),
    )
}

/// The grid layout of `n` windows.
pub open spec fn grid(area: Rectangle, gap: i32, n: int) -> Seq<Rectangle> {
    Seq::new(n as nat, |i: int| grid_rect(area, gap, n, i))
}

// ---------------------------------------------------------------------------
// The engine
// ---------------------------------------------------------------------------

/// The arithmetic of `layout` for `n` windows in `area` stays within `i32`.
pub open spec fn layout_ok(layout: LayoutType, area: Rectangle, gap: i32, n: int) -> bool {
    match layout {
        LayoutType::Dwindle | LayoutType::Spiral => dwindle_ok(area, gap, n),
        LayoutType::Master => master_ok(area, gap, n),
        LayoutType::Columns => columns_ok(area, gap, n),
        LayoutType::Grid => grid_ok(area, gap, n),
        LayoutType::Floating => true,
    }
}

/// The geometries that `layout` gives to `windows` inside `area`; the floating
/// layout keeps every window where it is.
pub open spec fn layout_tiles(
    layout: LayoutType,
    windows: Seq<Rectangle>,
    area: Rectangle,
    gap: i32,
) -> Seq<Rectangle> {
    let n = windows.len() as int;
    match layout {
        LayoutType::Dwindle | LayoutType::Spiral => dwindle(area, gap, n),
        LayoutType::Master => master(area, gap, n),
        LayoutType::Columns => columns(area, gap, n),
        LayoutType::Grid => grid(area, gap, n),
        LayoutType::Floating => windows,
    }
}

/// The layouts whose arithmetic takes the window count as an `i32`.
pub open spec fn counts_in_i32(layout: LayoutType) -> bool {
    layout is Master || layout is Columns || layout is Grid
}

impl LayoutEngine {
    /// The gap between windows, as the engine computes with it.
    pub open spec fn inner_gap(&self) -> i32 {
        self.config.gaps.inner as i32
    }

    /// The gap around the output's edge, as the engine computes with it.
    pub open spec fn outer_gap(&self) -> i32 {
        self.config.gaps.outer as i32
    }

    /// The part of `output` that tiles may use.
    pub open spec fn usable(&self, output: Rectangle) -> Rectangle {
        usable_area(output, self.outer_gap())
    }

    /// Arranging `n` windows on `output` keeps all arithmetic within `i32`;
    /// the layouts that compute with the window count as an `i32` (master,
    /// columns and grid) need it to be one.
    pub open spec fn can_arrange(&self, n: int, output: Rectangle) -> bool {
        &&& counts_in_i32(self.current_layout) ==> n <= i32::MAX
        &&& usable_area_ok(output, self.outer_gap())
        &&& layout_ok(self.current_layout, self.usable(output), self.inner_gap(), n)
    }

    /// The geometries that `arrange` returns.
    pub open spec fn arrangement(&self, windows: Seq<Rectangle>, output: Rectangle) -> Seq<
        Rectangle,
    > {
        layout_tiles(self.current_layout, windows, self.usable(output), self.inner_gap())
    }
}

/// The layout that a configured layout name selects; an unknown name selects dwindle.
pub open spec fn layout_for_name(name: Seq<char>) -> LayoutType {
    if name == "master"@ {
        LayoutType::Master
    } else if name == "spiral"@ {
        LayoutType::Spiral
    } else if name == "columns"@ {
        LayoutType::Columns
    } else if name == "grid"@ {
        LayoutType::Grid
    } else if name == "floating"@ {
        LayoutType::Floating
    } else {
        LayoutType::Dwindle
    }
}

impl LayoutEngine {
    /// An engine for `config`, starting with the layout that `config.layout.default` names.
    pub fn new(config: &Config) -> (engine: Self)
        ensures
            engine.current_layout == layout_for_name(config.layout.default@),
            engine.config == config.layout,
            engine.window_count == 0,
    {
        let name = config.layout.default.as_str();
        let current_layout = if str_eq(name, "master") {
            LayoutType::Master
        } else if str_eq(name, "spiral") {
            LayoutType::Spiral
        } else if str_eq(name, "columns") {
            LayoutType::Columns
        } else if str_eq(name, "grid") {
            LayoutType::Grid
        } else if str_eq(name, "floating") {
            LayoutType::Floating
        } else {
            LayoutType::Dwindle
        };
        let layout = LayoutConfig {
            default: config.layout.default.clone(),
            gaps: config.layout.gaps,
            borders: BorderConfig {
                width: config.layout.borders.width,
                focused: config.layout.borders.focused.clone(),
                unfocused: config.layout.borders.unfocused.clone(),
                urgent: config.layout.borders.urgent.clone(),
            },
        };
        LayoutEngine { config: layout, current_layout, window_count: 0 }
    }

    /// Switches to `layout`.
    pub fn set_layout(&mut self, layout: LayoutType)
        ensures
            final(self).current_layout == layout,
            final(self).config == old(self).config,
            final(self).window_count == old(self).window_count,
    {
        self.current_layout = layout;
    }

    /// The geometry of each window of `windows` on `output_area` under the
    /// current layout, one per window and in the same order.
    pub fn arrange(&self, windows: &[Rectangle], output_area: Rectangle) -> (result: Vec<Rectangle>)
        requires
            self.can_arrange(windows@.len() as int, output_area),
        ensures
            result@ == self.arrangement(windows@, output_area),
    {
        let gaps = &self.config.gaps;
        let border_width = self.config.borders.width as i32;

        let inner_gap = gaps.inner as i32;
        let outer_gap = gaps.outer as i32;

        let usable_area = Rectangle::new(
            Point { x: output_area.loc.x + outer_gap, y: output_area.loc.y + outer_gap },
            Size {
                w: clamp_nonneg(output_area.size.w - 2 * outer_gap),
                h: clamp_nonneg(output_area.size.h - 2 * outer_gap),
            },
        );
        assert(usable_area == self.usable(output_area));

        match self.current_layout {
            LayoutType::Dwindle => self.arrange_dwindle(windows, usable_area, inner_gap, border_width),
            LayoutType::Master => self.arrange_master(windows, usable_area, inner_gap, border_width),
            LayoutType::Spiral => self.arrange_spiral(windows, usable_area, inner_gap, border_width),
            LayoutType::Columns => self.arrange_columns(windows, usable_area, inner_gap, border_width),
            LayoutType::Grid => self.arrange_grid(windows, usable_area, inner_gap, border_width),
            LayoutType::Floating => slice_to_vec(windows),
        }
    }

    /// The dwindle layout of `windows` on `area`: each window but the last
    /// takes half of what is left, cutting it side by side and then top and
    /// bottom in turn; the last takes all that remains.
    pub fn arrange_dwindle(
        &self,
        windows: &[Rectangle],
        area: Rectangle,
        gap: i32,
        _border: i32,
    ) -> (result: Vec<Rectangle>)
        requires
            dwindle_ok(area, gap, windows@.len() as int),
        ensures
            result@ == dwindle(area, gap, windows@.len() as int),
    {
        if windows.len() == 0 {
            return Vec::new();
        }
        let ghost n = windows@.len() as int;
        let mut result: Vec<Rectangle> = Vec::with_capacity(windows.len());
        let mut remaining_area = area;
        let total = windows.len();

        let mut i: usize = 0;
        while i < total
            invariant
                0 <= i <= total,
                total == n,
                total > 0,
                dwindle_ok(area, gap, n),
                i < total ==> remaining_area == dwindle_remaining(area, gap, i as nat),
                result@.len() == i,
                forall|j: int| 0 <= j < i ==> result@[j] == dwindle_rect(area, gap, n, j),
            decreases total - i,
        {
            let is_last = i == total - 1;
            let geo = if is_last {
                Rectangle::new(
                    Point { x: remaining_area.loc.x, y: remaining_area.loc.y },
                    Size {
                        w: clamp_nonneg(remaining_area.size.w),
                        h: clamp_nonneg(remaining_area.size.h),
                    },
                )
            } else {
                assert(dwindle_cut_ok(dwindle_remaining(area, gap, i as nat), gap, i as nat as int));
                let split_vertical = i % 2 == 0;
                if split_vertical {
                    let half_width = remaining_area.size.w / 2;
                    let geo = Rectangle::new(
                        Point { x: remaining_area.loc.x, y: remaining_area.loc.y },
                        Size {
                            w: clamp_nonneg(half_width - gap / 2),
                            h: clamp_nonneg(remaining_area.size.h),
                        },
                    );
                    remaining_area = Rectangle::new(
                        Point {
                            x: remaining_area.loc.x + half_width + gap / 2,
                            y: remaining_area.loc.y,
                        },
                        Size {
                            w: clamp_nonneg(remaining_area.size.w - half_width - gap / 2),
                            h: remaining_area.size.h,
                        },
                    );
                    geo
                } else {
                    let half_height = remaining_area.size.h / 2;
                    let geo = Rectangle::new(
                        Point { x: remaining_area.loc.x, y: remaining_area.loc.y },
                        Size {
                            w: clamp_nonneg(remaining_area.size.w),
                            h: clamp_nonneg(half_height - gap / 2),
                        },
                    );
                    remaining_area = Rectangle::new(
                        Point {
                            x: remaining_area.loc.x,
                            y: remaining_area.loc.y + half_height + gap / 2,
                        },
                        Size {
                            w: remaining_area.size.w,
                            h: clamp_nonneg(remaining_area.size.h - half_height - gap / 2),
                        },
                    );
                    geo
                }
            };
            result.push(geo);
            i += 1;
        }
        assert(result@ =~= dwindle(area, gap, n));
        result
    }

    fn arrange_master(
        &self,
        windows: &[Rectangle],
        area: Rectangle,
        gap: i32,
        _border: i32,
    ) -> (result: Vec<Rectangle>)
        requires
            windows@.len() <= i32::MAX,
            master_ok(area, gap, windows@.len() as int),
        ensures
            result@ == master(area, gap, windows@.len() as int),
    {
        if windows.len() == 0 {
            return Vec::new();
        }
        let ghost n = windows@.len() as int;
        let mut result: Vec<Rectangle> = Vec::with_capacity(windows.len());
        let master_width = (area.size.w as i64 * 3 / 5) as i32;

        let master_geo = Rectangle::new(
            Point { x: area.loc.x, y: area.loc.y },
            Size { w: clamp_nonneg(master_width - gap / 2), h: area.size.h },
        );
        result.push(master_geo);

        if windows.len() > 1 {
            let stack_count = windows.len() - 1;
            let stack_width = clamp_nonneg(area.size.w - master_width - gap / 2);
            let stack_height = (area.size.h - (stack_count - 1) as i32 * gap) / stack_count as i32;
            assert(stack_height == stack_height_of(area, gap, n));

            let mut i: usize = 0;
            while i < stack_count
                invariant
                    0 <= i <= stack_count,
                    stack_count == n - 1,
                    n <= i32::MAX,
                    master_ok(area, gap, n),
                    master_width == master_width_of(area),
                    stack_width == max0(area.size.w - master_width_of(area) - half(gap as int)),
                    stack_height == stack_height_of(area, gap, n),
                    result@.len() == i + 1,
                    forall|j: int| 0 <= j <= i ==> result@[j] == master_rect(area, gap, n, j),
                decreases stack_count - i,
            {
                assert(master_stack_ok(area, gap, n, i as int));
                let geo = Rectangle::new(
                    Point {
                        x: area.loc.x + master_width + gap / 2,
                        y: area.loc.y + i as i32 * (stack_height + gap),
                    },
                    Size { w: stack_width, h: clamp_nonneg(stack_height) },
                );
                result.push(geo);
                i += 1;
            }
        }
        assert(result@ =~= master(area, gap, n));
        result
    }

    /// The spiral layout, which places windows exactly as the dwindle layout
    /// does: same requirement, same result.
    pub fn arrange_spiral(
        &self,
        windows: &[Rectangle],
        area: Rectangle,
        gap: i32,
        border: i32,
    ) -> (result: Vec<Rectangle>)
        requires
            dwindle_ok(area, gap, windows@.len() as int),
        ensures
            result@ == dwindle(area, gap, windows@.len() as int),
    {
        self.arrange_dwindle(windows, area, gap, border)
    }

    fn arrange_columns(
        &self,
        windows: &[Rectangle],
        area: Rectangle,
        gap: i32,
        _border: i32,
    ) -> (result: Vec<Rectangle>)
        requires
            windows@.len() <= i32::MAX,
            columns_ok(area, gap, windows@.len() as int),
        ensures
            result@ == columns(area, gap, windows@.len() as int),
    {
        if windows.len() == 0 {
            return Vec::new();
        }
        let ghost n = windows@.len() as int;
        let total = windows.len();
        let mut result: Vec<Rectangle> = Vec::with_capacity(windows.len());
        let column_count = (if total < 3 { total } else { 3 }) as i32;
        let column_width = (area.size.w - (column_count - 1) * gap) / column_count;
        let windows_per_column = (total + (column_count as usize) - 1) / (column_count as usize);
        assert(1 <= windows_per_column <= total) by (nonlinear_arith)
            requires
                windows_per_column as int == (total + column_count - 1) as int / column_count as int,
                1 <= column_count <= 3,
                total >= 1,
        ;

        let mut i: usize = 0;
        while i < total
            invariant
                0 <= i <= total,
                total == n,
                n <= i32::MAX,
                columns_ok(area, gap, n),
                column_width == column_width_of(area, gap, n),
                windows_per_column == windows_per_column_of(n),
                1 <= windows_per_column <= total,
                result@.len() == i,
                forall|j: int| 0 <= j < i ==> result@[j] == columns_rect(area, gap, n, j),
            decreases total - i,
        {
            assert(columns_cell_ok(area, gap, n, i as int));
            let col = i / windows_per_column;
            let row = i % windows_per_column;
            assert(col * windows_per_column <= i) by (nonlinear_arith)
                requires
                    col == i / windows_per_column,
                    windows_per_column >= 1,
            ;
            let left = total - col * windows_per_column;
            let rows_in_col = (if left < windows_per_column { left } else { windows_per_column }) as i32;
            let window_height = (area.size.h - (rows_in_col - 1) * gap) / rows_in_col;
            let geo = Rectangle::new(
                Point {
                    x: area.loc.x + col as i32 * (column_width + gap),
                    y: area.loc.y + row as i32 * (window_height + gap),
                },
                Size { w: clamp_nonneg(column_width), h: clamp_nonneg(window_height) },
            );
            result.push(geo);
            i += 1;
        }
        assert(result@ =~= columns(area, gap, n));
        result
    }

    fn arrange_grid(
        &self,
        windows: &[Rectangle],
        area: Rectangle,
        gap: i32,
        _border: i32,
    ) -> (result: Vec<Rectangle>)
        requires
            windows@.len() <= i32::MAX,
            grid_ok(area, gap, windows@.len() as int),
        ensures
            result@ == grid(area, gap, windows@.len() as int),
    {
        if windows.len() == 0 {
            return Vec::new();
        }
        let ghost n = windows@.len() as int;
        let total = windows.len();
        let mut result: Vec<Rectangle> = Vec::with_capacity(windows.len());
        let cols = ceil_sqrt_exec(total);
        proof {
            lemma_ceil_sqrt_bounds(n);
        }
        let rows = (total + cols - 1) / cols;
        assert(1 <= rows <= total) by (nonlinear_arith)
            requires
                rows as int == (total + cols - 1) as int / cols as int,
                1 <= cols <= total,
        ;
        let cell_width = (area.size.w - (cols as i32 - 1) * gap) / cols as i32;
        let cell_height = (area.size.h - (rows as i32 - 1) * gap) / rows as i32;

        let mut i: usize = 0;
        while i < total
            invariant
                0 <= i <= total,
                total == n,
                n <= i32::MAX,
                grid_ok(area, gap, n),
                cols == grid_cols(n),
                1 <= cols <= n,
                cell_width == grid_cell_width(area, gap, n),
                cell_height == grid_cell_height(area, gap, n),
                result@.len() == i,
                forall|j: int| 0 <= j < i ==> result@[j] == grid_rect(area, gap, n, j),
            decreases total - i,
        {
            assert(grid_cell_ok(area, gap, n, i as int));
            let col = (i % cols) as i32;
            let row = (i / cols) as i32;
            let geo = Rectangle::new(
                Point {
                    x: area.loc.x + col * (cell_width + gap),
                    y: area.loc.y + row * (cell_height + gap),
                },
                Size { w: clamp_nonneg(cell_width), h: clamp_nonneg(cell_height) },
            );
            result.push(geo);
            i += 1;
        }
        assert(result@ =~= grid(area, gap, n));
        result
    }
}

/// Two numbers that are both the rounded-up square root of `n` are equal.
proof fn lemma_ceil_sqrt_unique(n: int, a: int, b: int)
    requires
        is_ceil_sqrt(n, a),
        is_ceil_sqrt(n, b),
    ensures
        a == b,
{
    if a < b {
        assert(a * a <= (b - 1) * (b - 1)) by (nonlinear_arith)
            requires
                1 <= a <= b - 1,
        ;
    } else if b < a {
        assert(b * b <= (a - 1) * (a - 1)) by (nonlinear_arith)
            requires
                1 <= b <= a - 1,
        ;
    }
}

/// Some `d >= c` is the rounded-up square root of `n`.
proof fn lemma_ceil_sqrt_exists_from(n: int, c: int)
    requires
        c >= 1,
        (c - 1) * (c - 1) < n,
        c <= n,
    ensures
        exists|d: int| is_ceil_sqrt(n, d),
    decreases n - c,
{
    if c * c >= n {
        assert(is_ceil_sqrt(n, c));
    } else {
        assert(c + 1 <= n) by (nonlinear_arith)
            requires
                c >= 1,
                c * c < n,
        ;
        lemma_ceil_sqrt_exists_from(n, c + 1);
    }
}

/// The rounded-up square root of a positive `n` exists and lies between 1 and `n`.
pub proof fn lemma_ceil_sqrt_bounds(n: int)
    requires
        n >= 1,
    ensures
        is_ceil_sqrt(n, ceil_sqrt(n)),
        1 <= ceil_sqrt(n) <= n,
        ceil_sqrt(n) * ceil_sqrt(n) >= n,
{
    lemma_ceil_sqrt_exists_from(n, 1);
    let d = ceil_sqrt(n);
    assert(is_ceil_sqrt(n, d));
    assert(d <= n) by (nonlinear_arith)
        requires
            d >= 1,
            (d - 1) * (d - 1) < n,
            n >= 1,
    ;
}

/// The square root of `n` rounded up, for `1 <= n <= i32::MAX`.
pub(crate) fn ceil_sqrt_exec(n: usize) -> (c: usize)
    requires
        1 <= n <= i32::MAX,
    ensures
        c == ceil_sqrt(n as int),
{
    let mut c: u64 = 1;
    let target = n as u64;
    while c * c < target
        invariant
            c >= 1,
            (c - 1) * (c - 1) < target,
            c <= target,
            c * c <= 0x1_0000_0000u64,
            target == n,
            n <= i32::MAX,
        decreases target - c,
    {
        assert(c + 1 <= target && (c + 1) * (c + 1) <= 0x1_0000_0000u64) by (nonlinear_arith)
            requires
                c >= 1,
                c * c < target,
                target <= 0x7fff_ffff,
        ;
        c = c + 1;
    }
    proof {
        assert(is_ceil_sqrt(n as int, c as int));
        lemma_ceil_sqrt_bounds(n as int);
        lemma_ceil_sqrt_unique(n as int, c as int, ceil_sqrt(n as int));
    }
    c as usize
}

} // verus!
