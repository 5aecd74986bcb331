//! Deciding, before arranging, whether a layout's arithmetic stays within
//! `i32`, so that callers can arrange any input without a precondition.

use vstd::prelude::*;

use crate::geometry::{fits, half, trunc_div, Point, Rectangle, Size};
use crate::layout::{
    ceil_sqrt_exec, column_width_of, column_window_height, columns_cell_ok,
    columns_ok, dwindle_cut_ok, dwindle_ok, dwindle_remaining, grid_cell_height,
    grid_cell_ok, grid_cell_width, grid_cols, grid_ok, grid_rows, lemma_ceil_sqrt_bounds, master_ok, master_stack_ok, master_width_of, rows_in_column,
    stack_height_of, usable_area_ok, windows_per_column_of, LayoutEngine, LayoutType,
};

verus! {

/// Whether `v` fits in an `i32`.
fn fits_wide(v: i128) -> (r: bool)
    ensures
        r == fits(v as int),
{
    -2147483648i128 <= v && v <= 2147483647i128
}

/// Division rounding toward zero.
fn div_wide(a: i128, b: i128) -> (r: i128)
    requires
        b > 0,
        -0x1_0000_0000_0000_0000_0000i128 < a < 0x1_0000_0000_0000_0000_0000i128,
    ensures
        r == trunc_div(a as int, b as int),
        -0x1_0000_0000_0000_0000_0000i128 < r < 0x1_0000_0000_0000_0000_0000i128,
{
    let r = a / b;
    assert(trunc_div(a as int, b as int) == r) by {
        if a >= 0 {
            assert(0 <= (a as int) / (b as int) <= a) by (nonlinear_arith)
                requires
                    a >= 0,
                    b >= 1,
            ;
        } else {
            assert(0 <= (-a as int) / (b as int) <= -a) by (nonlinear_arith)
                requires
                    a < 0,
                    b >= 1,
            ;
        }
    }
    r
}

/// The product of two numbers of at most 39 bits.
fn mul_wide(a: i128, b: i128) -> (r: i128)
    requires
        -0x80_0000_0000i128 <= a <= 0x80_0000_0000i128,
        -0x80_0000_0000i128 <= b <= 0x80_0000_0000i128,
    ensures
        r == a * b,
        -0x1_0000_0000_0000_0000_0000i128 < r < 0x1_0000_0000_0000_0000_0000i128,
{
    proof {
        let bound: int = 0x80_0000_0000;
        let ai = a as int;
        let bi = b as int;
        let pa = if ai < 0 { -ai } else { ai };
        let pb = if bi < 0 { -bi } else { bi };
        assert(pa * pb <= bound * bound) by (nonlinear_arith)
            requires
                0 <= pa <= bound,
                0 <= pb <= bound,
        ;
        assert(pa * pb == if (ai < 0) == (bi < 0) { ai * bi } else { -(ai * bi) }) by (nonlinear_arith)
            requires
                pa == if ai < 0 { -ai } else { ai },
                pb == if bi < 0 { -bi } else { bi },
        ;
        assert(bound * bound == 0x40_0000_0000_0000_0000_00);
    }
    a * b
}

/// Whether shrinking `output` by `outer` stays within `i32`.
fn usable_area_fits(output: Rectangle, outer: i32) -> (ok: bool)
    ensures
        ok == usable_area_ok(output, outer),
{
    let o = outer as i128;
    fits_wide(output.loc.x as i128 + o) && fits_wide(output.loc.y as i128 + o) && fits_wide(2 * o)
        && fits_wide(output.size.w as i128 - 2 * o) && fits_wide(output.size.h as i128 - 2 * o)
}

/// Whether the dwindle layout of `n` windows stays within `i32`.
fn dwindle_fits(area: Rectangle, gap: i32, n: usize) -> (ok: bool)
    ensures
        ok == dwindle_ok(area, gap, n as int),
{
    if n == 0 {
        return true;
    }
    let mut remaining = area;
    let mut i: usize = 0;
    let g2 = gap as i128 / 2;
    assert(g2 == half(gap as int));
    while i + 1 < n
        invariant
            0 <= i < n,
            g2 == half(gap as int),
            remaining == dwindle_remaining(area, gap, i as nat),
            forall|j: nat|
                j < i ==> #[trigger] dwindle_cut_ok(dwindle_remaining(area, gap, j), gap, j as int),
        decreases n - i,
    {
        let x = remaining.loc.x as i128;
        let y = remaining.loc.y as i128;
        let w = remaining.size.w as i128;
        let h = remaining.size.h as i128;
        if i % 2 == 0 {
            let hw = w / 2;
            assert(hw == half(w as int));
            if !(fits_wide(hw - g2) && fits_wide(x + hw) && fits_wide(x + hw + g2) && fits_wide(
                w - hw,
            ) && fits_wide(w - hw - g2)) {
                assert(!dwindle_cut_ok(dwindle_remaining(area, gap, i as nat), gap, i as nat as int));
                return false;
            }
            let rest_w = w - hw - g2;
            remaining = Rectangle {
                loc: Point { x: (x + hw + g2) as i32, y: remaining.loc.y },
                size: Size {
                    w: if rest_w < 0 {
                        0
                    } else {
                        rest_w as i32
                    },
                    h: remaining.size.h,
                },
            };
        } else {
            let hh = h / 2;
            assert(hh == half(h as int));
            if !(fits_wide(hh - g2) && fits_wide(y + hh) && fits_wide(y + hh + g2) && fits_wide(
                h - hh,
            ) && fits_wide(h - hh - g2)) {
                assert(!dwindle_cut_ok(dwindle_remaining(area, gap, i as nat), gap, i as nat as int));
                return false;
            }
            let rest_h = h - hh - g2;
            remaining = Rectangle {
                loc: Point { x: remaining.loc.x, y: (y + hh + g2) as i32 },
                size: Size {
                    w: remaining.size.w,
                    h: if rest_h < 0 {
                        0
                    } else {
                        rest_h as i32
                    },
                },
            };
        }
        assert(dwindle_cut_ok(dwindle_remaining(area, gap, i as nat), gap, i as nat as int));
        i += 1;
    }
    true
}

/// Whether the master layout of `n` windows stays within `i32`.
fn master_fits(area: Rectangle, gap: i32, n: usize) -> (ok: bool)
    requires
        n <= i32::MAX,
    ensures
        ok == master_ok(area, gap, n as int),
{
    if n == 0 {
        return true;
    }
    let x = area.loc.x as i128;
    let y = area.loc.y as i128;
    let w = area.size.w as i128;
    let h = area.size.h as i128;
    let g = gap as i128;
    let g2 = g / 2;
    assert(g2 == half(gap as int));
    let mw = div_wide(3 * w, 5);
    assert(mw == master_width_of(area));
    if !fits_wide(mw - g2) {
        return false;
    }
    if n > 1 {
        let m = n as i128;
        let prod = mul_wide(m - 2, g);
        assert(-0x1_0000_0000_0000_0000i128 < prod < 0x1_0000_0000_0000_0000i128) by (nonlinear_arith)
            requires
                prod == (m - 2) * g,
                0 <= m - 2 < 0x8000_0000,
                -0x8000_0000 <= g < 0x8000_0000,
        ;
        if !(fits_wide(w - mw) && fits_wide(w - mw - g2) && fits_wide(prod) && fits_wide(h - prod)
            && fits_wide(x + mw) && fits_wide(x + mw + g2)) {
            return false;
        }
        let sh = div_wide(h - prod, m - 1);
        assert(sh == stack_height_of(area, gap, n as int));
        let mut i: usize = 0;
        while i < n - 1
            invariant
                0 <= i <= n - 1,
                n <= i32::MAX,
                sh == stack_height_of(area, gap, n as int),
                -0x1_0000_0000i128 <= sh <= 0x1_0000_0000i128,
                y == area.loc.y,
                g == gap,
                forall|j: int| 0 <= j < i ==> #[trigger] master_stack_ok(area, gap, n as int, j),
            decreases n - 1 - i,
        {
            let step = sh + g;
            let k = i as i128;
            assert(-0x1_0000_0000_0000_0000i128 < k * step < 0x1_0000_0000_0000_0000i128) by (nonlinear_arith)
                requires
                    0 <= k < 0x8000_0000,
                    -0x2_0000_0000 <= step <= 0x2_0000_0000,
            ;
            if !(fits_wide(step) && fits_wide(k * step) && fits_wide(y + k * step)) {
                assert(!master_stack_ok(area, gap, n as int, i as int));
                return false;
            }
            i += 1;
        }
    }
    true
}

/// Whether the columns layout of `n` windows stays within `i32`.
fn columns_fits(area: Rectangle, gap: i32, n: usize) -> (ok: bool)
    requires
        n <= i32::MAX,
    ensures
        ok == columns_ok(area, gap, n as int),
{
    if n == 0 {
        return true;
    }
    let x = area.loc.x as i128;
    let y = area.loc.y as i128;
    let w = area.size.w as i128;
    let h = area.size.h as i128;
    let g = gap as i128;
    let c: usize = if n < 3 {
        n
    } else {
        3
    };
    let cw_prod = mul_wide(c as i128 - 1, g);
    if !(fits_wide(cw_prod) && fits_wide(w - cw_prod)) {
        return false;
    }
    let cw = div_wide(w - cw_prod, c as i128);
    assert(cw == column_width_of(area, gap, n as int));
    let wpc = (n + c - 1) / c;
    assert(1 <= wpc <= n) by (nonlinear_arith)
        requires
            wpc as int == (n + c - 1) as int / c as int,
            1 <= c <= 3,
            n >= 1,
    ;
    assert(wpc == windows_per_column_of(n as int));
    let mut i: usize = 0;
    while i < n
        invariant
            0 <= i <= n,
            n <= i32::MAX,
            x == area.loc.x,
            y == area.loc.y,
            h == area.size.h,
            g == gap,
            cw == column_width_of(area, gap, n as int),
            -0x1_0000_0000i128 <= cw <= 0x1_0000_0000i128,
            wpc == windows_per_column_of(n as int),
            1 <= wpc <= n,
            forall|j: int| 0 <= j < i ==> #[trigger] columns_cell_ok(area, gap, n as int, j),
        decreases n - i,
    {
        let col = i / wpc;
        let row = i % wpc;
        assert(col * wpc <= i && row < wpc && col <= i) by (nonlinear_arith)
            requires
                col == i / wpc,
                row == i % wpc,
                wpc >= 1,
        ;
        let left = n - col * wpc;
        let r = if left < wpc {
            left
        } else {
            wpc
        };
        assert(r == rows_in_column(n as int, col as int));
        let rk = r as i128;
        let col_k = col as i128;
        let row_k = row as i128;
        let rprod = mul_wide(rk - 1, g);
        assert(-0x1_0000_0000_0000_0000i128 < rprod < 0x1_0000_0000_0000_0000i128) by (nonlinear_arith)
            requires
                rprod == (rk - 1) * g,
                0 <= rk - 1 < 0x8000_0000,
                -0x8000_0000 <= g < 0x8000_0000,
        ;
        let numerator = h - rprod;
        let wh = div_wide(numerator, rk);
        assert(wh == column_window_height(area, gap, n as int, col as int));
        let cstep = cw + g;
        let rstep = wh + g;
        assert(-0x1_0000_0000_0000_0000_0000i128 < col_k * cstep < 0x1_0000_0000_0000_0000_0000i128)
            by (nonlinear_arith)
            requires
                0 <= col_k < 0x8000_0000,
                -0x2_0000_0000 <= cstep <= 0x2_0000_0000,
        ;
        if !(fits_wide(rprod) && fits_wide(numerator) && fits_wide(cstep) && fits_wide(
            col_k * cstep,
        ) && fits_wide(x + col_k * cstep) && fits_wide(rstep)) {
            assert(!columns_cell_ok(area, gap, n as int, i as int));
            return false;
        }
        assert(-0x1_0000_0000_0000_0000_0000i128 < row_k * rstep < 0x1_0000_0000_0000_0000_0000i128)
            by (nonlinear_arith)
            requires
                0 <= row_k < 0x8000_0000,
                -0x8000_0000 <= rstep < 0x8000_0000,
        ;
        if !(fits_wide(row_k * rstep) && fits_wide(y + row_k * rstep)) {
            assert(!columns_cell_ok(area, gap, n as int, i as int));
            return false;
        }
        assert(columns_cell_ok(area, gap, n as int, i as int));
        i += 1;
    }
    true
}

/// Whether the grid layout of `n` windows stays within `i32`.
fn grid_fits(area: Rectangle, gap: i32, n: usize) -> (ok: bool)
    requires
        n <= i32::MAX,
    ensures
        ok == grid_ok(area, gap, n as int),
{
    if n == 0 {
        return true;
    }
    let x = area.loc.x as i128;
    let y = area.loc.y as i128;
    let w = area.size.w as i128;
    let h = area.size.h as i128;
    let g = gap as i128;
    let cols = ceil_sqrt_exec(n);
    proof {
        lemma_ceil_sqrt_bounds(n as int);
    }
    let rows = (n + cols - 1) / cols;
    assert(1 <= rows <= n) by (nonlinear_arith)
        requires
            rows as int == (n + cols - 1) as int / cols as int,
            1 <= cols <= n,
    ;
    assert(rows == grid_rows(n as int));
    let cprod = mul_wide(cols as i128 - 1, g);
    let rprod = mul_wide(rows as i128 - 1, g);
    assert(-0x1_0000_0000_0000_0000i128 < cprod < 0x1_0000_0000_0000_0000i128) by (nonlinear_arith)
        requires
            cprod == (cols as i128 - 1) * g,
            0 <= cols - 1 < 0x8000_0000,
            -0x8000_0000 <= g < 0x8000_0000,
    ;
    assert(-0x1_0000_0000_0000_0000i128 < rprod < 0x1_0000_0000_0000_0000i128) by (nonlinear_arith)
        requires
            rprod == (rows as i128 - 1) * g,
            0 <= rows - 1 < 0x8000_0000,
            -0x8000_0000 <= g < 0x8000_0000,
    ;
    if !(fits_wide(cprod) && fits_wide(w - cprod) && fits_wide(rprod) && fits_wide(h - rprod)) {
        return false;
    }
    let cw = div_wide(w - cprod, cols as i128);
    let ch = div_wide(h - rprod, rows as i128);
    assert(cw == grid_cell_width(area, gap, n as int));
    assert(ch == grid_cell_height(area, gap, n as int));
    let cstep = cw + g;
    let rstep = ch + g;
    let mut i: usize = 0;
    while i < n
        invariant
            0 <= i <= n,
            n <= i32::MAX,
            x == area.loc.x,
            y == area.loc.y,
            cols == grid_cols(n as int),
            1 <= cols <= n,
            cw == grid_cell_width(area, gap, n as int),
            ch == grid_cell_height(area, gap, n as int),
            -0x8000_0000i128 <= cw < 0x8000_0000i128,
            -0x8000_0000i128 <= ch < 0x8000_0000i128,
            cstep == cw + gap,
            rstep == ch + gap,
            forall|j: int| 0 <= j < i ==> #[trigger] grid_cell_ok(area, gap, n as int, j),
        decreases n - i,
    {
        let col = (i % cols) as i128;
        let row = (i / cols) as i128;
        assert(0 <= i % cols < cols && i / cols <= i) by (nonlinear_arith)
            requires
                cols >= 1,
        ;
        assert(-0x1_0000_0000_0000_0000_0000i128 < col * cstep < 0x1_0000_0000_0000_0000_0000i128)
            by (nonlinear_arith)
            requires
                0 <= col < 0x8000_0000,
                -0x2_0000_0000 <= cstep <= 0x2_0000_0000,
        ;
        assert(-0x1_0000_0000_0000_0000_0000i128 < row * rstep < 0x1_0000_0000_0000_0000_0000i128)
            by (nonlinear_arith)
            requires
                0 <= row < 0x8000_0000,
                -0x2_0000_0000 <= rstep <= 0x2_0000_0000,
        ;
        if !(fits_wide(cstep) && fits_wide(col * cstep) && fits_wide(x + col * cstep) && fits_wide(
            rstep,
        ) && fits_wide(row * rstep) && fits_wide(y + row * rstep)) {
            assert(!grid_cell_ok(area, gap, n as int, i as int));
            return false;
        }
        assert(grid_cell_ok(area, gap, n as int, i as int));
        i += 1;
    }
    true
}

impl LayoutEngine {
    /// Whether arranging `count` windows on `output_area` keeps all of the
    /// layout's arithmetic within `i32` (that is, whether `arrange` may be called).
    pub fn arrangement_fits(&self, count: usize, output_area: Rectangle) -> (ok: bool)
        ensures
            ok == self.can_arrange(count as int, output_area),
    {
        let inner_gap = self.config.gaps.inner as i32;
        let outer_gap = self.config.gaps.outer as i32;
        if !usable_area_fits(output_area, outer_gap) {
            return false;
        }
        let usable = Rectangle {
            loc: Point { x: output_area.loc.x + outer_gap, y: output_area.loc.y + outer_gap },
            size: Size {
                w: if output_area.size.w - 2 * outer_gap < 0 {
                    0
                } else {
                    output_area.size.w - 2 * outer_gap
                },
                h: if output_area.size.h - 2 * outer_gap < 0 {
                    0
                } else {
                    output_area.size.h - 2 * outer_gap
                },
            },
        };
        assert(usable == self.usable(output_area));
        match self.current_layout {
            LayoutType::Dwindle | LayoutType::Spiral => dwindle_fits(usable, inner_gap, count),
            LayoutType::Master => count <= 2147483647usize && master_fits(usable, inner_gap, count),
            LayoutType::Columns => count <= 2147483647usize && columns_fits(usable, inner_gap, count),
            LayoutType::Grid => count <= 2147483647usize && grid_fits(usable, inner_gap, count),
            LayoutType::Floating => true,
        }
    }

    /// The geometries that `arrange` gives, or none when the layout's
    /// arithmetic would leave `i32` for these inputs.
    pub fn try_arrange(&self, windows: &[Rectangle], output_area: Rectangle) -> (result: Option<
        Vec<Rectangle>,
    >)
        ensures
            result is Some <==> self.can_arrange(windows@.len() as int, output_area),
            result matches Some(tiles) ==> tiles@ == self.arrangement(windows@, output_area),
    {
        if self.arrangement_fits(windows.len(), output_area) {
            Some(self.arrange(windows, output_area))
        } else {
            None
        }
    }
}

} // verus!
