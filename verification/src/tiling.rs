//! What every tiling layout guarantees: each tile stays inside the usable area
//! and no two tiles share a pixel.

use vstd::prelude::*;

use crate::geometry::{contains, half, is_empty, lemma_contained_disjoint, lemma_contains_trans, overlaps, trunc_div, Rectangle};
use crate::layout::{
    layout_tiles, LayoutEngine, LayoutType, column_count, column_width_of, column_window_height, columns, columns_cell_ok, columns_ok,
    dwindle, dwindle_cut_ok, dwindle_ok, dwindle_rect, dwindle_remaining,
    dwindle_rest, dwindle_tile, grid, grid_cell_height, grid_cell_ok, grid_cell_width, grid_cols,
    grid_ok, grid_rows, master, master_ok, master_stack_ok,
    master_width_of, rows_in_column, stack_height_of, windows_per_column_of,
};

verus! {

/// Every tile lies inside `area` and no two tiles overlap.
pub open spec fn tiles_fit(tiles: Seq<Rectangle>, area: Rectangle) -> bool {
    &&& forall|i: int| 0 <= i < tiles.len() ==> #[trigger] contains(area, tiles[i])
    &&& forall|i: int, j: int|
        0 <= i < j < tiles.len() ==> !#[trigger] overlaps(tiles[i], tiles[j])
}

/// A rectangle with no negative side.
pub open spec fn nonneg_size(r: Rectangle) -> bool {
    r.size.w >= 0 && r.size.h >= 0
}

/// One dwindle cut: the tile and the rest lie inside the cut area and do not overlap.
proof fn lemma_dwindle_cut(r: Rectangle, gap: i32, i: int)
    requires
        dwindle_cut_ok(r, gap, i),
        nonneg_size(r),
        gap >= 0,
    ensures
        contains(r, dwindle_tile(r, gap, i)),
        contains(r, dwindle_rest(r, gap, i)),
        !overlaps(dwindle_tile(r, gap, i), dwindle_rest(r, gap, i)),
        nonneg_size(dwindle_rest(r, gap, i)),
{
    let g2 = half(gap as int);
    assert(0 <= g2 <= gap);
    if i % 2 == 0 {
        let hw = half(r.size.w as int);
        assert(0 <= hw <= r.size.w);
    } else {
        let hh = half(r.size.h as int);
        assert(0 <= hh <= r.size.h);
    }
}

/// The areas that remain shrink: a later one lies inside an earlier one.
proof fn lemma_dwindle_nested(area: Rectangle, gap: i32, n: int, i: nat, j: nat)
    requires
        dwindle_ok(area, gap, n),
        nonneg_size(area),
        gap >= 0,
        i <= j <= n - 1,
    ensures
        contains(dwindle_remaining(area, gap, i), dwindle_remaining(area, gap, j)),
        nonneg_size(dwindle_remaining(area, gap, j)),
    decreases j,
{
    if j == 0 {
    } else {
        let k = (j - 1) as nat;
        assert(dwindle_cut_ok(dwindle_remaining(area, gap, k), gap, k as int));
        if i == j {
            lemma_dwindle_nested(area, gap, n, k, k);
            lemma_dwindle_cut(dwindle_remaining(area, gap, k), gap, k as int);
        } else {
            lemma_dwindle_nested(area, gap, n, i, k);
            lemma_dwindle_cut(dwindle_remaining(area, gap, k), gap, k as int);
            lemma_contains_trans(
                dwindle_remaining(area, gap, i),
                dwindle_remaining(area, gap, k),
                dwindle_remaining(area, gap, j),
            );
        }
    }
}

/// Window `i` of the dwindle layout lies inside the area that remains before cut `i`.
proof fn lemma_dwindle_rect_inside(area: Rectangle, gap: i32, n: int, i: nat)
    requires
        dwindle_ok(area, gap, n),
        nonneg_size(area),
        gap >= 0,
        i < n,
    ensures
        contains(dwindle_remaining(area, gap, i), dwindle_rect(area, gap, n, i as int)),
{
    lemma_dwindle_nested(area, gap, n, i, i);
    if i < n - 1 {
        assert(dwindle_cut_ok(dwindle_remaining(area, gap, i), gap, i as int));
        lemma_dwindle_cut(dwindle_remaining(area, gap, i), gap, i as int);
    }
}

/// The dwindle layout tiles its area.
pub proof fn lemma_dwindle_fits(area: Rectangle, gap: i32, n: int)
    requires
        dwindle_ok(area, gap, n),
        nonneg_size(area),
        gap >= 0,
        n >= 0,
    ensures
        tiles_fit(dwindle(area, gap, n), area),
{
    let tiles = dwindle(area, gap, n);
    assert forall|i: int| 0 <= i < tiles.len() implies #[trigger] contains(area, tiles[i]) by {
        lemma_dwindle_rect_inside(area, gap, n, i as nat);
        lemma_dwindle_nested(area, gap, n, 0, i as nat);
        lemma_contains_trans(area, dwindle_remaining(area, gap, i as nat), tiles[i]);
    }
    assert forall|i: int, j: int| 0 <= i < j < tiles.len() implies !#[trigger] overlaps(
        tiles[i],
        tiles[j],
    ) by {
        let ri = dwindle_remaining(area, gap, i as nat);
        let next = dwindle_remaining(area, gap, (i + 1) as nat);
        assert(dwindle_cut_ok(ri, gap, i));
        lemma_dwindle_nested(area, gap, n, i as nat, i as nat);
        lemma_dwindle_cut(ri, gap, i);
        assert(next == dwindle_rest(ri, gap, i));
        lemma_dwindle_nested(area, gap, n, (i + 1) as nat, j as nat);
        lemma_dwindle_rect_inside(area, gap, n, j as nat);
        lemma_contains_trans(next, dwindle_remaining(area, gap, j as nat), tiles[j]);
        assert(tiles[i] == dwindle_tile(ri, gap, i));
        lemma_contained_disjoint(tiles[i], next, tiles[i], tiles[j]);
    }
}

/// Cells of a stripe: `m` cells of size `s` separated by `g` in a length `len`,
/// where `s` is what remains for each cell once the gaps are taken out. A cell
/// of positive size starts at or after the stripe's start and ends by its end.
proof fn lemma_stripe_inside(len: int, m: int, g: int, k: int)
    requires
        m >= 1,
        g >= 0,
        len >= 0,
        0 <= k < m,
        trunc_div(len - (m - 1) * g, m) > 0,
    ensures
        0 <= k * (trunc_div(len - (m - 1) * g, m) + g),
        k * (trunc_div(len - (m - 1) * g, m) + g) + trunc_div(len - (m - 1) * g, m) <= len,
{
    let total = len - (m - 1) * g;
    let s = trunc_div(total, m);
    if total < 0 {
        assert((-total) / m >= 0) by (nonlinear_arith)
            requires
                -total > 0,
                m >= 1,
        ;
        assert(false);
    }
    assert(s == total / m);
    assert(m * s <= total) by (nonlinear_arith)
        requires
            s == total / m,
            m >= 1,
            total >= 0,
    ;
    assert(0 <= k * (s + g) <= (m - 1) * (s + g)) by (nonlinear_arith)
        requires
            0 <= k <= m - 1,
            s + g >= 0,
    ;
    assert((m - 1) * (s + g) + s == m * s + (m - 1) * g) by (nonlinear_arith);
}

/// In a stripe with cells of size `s >= 0` and gaps `g >= 0`, cell `k` ends
/// before cell `l > k` starts.
proof fn lemma_stripe_order(s: int, g: int, k: int, l: int)
    requires
        s >= 0,
        g >= 0,
        0 <= k < l,
    ensures
        k * (s + g) + s <= l * (s + g),
{
    assert(l * (s + g) - k * (s + g) == (l - k) * (s + g)) by (nonlinear_arith);
    assert((l - k) * (s + g) >= s + g) by (nonlinear_arith)
        requires
            l - k >= 1,
            s + g >= 0,
    ;
}

/// The master layout tiles its area.
pub proof fn lemma_master_fits(area: Rectangle, gap: i32, n: int)
    requires
        master_ok(area, gap, n),
        nonneg_size(area),
        gap >= 0,
        n >= 0,
    ensures
        tiles_fit(master(area, gap, n), area),
{
    let tiles = master(area, gap, n);
    let g2 = half(gap as int);
    let mw = master_width_of(area);
    let sh = stack_height_of(area, gap, n);
    assert(0 <= g2 <= gap);
    assert(0 <= mw <= area.size.w) by (nonlinear_arith)
        requires
            mw == trunc_div(3 * area.size.w, 5),
            area.size.w >= 0,
    ;
    assert forall|i: int| 0 <= i < tiles.len() implies #[trigger] contains(area, tiles[i]) by {
        if i > 0 && !is_empty(tiles[i]) {
            assert(master_stack_ok(area, gap, n, i - 1));
            lemma_stripe_inside(area.size.h as int, n - 1, gap as int, i - 1);
        }
    }
    assert forall|i: int, j: int| 0 <= i < j < tiles.len() implies !#[trigger] overlaps(
        tiles[i],
        tiles[j],
    ) by {
        assert(master_stack_ok(area, gap, n, j - 1));
        if i > 0 {
            assert(master_stack_ok(area, gap, n, i - 1));
            if sh >= 0 {
                lemma_stripe_order(sh, gap as int, i - 1, j - 1);
            }
        }
    }
}

/// The columns layout tiles its area.
pub proof fn lemma_columns_fits(area: Rectangle, gap: i32, n: int)
    requires
        columns_ok(area, gap, n),
        nonneg_size(area),
        gap >= 0,
        n >= 0,
    ensures
        tiles_fit(columns(area, gap, n), area),
{
    let tiles = columns(area, gap, n);
    if n > 0 {
        let c = column_count(n);
        let wpc = windows_per_column_of(n);
        let cw = column_width_of(area, gap, n);
        assert(1 <= wpc && n <= wpc * c) by (nonlinear_arith)
            requires
                wpc == (n + c - 1) / c,
                1 <= c,
                n >= 1,
        ;
        assert forall|i: int| 0 <= i < tiles.len() implies #[trigger] contains(area, tiles[i]) by {
            assert(columns_cell_ok(area, gap, n, i));
            let col = i / wpc;
            let r = rows_in_column(n, col);
            assert(0 <= i / wpc < c && (i / wpc) * wpc + i % wpc == i && 0 <= i % wpc < wpc)
                by (nonlinear_arith)
                requires
                    0 <= i < n,
                    n <= wpc * c,
                    wpc >= 1,
            ;
            if !is_empty(tiles[i]) {
                lemma_stripe_inside(area.size.w as int, c, gap as int, col);
                lemma_stripe_inside(area.size.h as int, r, gap as int, i % wpc);
            }
        }
        assert forall|i: int, j: int| 0 <= i < j < tiles.len() implies !#[trigger] overlaps(
            tiles[i],
            tiles[j],
        ) by {
            assert(columns_cell_ok(area, gap, n, i));
            assert(columns_cell_ok(area, gap, n, j));
            assert(i / wpc <= j / wpc) by (nonlinear_arith)
                requires
                    0 <= i < j,
                    wpc >= 1,
            ;
            if !is_empty(tiles[i]) && !is_empty(tiles[j]) {
                if i / wpc < j / wpc {
                    lemma_stripe_order(cw, gap as int, i / wpc, j / wpc);
                } else {
                    assert(i % wpc < j % wpc) by (nonlinear_arith)
                        requires
                            0 <= i < j,
                            wpc >= 1,
                            i / wpc == j / wpc,
                    ;
                    let wh = column_window_height(area, gap, n, i / wpc);
                    lemma_stripe_order(wh, gap as int, i % wpc, j % wpc);
                }
            }
        }
    }
}

/// The grid layout tiles its area.
pub proof fn lemma_grid_fits(area: Rectangle, gap: i32, n: int)
    requires
        grid_ok(area, gap, n),
        nonneg_size(area),
        gap >= 0,
        n >= 0,
    ensures
        tiles_fit(grid(area, gap, n), area),
{
    let tiles = grid(area, gap, n);
    if n > 0 {
        crate::layout::lemma_ceil_sqrt_bounds(n);
        let c = grid_cols(n);
        let r = grid_rows(n);
        let cw = grid_cell_width(area, gap, n);
        let ch = grid_cell_height(area, gap, n);
        assert(1 <= r && n <= r * c) by (nonlinear_arith)
            requires
                r == (n + c - 1) / c,
                1 <= c,
                n >= 1,
        ;
        assert forall|i: int| 0 <= i < tiles.len() implies #[trigger] contains(area, tiles[i]) by {
            assert(grid_cell_ok(area, gap, n, i));
            assert(0 <= i / c < r && 0 <= i % c < c) by (nonlinear_arith)
                requires
                    0 <= i < n,
                    n <= r * c,
                    c >= 1,
            ;
            if !is_empty(tiles[i]) {
                lemma_stripe_inside(area.size.w as int, c, gap as int, i % c);
                lemma_stripe_inside(area.size.h as int, r, gap as int, i / c);
            }
        }
        assert forall|i: int, j: int| 0 <= i < j < tiles.len() implies !#[trigger] overlaps(
            tiles[i],
            tiles[j],
        ) by {
            assert(grid_cell_ok(area, gap, n, i));
            assert(grid_cell_ok(area, gap, n, j));
            assert(i / c <= j / c) by (nonlinear_arith)
                requires
                    0 <= i < j,
                    c >= 1,
            ;
            if !is_empty(tiles[i]) && !is_empty(tiles[j]) {
                if i / c < j / c {
                    lemma_stripe_order(ch, gap as int, i / c, j / c);
                } else {
                    assert(i % c < j % c) by (nonlinear_arith)
                        requires
                            0 <= i < j,
                            c >= 1,
                            i / c == j / c,
                    ;
                    lemma_stripe_order(cw, gap as int, i % c, j % c);
                }
            }
        }
    }
}

/// Under every layout but floating, when the gap between windows is not
/// negative, each geometry that `arrange` returns lies inside the usable area
/// of the output and no two of them overlap.
pub proof fn lemma_arrangement_tiles_output(
    engine: LayoutEngine,
    windows: Seq<Rectangle>,
    output: Rectangle,
)
    requires
        engine.can_arrange(windows.len() as int, output),
        engine.current_layout != LayoutType::Floating,
        engine.config.gaps.inner <= i32::MAX,
    ensures
        tiles_fit(engine.arrangement(windows, output), engine.usable(output)),
{
    let area = engine.usable(output);
    let gap = engine.inner_gap();
    let n = windows.len() as int;
    assert(nonneg_size(area));
    assert(gap >= 0);
    match engine.current_layout {
        LayoutType::Dwindle | LayoutType::Spiral => lemma_dwindle_fits(area, gap, n),
        LayoutType::Master => lemma_master_fits(area, gap, n),
        LayoutType::Columns => lemma_columns_fits(area, gap, n),
        LayoutType::Grid => lemma_grid_fits(area, gap, n),
        LayoutType::Floating => {},
    }
}

/// Every layout gives exactly one geometry to each window.
pub proof fn lemma_one_geometry_per_window(
    engine: LayoutEngine,
    windows: Seq<Rectangle>,
    output: Rectangle,
)
    ensures
        engine.arrangement(windows, output).len() == windows.len(),
{
}

/// The floating layout leaves every window where it is.
pub proof fn lemma_floating_keeps_windows(
    engine: LayoutEngine,
    windows: Seq<Rectangle>,
    output: Rectangle,
)
    requires
        engine.current_layout == LayoutType::Floating,
    ensures
        engine.arrangement(windows, output) == windows,
{
}

/// The spiral layout places windows exactly as the dwindle layout does.
pub proof fn lemma_spiral_is_dwindle(windows: Seq<Rectangle>, area: Rectangle, gap: i32)
    ensures
        layout_tiles(LayoutType::Spiral, windows, area, gap) == layout_tiles(
            LayoutType::Dwindle,
            windows,
            area,
            gap,
        ),
{
}

/// An engine on the spiral layout arranges any windows on any output exactly
/// as an engine of the same configuration on the dwindle layout, and can
/// arrange exactly the same windows.
pub proof fn lemma_spiral_engine_is_dwindle(
    spiral: LayoutEngine,
    dwindle: LayoutEngine,
    windows: Seq<Rectangle>,
    output: Rectangle,
)
    requires
        spiral.current_layout == LayoutType::Spiral,
        dwindle.current_layout == LayoutType::Dwindle,
        spiral.config == dwindle.config,
    ensures
        spiral.arrangement(windows, output) == dwindle.arrangement(windows, output),
        spiral.can_arrange(windows.len() as int, output) == dwindle.can_arrange(
            windows.len() as int,
            output,
        ),
{
}

/// All cells of the grid layout have the same size.
pub proof fn lemma_grid_cells_equal(windows: Seq<Rectangle>, area: Rectangle, gap: i32)
    ensures
        forall|i: int, j: int|
            0 <= i < j < windows.len() ==> (#[trigger] layout_tiles(
                LayoutType::Grid,
                windows,
                area,
                gap,
            )[i]).size == (#[trigger] layout_tiles(LayoutType::Grid, windows, area, gap)[j]).size,
{
}

/// Under the master layout the first window sits at the area's top-left corner
/// with the area's full height, and, when the gap is not negative, every other
/// window starts to the right of where the first one ends.
pub proof fn lemma_master_on_the_left(windows: Seq<Rectangle>, area: Rectangle, gap: i32)
    requires
        windows.len() >= 1,
        master_ok(area, gap, windows.len() as int),
        nonneg_size(area),
        gap >= 0,
    ensures
        ({
            let tiles = layout_tiles(LayoutType::Master, windows, area, gap);
            &&& tiles[0].loc == area.loc
            &&& tiles[0].size.h == area.size.h
            &&& forall|i: int|
                1 <= i < tiles.len() ==> tiles[0].loc.x + tiles[0].size.w <= #[trigger] tiles[i].loc.x
        }),
{
    let n = windows.len() as int;
    let g2 = half(gap as int);
    let mw = master_width_of(area);
    assert(0 <= g2 <= gap);
    assert(0 <= mw <= area.size.w) by (nonlinear_arith)
        requires
            mw == trunc_div(3 * area.size.w, 5),
            area.size.w >= 0,
    ;
    let tiles = layout_tiles(LayoutType::Master, windows, area, gap);
    assert forall|i: int| 1 <= i < tiles.len() implies tiles[0].loc.x + tiles[0].size.w
        <= #[trigger] tiles[i].loc.x by {
        assert(master_stack_ok(area, gap, n, i - 1));
    }
}

} // verus!
