//! What each operation gives, stated from its inputs and its result rather
//! than by the steps that compute it.

use vstd::prelude::*;
use vstd::arithmetic::div_mod::{lemma_fundamental_div_mod, lemma_fundamental_div_mod_converse};

use crate::geometry::{fits, Point, Rectangle};
use crate::state::{min_len, moves, AnimMove};
use crate::text::decimal;
use crate::utils::{duration_text, hex_pair, parsed_color};
use crate::layout::{
    column_count, column_width_of, windows_per_column_of, rows_in_column,
    column_window_height, columns, columns_cell_ok, columns_ok, columns_rect, dwindle,
    dwindle_remaining, dwindle_rest, dwindle_tile, master, master_ok, master_stack_ok,
    stack_height_of, grid, grid_cols, grid_rows, grid_ok, grid_cell_ok, grid_cell_width,
    grid_cell_height, lemma_ceil_sqrt_bounds,
};

verus! {

/// The dwindle layout cuts side by side at every even cut and top and bottom
/// at every odd one. For every cut `i` before the last window: when `i` is
/// even, window `i` starts where the area left before the cut starts and keeps
/// its full height, and window `i + 1` starts at the same height as window
/// `i`; when `i` is odd, window `i` keeps the full width of that area, and
/// window `i + 1` starts at the same horizontal position as window `i`.
pub proof fn lemma_dwindle_cuts_alternate(area: Rectangle, gap: i32, n: int)
    ensures
        forall|i: int|
            #![trigger dwindle(area, gap, n)[i]]
            0 <= i < n - 1 ==> {
                let tiles = dwindle(area, gap, n);
                let left = dwindle_remaining(area, gap, i as nat);
                &&& tiles[i].loc == left.loc
                &&& i % 2 == 0 ==> {
                    &&& tiles[i].size.h == (if left.size.h < 0 { 0 } else { left.size.h })
                    &&& tiles[i + 1].loc.y == tiles[i].loc.y
                }
                &&& i % 2 == 1 ==> {
                    &&& tiles[i].size.w == (if left.size.w < 0 { 0 } else { left.size.w })
                    &&& tiles[i + 1].loc.x == tiles[i].loc.x
                }
            },
{
    assert forall|i: int|
        #![trigger dwindle(area, gap, n)[i]]
        0 <= i < n - 1 implies {
            let tiles = dwindle(area, gap, n);
            let left = dwindle_remaining(area, gap, i as nat);
            &&& tiles[i].loc == left.loc
            &&& i % 2 == 0 ==> {
                &&& tiles[i].size.h == (if left.size.h < 0 { 0 } else { left.size.h })
                &&& tiles[i + 1].loc.y == tiles[i].loc.y
            }
            &&& i % 2 == 1 ==> {
                &&& tiles[i].size.w == (if left.size.w < 0 { 0 } else { left.size.w })
                &&& tiles[i + 1].loc.x == tiles[i].loc.x
            }
        } by {
        let left = dwindle_remaining(area, gap, i as nat);
        let next = dwindle_remaining(area, gap, (i + 1) as nat);
        assert(next == dwindle_rest(left, gap, i));
        assert(dwindle(area, gap, n)[i] == dwindle_tile(left, gap, i));
        assert(dwindle(area, gap, n)[i + 1].loc == next.loc);
    }
}

/// Each window of the dwindle layout but the last takes half of what is left
/// (less half a gap), and the next window starts half a gap beyond that half;
/// the last window takes all that is left. Halves are Rust's integer halves,
/// for sizes and gaps that are not negative and cuts that leave room.
pub proof fn lemma_dwindle_halves(area: Rectangle, gap: i32, n: int, i: int)
    requires
        gap >= 0,
        0 <= i < n,
    ensures
        ({
            let tiles = dwindle(area, gap, n);
            let left = dwindle_remaining(area, gap, i as nat);
            &&& i == n - 1 && left.size.w >= 0 && left.size.h >= 0 ==> tiles[i] == left
            &&& i < n - 1 && i % 2 == 0 && left.size.w >= gap && fits(left.loc.x + left.size.w) ==> {
                &&& tiles[i].size.w == left.size.w / 2 - gap / 2
                &&& tiles[i + 1].loc.x == left.loc.x + left.size.w / 2 + gap / 2
            }
            &&& i < n - 1 && i % 2 == 1 && left.size.h >= gap && fits(left.loc.y + left.size.h) ==> {
                &&& tiles[i].size.h == left.size.h / 2 - gap / 2
                &&& tiles[i + 1].loc.y == left.loc.y + left.size.h / 2 + gap / 2
            }
        }),
{
    let left = dwindle_remaining(area, gap, i as nat);
    if i < n - 1 {
        let next = dwindle_remaining(area, gap, (i + 1) as nat);
        assert(next == dwindle_rest(left, gap, i));
        assert(dwindle(area, gap, n)[i] == dwindle_tile(left, gap, i));
        assert(dwindle(area, gap, n)[i + 1].loc == next.loc);
    }
}

/// The master layout gives the first window three fifths of the width (less
/// half a gap) and stacks the others on the right, one under the other with a
/// gap between them, all of one size, the last ending at most `n - 2` pixels
/// above the bottom of the area and never below it. Sizes and the gap are not
/// negative, and the area has room for the gaps.
pub proof fn lemma_master_stack(area: Rectangle, gap: i32, n: int)
    requires
        gap >= 0,
        n >= 2,
        area.size.w >= 0,
        area.size.h >= (n - 2) * gap,
        master_ok(area, gap, n),
    ensures
        ({
            let tiles = master(area, gap, n);
            &&& 3 * area.size.w / 5 >= gap / 2 ==> tiles[0].size.w == 3 * area.size.w / 5 - gap / 2
            &&& tiles[1].loc.y == area.loc.y
            &&& tiles[1].loc.x == area.loc.x + 3 * area.size.w / 5 + gap / 2
            &&& forall|i: int|
                1 <= i < n - 1 ==> {
                    &&& (#[trigger] tiles[i + 1]).loc.x == tiles[i].loc.x
                    &&& tiles[i + 1].loc.y == tiles[i].loc.y + tiles[i].size.h + gap
                    &&& tiles[i + 1].size == tiles[i].size
                }
            &&& area.loc.y + area.size.h - (n - 2) <= tiles[n - 1].loc.y + tiles[n - 1].size.h
            &&& tiles[n - 1].loc.y + tiles[n - 1].size.h <= area.loc.y + area.size.h
        }),
{
    let tiles = master(area, gap, n);
    let h = area.size.h as int;
    let num = h - (n - 2) * gap;
    let sh = stack_height_of(area, gap, n);
    assert(sh == num / (n - 1));
    assert(0 <= sh && (n - 1) * sh <= num < (n - 1) * sh + (n - 1)) by (nonlinear_arith)
        requires
            sh == num / (n - 1),
            n >= 2,
            num >= 0,
    ;
    assert(master_stack_ok(area, gap, n, 0));
    assert(master_stack_ok(area, gap, n, n - 2));
    assert forall|i: int| 1 <= i < n - 1 implies {
        &&& (#[trigger] tiles[i + 1]).loc.x == tiles[i].loc.x
        &&& tiles[i + 1].loc.y == tiles[i].loc.y + tiles[i].size.h + gap
        &&& tiles[i + 1].size == tiles[i].size
    } by {
        assert(master_stack_ok(area, gap, n, i - 1));
        assert(master_stack_ok(area, gap, n, i));
        assert((i - 1) * (sh + gap) + sh + gap == i * (sh + gap)) by (nonlinear_arith);
    }
    let bottom = area.loc.y + (n - 2) * (sh + gap) + sh;
    assert(bottom == area.loc.y + (n - 1) * sh + (n - 2) * gap) by (nonlinear_arith)
        requires
            bottom == area.loc.y + (n - 2) * (sh + gap) + sh,
    ;
}

/// The grid layout has `c` columns, the smallest number whose square is at
/// least the number of windows, and fills them row by row from the area's
/// top-left corner: a window that does not start a row sits right of the one
/// before it, a gap apart, at the same height; a window that starts a row sits
/// at the area's left edge, a gap below the one before it. The gap is not
/// negative and the area has room for the gaps.
pub proof fn lemma_grid_row_by_row(area: Rectangle, gap: i32, n: int)
    requires
        gap >= 0,
        n >= 1,
        area.size.w >= (n - 1) * gap,
        area.size.h >= (n - 1) * gap,
        grid_ok(area, gap, n),
    ensures
        ({
            let tiles = grid(area, gap, n);
            let c = grid_cols(n);
            &&& c >= 1 && c * c >= n && (c - 1) * (c - 1) < n
            &&& tiles[0].loc == area.loc
            &&& forall|i: int|
                0 <= i < n - 1 ==> {
                    &&& (i + 1) % c != 0 ==> {
                        &&& (#[trigger] tiles[i + 1]).loc.y == tiles[i].loc.y
                        &&& tiles[i + 1].loc.x == tiles[i].loc.x + tiles[i].size.w + gap
                    }
                    &&& (i + 1) % c == 0 ==> {
                        &&& tiles[i + 1].loc.x == area.loc.x
                        &&& tiles[i + 1].loc.y == tiles[i].loc.y + tiles[i].size.h + gap
                    }
                }
        }),
{
    lemma_ceil_sqrt_bounds(n);
    let tiles = grid(area, gap, n);
    let c = grid_cols(n);
    let r = grid_rows(n);
    assert(1 <= r <= n) by (nonlinear_arith)
        requires
            r == (n + c - 1) / c,
            1 <= c <= n,
    ;
    assert((c - 1) * gap <= (n - 1) * gap) by (nonlinear_arith)
        requires
            c <= n,
            gap >= 0,
    ;
    assert((r - 1) * gap <= (n - 1) * gap) by (nonlinear_arith)
        requires
            r <= n,
            gap >= 0,
    ;
    let cw = grid_cell_width(area, gap, n);
    let ch = grid_cell_height(area, gap, n);
    assert(cw >= 0) by (nonlinear_arith)
        requires
            cw == (area.size.w - (c - 1) * gap) / c,
            area.size.w - (c - 1) * gap >= 0,
            c >= 1,
    ;
    assert(ch >= 0) by (nonlinear_arith)
        requires
            ch == (area.size.h - (r - 1) * gap) / r,
            area.size.h - (r - 1) * gap >= 0,
            r >= 1,
    ;
    assert(grid_cell_ok(area, gap, n, 0));
    assert(0int % c == 0 && 0int / c == 0);
    assert(tiles[0].loc == area.loc);
    assert(c * c >= n && (c - 1) * (c - 1) < n);
    assert forall|i: int| 0 <= i < n - 1 implies {
        &&& (i + 1) % c != 0 ==> {
            &&& (#[trigger] tiles[i + 1]).loc.y == tiles[i].loc.y
            &&& tiles[i + 1].loc.x == tiles[i].loc.x + tiles[i].size.w + gap
        }
        &&& (i + 1) % c == 0 ==> {
            &&& tiles[i + 1].loc.x == area.loc.x
            &&& tiles[i + 1].loc.y == tiles[i].loc.y + tiles[i].size.h + gap
        }
    } by {
        assert(grid_cell_ok(area, gap, n, i));
        assert(grid_cell_ok(area, gap, n, i + 1));
        let q = i / c;
        let m = i % c;
        lemma_fundamental_div_mod(i, c);
        assert(0 <= m < c);
        if m + 1 < c {
            lemma_fundamental_div_mod_converse(i + 1, c, q, m + 1);
            assert((m + 1) * (cw + gap) == m * (cw + gap) + cw + gap) by (nonlinear_arith);
        } else {
            assert(i + 1 == (q + 1) * c + 0) by (nonlinear_arith)
                requires
                    i == c * q + m,
                    m + 1 == c,
            ;
            lemma_fundamental_div_mod_converse(i + 1, c, q + 1, 0);
            assert((q + 1) * (ch + gap) == q * (ch + gap) + ch + gap) by (nonlinear_arith);
        }
    }
}

/// In the columns layout the windows of each column share its whole height.
/// Of `n` windows, at most three columns take `wpc` windows each, in order
/// (`wpc` being `n` over the number of columns, rounded up), so column `col`
/// holds `rows` of them: `wpc`, or fewer in the last column. With a gap that
/// is not negative and room for the gaps between them, the last window of
/// the column ends at most `rows - 1` pixels above the bottom of the area and
/// never below it; a column of one window is exactly as tall as the area.
pub proof fn lemma_columns_fill_height(area: Rectangle, gap: i32, n: int, col: int)
    requires
        gap >= 0,
        columns_ok(area, gap, n),
        n >= 1,
        0 <= col,
        col * ((n + (if n < 3 { n } else { 3 }) - 1) / (if n < 3 { n } else { 3 })) < n,
    ensures
        ({
            let c = if n < 3 { n } else { 3 };
            let wpc = (n + c - 1) / c;
            let rows = if n - col * wpc < wpc { n - col * wpc } else { wpc };
            let last = columns(area, gap, n)[col * wpc + rows - 1];
            (rows - 1) * gap <= area.size.h ==> {
                &&& area.loc.y + area.size.h - (rows - 1) <= last.loc.y + last.size.h
                &&& last.loc.y + last.size.h <= area.loc.y + area.size.h
            }
        }),
{
    let c = if n < 3 { n } else { 3 };
    let wpc = (n + c - 1) / c;
    assert(1 <= c <= 3);
    assert(wpc >= 1) by (nonlinear_arith)
        requires
            wpc == (n + c - 1) / c,
            1 <= c,
            n >= 1,
    ;
    let rows = if n - col * wpc < wpc { n - col * wpc } else { wpc };
    let idx = col * wpc + rows - 1;
    assert(1 <= rows <= wpc);
    assert(0 <= idx < n);
    lemma_fundamental_div_mod_converse(idx, wpc, col, rows - 1);
    assert(columns(area, gap, n)[idx] == columns_rect(area, gap, n, idx));
    assert(columns_cell_ok(area, gap, n, idx));
    let h = area.size.h as int;
    let num = h - (rows - 1) * gap;
    let wh = column_window_height(area, gap, n, col);
    if (rows - 1) * gap <= area.size.h {
        assert(wh == num / rows);
        assert(0 <= wh <= num && rows * wh <= num < rows * wh + rows) by (nonlinear_arith)
            requires
                wh == num / rows,
                rows >= 1,
                num >= 0,
        ;
        assert(num <= h) by (nonlinear_arith)
            requires
                num == h - (rows - 1) * gap,
                rows >= 1,
                gap >= 0,
        ;
        let bottom = area.loc.y + (rows - 1) * (wh + gap) + wh;
        assert(bottom == area.loc.y + rows * wh + (rows - 1) * gap) by (nonlinear_arith)
            requires
                bottom == area.loc.y + (rows - 1) * (wh + gap) + wh,
        ;
        let last = columns(area, gap, n)[idx];
        assert(last.loc.y == area.loc.y + (rows - 1) * (wh + gap));
        assert(last.size.h == wh);
    }
}

/// The first `k` positions, compared one by one, give exactly the entries of
/// `moves(old, new, k)`, in increasing order of index.
proof fn lemma_moves_exact(old: Seq<Point>, new: Seq<Point>, k: nat)
    requires
        k <= old.len(),
        k <= new.len(),
        k <= usize::MAX,
    ensures
        forall|i: int|
            0 <= i < k && old[i] != new[i] ==> moves(old, new, k).contains(
                AnimMove { index: i as usize, old_pos: old[i], new_pos: new[i] },
            ),
        forall|j: int|
            0 <= j < moves(old, new, k).len() ==> {
                let e = #[trigger] moves(old, new, k)[j];
                &&& e.index < k
                &&& old[e.index as int] != new[e.index as int]
                &&& e.old_pos == old[e.index as int]
                &&& e.new_pos == new[e.index as int]
            },
        forall|j1: int, j2: int|
            0 <= j1 < j2 < moves(old, new, k).len() ==> #[trigger] moves(old, new, k)[j1].index
                < #[trigger] moves(old, new, k)[j2].index,
    decreases k,
{
    if k > 0 {
        let p = (k - 1) as nat;
        lemma_moves_exact(old, new, p);
        let earlier = moves(old, new, p);
        let entry = AnimMove { index: p as usize, old_pos: old[p as int], new_pos: new[p as int] };
        if old[p as int] != new[p as int] {
            assert(moves(old, new, k) == earlier.push(entry));
            assert forall|i: int| 0 <= i < k && old[i] != new[i] implies moves(old, new, k).contains(
                AnimMove { index: i as usize, old_pos: old[i], new_pos: new[i] },
            ) by {
                if i < p {
                    let w = choose|w: int|
                        0 <= w < earlier.len() && earlier[w] == AnimMove {
                            index: i as usize,
                            old_pos: old[i],
                            new_pos: new[i],
                        };
                    assert(moves(old, new, k)[w] == earlier[w]);
                } else {
                    assert(moves(old, new, k)[earlier.len() as int] == entry);
                }
            }
        } else {
            assert(moves(old, new, k) == earlier);
        }
    }
}

/// The windows to animate after an arrangement are exactly those whose
/// position changed: for every position present in both lists, a changed one
/// is listed with its index and its old and new positions, every listed
/// entry is such a change, each index is listed once and in increasing order,
/// and the list is empty exactly when no position changed.
pub proof fn lemma_moved_windows_are_the_changed_ones(old: Seq<Point>, new: Seq<Point>)
    requires
        old.len() <= usize::MAX,
    ensures
        ({
            let k = if old.len() < new.len() { old.len() } else { new.len() };
            let m = moves(old, new, min_len(old.len(), new.len()));
            &&& forall|i: int|
                0 <= i < k && old[i] != new[i] ==> m.contains(
                    AnimMove { index: i as usize, old_pos: old[i], new_pos: new[i] },
                )
            &&& forall|j: int|
                0 <= j < m.len() ==> {
                    let e = #[trigger] m[j];
                    &&& e.index < k
                    &&& old[e.index as int] != new[e.index as int]
                    &&& e.old_pos == old[e.index as int]
                    &&& e.new_pos == new[e.index as int]
                }
            &&& forall|j1: int, j2: int|
                0 <= j1 < j2 < m.len() ==> #[trigger] m[j1].index < #[trigger] m[j2].index
            &&& (m.len() > 0 <==> exists|i: int| 0 <= i < k && old[i] != new[i])
        }),
{
    let k = if old.len() < new.len() { old.len() } else { new.len() };
    assert(min_len(old.len(), new.len()) == k);
    lemma_moves_exact(old, new, k);
    let m = moves(old, new, k);
    if exists|i: int| 0 <= i < k && old[i] != new[i] {
        let i = choose|i: int| 0 <= i < k && old[i] != new[i];
        assert(m.contains(AnimMove { index: i as usize, old_pos: old[i], new_pos: new[i] }));
    }
    if m.len() > 0 {
        let e = m[0];
        assert(0 <= e.index < k && old[e.index as int] != new[e.index as int]);
    }
}

/// The value of one byte as a base-16 digit, none when it is not one.
pub open spec fn digit_value(c: u8) -> Option<int> {
    if 48 <= c <= 57 {
        Some(c - 48)
    } else if 97 <= c <= 102 {
        Some(c - 97 + 10)
    } else if 65 <= c <= 70 {
        Some(c - 65 + 10)
    } else {
        None
    }
}

/// Two base-16 digits read as one byte: the first one counts sixteen times.
pub proof fn lemma_hex_pair_reads_two_digits(a: u8, b: u8)
    ensures
        digit_value(a) is Some && digit_value(b) is Some ==> hex_pair(a, b) == Some(
            (16 * digit_value(a).unwrap() + digit_value(b).unwrap()) as u8,
        ),
        a != 43 && (digit_value(a) is None || digit_value(b) is None) ==> hex_pair(a, b) is None,
{
}

/// A color text (once the leading `#` are gone) of six or eight digits gives
/// its channels in order: red from bytes 1 and 2, green from bytes 3 and 4,
/// blue from bytes 5 and 6, and alpha from bytes 7 and 8 or, with six digits,
/// fully opaque. There is a color exactly when the text has six or eight
/// bytes and each of those pairs reads as a byte.
pub proof fn lemma_color_channels_in_order(t: Seq<u8>)
    ensures
        parsed_color(t) is Some <==> {
            &&& t.len() == 6 || t.len() == 8
            &&& hex_pair(t[0], t[1]) is Some
            &&& hex_pair(t[2], t[3]) is Some
            &&& hex_pair(t[4], t[5]) is Some
            &&& t.len() == 8 ==> hex_pair(t[6], t[7]) is Some
        },
        parsed_color(t) matches Some(c) ==> {
            &&& Some(c.r) == hex_pair(t[0], t[1])
            &&& Some(c.g) == hex_pair(t[2], t[3])
            &&& Some(c.b) == hex_pair(t[4], t[5])
            &&& t.len() == 8 ==> Some(c.a) == hex_pair(t[6], t[7])
            &&& t.len() == 6 ==> c.a == 255
        },
{
}

/// A duration of at least one second reads as its whole seconds in decimal,
/// a point, exactly three digits whose value is the milliseconds past the
/// whole seconds, and `s`; one below a second reads as the milliseconds in
/// decimal followed by `ms`.
pub proof fn lemma_duration_text_shape(secs: nat, millis: nat)
    requires
        millis < 1000,
    ensures
        secs > 0 ==> ({
            let t = duration_text(secs, millis);
            let k = decimal(secs).len() as int;
            &&& t.len() == k + 5
            &&& t.subrange(0, k) == decimal(secs)
            &&& t[k] == '.'
            &&& '0' <= t[k + 1] <= '9'
            &&& '0' <= t[k + 2] <= '9'
            &&& '0' <= t[k + 3] <= '9'
            &&& 100 * ((t[k + 1] as int) - 48) + 10 * ((t[k + 2] as int) - 48) + ((t[k + 3] as int)
                - 48) == millis
            &&& t[k + 4] == 's'
        }),
        secs == 0 ==> duration_text(secs, millis) == decimal(millis) + seq!['m', 's'],
{
    reveal_with_fuel(decimal, 4);
    let t = duration_text(secs, millis);
    let k = decimal(secs).len() as int;
    if secs > 0 {
        if millis < 10 {
            assert(decimal(millis) == seq![((48 + millis) as int) as char]);
        } else if millis < 100 {
            assert(decimal(millis / 10) == seq![((48 + millis / 10) as int) as char]);
            assert(decimal(millis).len() == 2);
        } else {
            assert(decimal(millis / 100) == seq![((48 + millis / 100) as int) as char]);
            assert((millis / 10) / 10 == millis / 100);
            assert(decimal(millis / 10).len() == 2);
            assert(decimal(millis).len() == 3);
        }
        assert(t.subrange(0, k) =~= decimal(secs));
    }
}

/// The columns layout fills its columns in order, top to bottom: with `wpc`
/// windows to a full column (`n` over the number of columns, at most three,
/// rounded up), a window that does not start a column sits right under the
/// one before it, a gap apart, with the same size; a window that starts a
/// column sits at the top of the area, a gap right of the column before. The
/// gap is not negative and the area has room for the gaps.
pub proof fn lemma_columns_top_to_bottom(area: Rectangle, gap: i32, n: int)
    requires
        gap >= 0,
        n >= 1,
        area.size.w >= ((if n < 3 { n } else { 3 }) - 1) * gap,
        area.size.h >= (n - 1) * gap,
        columns_ok(area, gap, n),
    ensures
        ({
            let tiles = columns(area, gap, n);
            let c = if n < 3 { n } else { 3 };
            let wpc = (n + c - 1) / c;
            &&& tiles[0].loc == area.loc
            &&& forall|i: int|
                0 <= i < n - 1 ==> {
                    &&& (i + 1) % wpc != 0 ==> {
                        &&& (#[trigger] tiles[i + 1]).loc.x == tiles[i].loc.x
                        &&& tiles[i + 1].loc.y == tiles[i].loc.y + tiles[i].size.h + gap
                        &&& tiles[i + 1].size == tiles[i].size
                    }
                    &&& (i + 1) % wpc == 0 ==> {
                        &&& tiles[i + 1].loc.y == area.loc.y
                        &&& tiles[i + 1].loc.x == tiles[i].loc.x + tiles[i].size.w + gap
                    }
                }
        }),
{
    let tiles = columns(area, gap, n);
    let c = column_count(n);
    let wpc = windows_per_column_of(n);
    assert(1 <= c <= 3);
    assert(1 <= wpc <= n) by (nonlinear_arith)
        requires
            wpc == (n + c - 1) / c,
            1 <= c <= n,
    ;
    let cw = column_width_of(area, gap, n);
    assert(cw >= 0) by (nonlinear_arith)
        requires
            cw == (area.size.w - (c - 1) * gap) / c,
            area.size.w - (c - 1) * gap >= 0,
            c >= 1,
    ;
    assert(columns_cell_ok(area, gap, n, 0));
    assert(0int % wpc == 0 && 0int / wpc == 0);
    assert(tiles[0].loc == area.loc);
    assert forall|i: int| 0 <= i < n - 1 implies {
        &&& (i + 1) % wpc != 0 ==> {
            &&& (#[trigger] tiles[i + 1]).loc.x == tiles[i].loc.x
            &&& tiles[i + 1].loc.y == tiles[i].loc.y + tiles[i].size.h + gap
            &&& tiles[i + 1].size == tiles[i].size
        }
        &&& (i + 1) % wpc == 0 ==> {
            &&& tiles[i + 1].loc.y == area.loc.y
            &&& tiles[i + 1].loc.x == tiles[i].loc.x + tiles[i].size.w + gap
        }
    } by {
        assert(columns_cell_ok(area, gap, n, i));
        assert(columns_cell_ok(area, gap, n, i + 1));
        let q = i / wpc;
        let m = i % wpc;
        lemma_fundamental_div_mod(i, wpc);
        assert(0 <= m < wpc);
        assert(0 <= q);
        let r = rows_in_column(n, q);
        assert(1 <= r <= n) by (nonlinear_arith)
            requires
                r == (if n - q * wpc < wpc { n - q * wpc } else { wpc }),
                i == wpc * q + m,
                0 <= m < wpc,
                i < n,
                wpc <= n,
        ;
        assert((r - 1) * gap <= (n - 1) * gap) by (nonlinear_arith)
            requires
                r <= n,
                gap >= 0,
        ;
        let wh = column_window_height(area, gap, n, q);
        assert(wh >= 0) by (nonlinear_arith)
            requires
                wh == (area.size.h - (r - 1) * gap) / r,
                area.size.h - (r - 1) * gap >= 0,
                r >= 1,
        ;
        if m + 1 < wpc {
            lemma_fundamental_div_mod_converse(i + 1, wpc, q, m + 1);
            assert((m + 1) * (wh + gap) == m * (wh + gap) + wh + gap) by (nonlinear_arith);
        } else {
            assert(i + 1 == (q + 1) * wpc + 0) by (nonlinear_arith)
                requires
                    i == wpc * q + m,
                    m + 1 == wpc,
            ;
            lemma_fundamental_div_mod_converse(i + 1, wpc, q + 1, 0);
            assert((q + 1) * (cw + gap) == q * (cw + gap) + cw + gap) by (nonlinear_arith);
        }
    }
}

} // verus!
