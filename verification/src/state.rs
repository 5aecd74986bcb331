//! Decisions of the compositor's event loop: workspaces, pointer dragging,
//! re-arranging windows and their animation.

use vstd::prelude::*;

use crate::geometry::{Point, Rectangle, Size};
use crate::input::Direction;
use crate::layout::LayoutType;
use crate::text::str_eq;

verus! {

/// What the pointer is doing with a window.
#[derive(Debug, Clone, Copy, PartialEq, Eq, Structural)]
pub enum MouseMode {
    Idle,
    Moving,
    Resizing,
}

/// What a pointer button event does to the drag state.
#[derive(Debug, Clone, Copy, PartialEq, Eq, Structural)]
pub struct PointerButtonOutcome {
    /// The mode after the event.
    pub mode: MouseMode,
    /// The clicked window becomes the dragged one.
    pub start_drag: bool,
    /// The dragged window is let go.
    pub end_drag: bool,
}

/// The easing curve of window animations.
#[derive(Debug, Clone, Copy, PartialEq, Eq, Structural)]
pub enum Easing {
    Linear,
    EaseOutCubic,
    EaseInOutCubic,
}

/// A window whose position changed: where it was and where it goes.
#[derive(Debug, Clone, Copy, PartialEq, Eq, Structural)]
pub struct AnimMove {
    pub index: usize,
    pub old_pos: Point,
    pub new_pos: Point,
}

/// The effect of a pointer button: pressing on a window while the super key
/// is held starts moving that window; releasing ends any drag; any other
/// press leaves the mode as it is.
pub open spec fn pointer_button_spec(
    current: MouseMode,
    pressed: bool,
    window_clicked: bool,
    super_held: bool,
) -> PointerButtonOutcome {
    if pressed {
        if window_clicked && super_held {
            PointerButtonOutcome { mode: MouseMode::Moving, start_drag: true, end_drag: false }
        } else {
            PointerButtonOutcome { mode: current, start_drag: false, end_drag: false }
        }
    } else if current != MouseMode::Idle {
        PointerButtonOutcome { mode: MouseMode::Idle, start_drag: false, end_drag: true }
    } else {
        PointerButtonOutcome { mode: current, start_drag: false, end_drag: false }
    }
}

/// Decides what a pointer button event does to the drag state.
pub fn pointer_button(
    current: MouseMode,
    pressed: bool,
    window_clicked: bool,
    super_held: bool,
) -> (outcome: PointerButtonOutcome)
    ensures
        outcome == pointer_button_spec(current, pressed, window_clicked, super_held),
{
    if pressed {
        if window_clicked && super_held {
            PointerButtonOutcome { mode: MouseMode::Moving, start_drag: true, end_drag: false }
        } else {
            PointerButtonOutcome { mode: current, start_drag: false, end_drag: false }
        }
    } else if current != MouseMode::Idle {
        PointerButtonOutcome { mode: MouseMode::Idle, start_drag: false, end_drag: true }
    } else {
        PointerButtonOutcome { mode: current, start_drag: false, end_drag: false }
    }
}

/// The current workspace after asking, with `count` workspaces and
/// `current` the current one, to switch to `idx`: `idx` when it exists,
/// `current` otherwise.
pub open spec fn current_after_switch(count: nat, current: usize, idx: usize) -> usize {
    if idx < count && idx != current {
        idx
    } else {
        current
    }
}

/// Switches to workspace `idx`: it becomes the current one, so it is the one
/// shown; the workspaces themselves are left as they are. Nothing happens
/// when `idx` is out of range or already current. Returns whether a switch
/// happened.
pub fn switch_workspace<T>(workspaces: &Vec<T>, current: &mut usize, idx: usize) -> (switched: bool)
    ensures
        switched == (idx < workspaces@.len() && idx != *old(current)),
        *final(current) == current_after_switch(workspaces@.len(), *old(current), idx),
{
    if idx < workspaces.len() && idx != *current {
        *current = idx;
        true
    } else {
        false
    }
}

/// The windows whose position differs between `old` and `new`, compared
/// position by position over the first `k` positions, in order.
pub open spec fn moves(old: Seq<Point>, new: Seq<Point>, k: nat) -> Seq<AnimMove>
    decreases k,
{
    if k == 0 {
        seq![]
    } else {
        let j = (k - 1) as nat;
        let earlier = moves(old, new, j);
        if old[j as int] != new[j as int] {
            earlier.push(AnimMove { index: j as usize, old_pos: old[j as int], new_pos: new[j as int] })
        } else {
            earlier
        }
    }
}

/// The smaller of two lengths.
pub open spec fn min_len(a: nat, b: nat) -> nat {
    if a < b {
        a
    } else {
        b
    }
}

/// The windows that an arrangement moved: for each position present in both
/// lists, in order, the ones whose old and new positions differ.
pub fn moved_windows(old_positions: &Vec<Point>, new_positions: &Vec<Point>) -> (moved: Vec<
    AnimMove,
>)
    ensures
        moved@ == moves(
            old_positions@,
            new_positions@,
            min_len(old_positions@.len(), new_positions@.len()),
        ),
{
    let count = if old_positions.len() < new_positions.len() {
        old_positions.len()
    } else {
        new_positions.len()
    };
    let mut moved: Vec<AnimMove> = Vec::new();
    let mut i: usize = 0;
    while i < count
        invariant
            0 <= i <= count,
            count <= old_positions@.len(),
            count <= new_positions@.len(),
            moved@ == moves(old_positions@, new_positions@, i as nat),
        decreases count - i,
    {
        let old_pos = old_positions[i];
        let new_pos = new_positions[i];
        if old_pos != new_pos {
            moved.push(AnimMove { index: i, old_pos, new_pos });
        }
        i += 1;
    }
    moved
}

/// Whether an arrangement starts an animation, and of which windows: with
/// animations enabled and some window moved, the moved windows (the first of
/// them is then shown at its old position until the animation runs);
/// otherwise none.
pub fn animation_start(
    enabled: bool,
    old_positions: &Vec<Point>,
    new_positions: &Vec<Point>,
) -> (started: Option<Vec<AnimMove>>)
    ensures
        started is Some <==> enabled && moves(
            old_positions@,
            new_positions@,
            min_len(old_positions@.len(), new_positions@.len()),
        ).len() > 0,
        started matches Some(m) ==> m@ == moves(
            old_positions@,
            new_positions@,
            min_len(old_positions@.len(), new_positions@.len()),
        ),
{
    if !enabled {
        return None;
    }
    let moved = moved_windows(old_positions, new_positions);
    if moved.len() == 0 {
        None
    } else {
        Some(moved)
    }
}

/// The size a window is asked to take for geometry `geo`: at least one by one.
pub fn configure_size(geo: Rectangle) -> (size: Size)
    ensures
        size.w == (if geo.size.w < 1 { 1 } else { geo.size.w }),
        size.h == (if geo.size.h < 1 { 1 } else { geo.size.h }),
{
    Size {
        w: if geo.size.w < 1 {
            1
        } else {
            geo.size.w
        },
        h: if geo.size.h < 1 {
            1
        } else {
            geo.size.h
        },
    }
}

/// The area of the output at the origin: its mode's size, or 1280 by 800 when
/// it has no mode.
pub fn output_area(mode_size: Option<Size>) -> (area: Rectangle)
    ensures
        area.loc == (Point { x: 0, y: 0 }),
        area.size == (match mode_size {
            Some(s) => s,
            None => Size { w: 1280, h: 800 },
        }),
{
    let size = match mode_size {
        Some(s) => s,
        None => Size { w: 1280, h: 800 },
    };
    Rectangle { loc: Point { x: 0, y: 0 }, size }
}

/// The easing that a configured name selects; an unknown name selects the
/// cubic ease-out.
pub open spec fn easing_for_name(name: Seq<char>) -> Easing {
    if name == "linear"@ {
        Easing::Linear
    } else if name == "ease-in-out-cubic"@ {
        Easing::EaseInOutCubic
    } else {
        Easing::EaseOutCubic
    }
}

/// The easing that `name` selects.
pub fn easing_from_name(name: &str) -> (easing: Easing)
    ensures
        easing == easing_for_name(name@),
{
    proof {
        reveal_strlit("ease-out-cubic");
        reveal_strlit("ease-in-out-cubic");
        assert("ease-out-cubic"@.len() != "ease-in-out-cubic"@.len());
    }
    if str_eq(name, "linear") {
        Easing::Linear
    } else if str_eq(name, "ease-out-cubic") {
        Easing::EaseOutCubic
    } else if str_eq(name, "ease-in-out-cubic") {
        Easing::EaseInOutCubic
    } else {
        Easing::EaseOutCubic
    }
}

} // verus!

verus! {

/// Twice the horizontal center of `r`.
pub open spec fn center_x2(r: Rectangle) -> int {
    2 * r.loc.x + r.size.w
}

/// Twice the vertical center of `r`.
pub open spec fn center_y2(r: Rectangle) -> int {
    2 * r.loc.y + r.size.h
}

/// The center of `to` lies strictly in direction `dir` from the center of `from`.
pub open spec fn lies_toward(from: Rectangle, to: Rectangle, dir: Direction) -> bool {
    match dir {
        Direction::Left => center_x2(to) < center_x2(from),
        Direction::Right => center_x2(to) > center_x2(from),
        Direction::Up => center_y2(to) < center_y2(from),
        Direction::Down => center_y2(to) > center_y2(from),
    }
}

/// Twice the distance between the centers, along the axes.
pub open spec fn center_distance(a: Rectangle, b: Rectangle) -> int {
    let dx = center_x2(a) - center_x2(b);
    let dy = center_y2(a) - center_y2(b);
    (if dx < 0 { -dx } else { dx }) + (if dy < 0 { -dy } else { dy })
}

/// Window `k` is another window whose center lies in direction `dir` from window `from`.
pub open spec fn is_toward(windows: Seq<Rectangle>, from: int, dir: Direction, k: int) -> bool {
    &&& 0 <= k < windows.len()
    &&& k != from
    &&& lies_toward(windows[from], windows[k], dir)
}

/// Window `j` is the window in direction `dir` nearest to window `from`; of
/// equally near ones, the first.
pub open spec fn is_nearest_toward(windows: Seq<Rectangle>, from: int, dir: Direction, j: int) -> bool {
    &&& is_toward(windows, from, dir, j)
    &&& forall|k: int|
        #[trigger] is_toward(windows, from, dir, k) ==> center_distance(windows[from], windows[j])
            < center_distance(windows[from], windows[k]) || (center_distance(
            windows[from],
            windows[j],
        ) == center_distance(windows[from], windows[k]) && j <= k)
}

/// The window nearest to window `from` in direction `dir`, for moving the
/// focus or a window that way; none when no window lies that way.
pub fn neighbor_in_direction(windows: &Vec<Rectangle>, from: usize, dir: Direction) -> (r: Option<
    usize,
>)
    requires
        from < windows@.len(),
    ensures
        r matches Some(j) ==> is_nearest_toward(windows@, from as int, dir, j as int),
        r is None ==> forall|k: int| !#[trigger] is_toward(windows@, from as int, dir, k),
{
    let origin = windows[from];
    let ox = 2 * (origin.loc.x as i64) + origin.size.w as i64;
    let oy = 2 * (origin.loc.y as i64) + origin.size.h as i64;
    let mut best: Option<usize> = None;
    let mut best_distance: i64 = 0;
    let mut k: usize = 0;
    while k < windows.len()
        invariant
            0 <= k <= windows@.len(),
            from < windows@.len(),
            origin == windows@[from as int],
            ox == center_x2(origin),
            oy == center_y2(origin),
            best matches Some(j) ==> {
                &&& j < k
                &&& is_toward(windows@, from as int, dir, j as int)
                &&& best_distance == center_distance(origin, windows@[j as int])
                &&& forall|m: int|
                    0 <= m < k && #[trigger] is_toward(windows@, from as int, dir, m) ==> best_distance
                        < center_distance(origin, windows@[m]) || (best_distance
                        == center_distance(origin, windows@[m]) && j <= m)
            },
            best is None ==> forall|m: int|
                0 <= m < k ==> !#[trigger] is_toward(windows@, from as int, dir, m),
        decreases windows@.len() - k,
    {
        let w = windows[k];
        let wx = 2 * (w.loc.x as i64) + w.size.w as i64;
        let wy = 2 * (w.loc.y as i64) + w.size.h as i64;
        let toward = match dir {
            Direction::Left => wx < ox,
            Direction::Right => wx > ox,
            Direction::Up => wy < oy,
            Direction::Down => wy > oy,
        };
        if k != from && toward {
            let dx = if ox - wx < 0 {
                wx - ox
            } else {
                ox - wx
            };
            let dy = if oy - wy < 0 {
                wy - oy
            } else {
                oy - wy
            };
            let distance = dx + dy;
            assert(distance == center_distance(origin, w));
            let better = match best {
                None => true,
                Some(_) => distance < best_distance,
            };
            if better {
                best = Some(k);
                best_distance = distance;
            }
        }
        k += 1;
    }
    best
}

/// The layout that follows `layout` when cycling through the layouts.
pub open spec fn next_layout_spec(layout: LayoutType) -> LayoutType {
    match layout {
        LayoutType::Dwindle => LayoutType::Master,
        LayoutType::Master => LayoutType::Spiral,
        LayoutType::Spiral => LayoutType::Columns,
        LayoutType::Columns => LayoutType::Grid,
        LayoutType::Grid => LayoutType::Floating,
        LayoutType::Floating => LayoutType::Dwindle,
    }
}

/// The layout that follows `layout`: dwindle, master, spiral, columns, grid,
/// floating, and then dwindle again.
pub fn next_layout(layout: LayoutType) -> (next: LayoutType)
    ensures
        next == next_layout_spec(layout),
{
    match layout {
        LayoutType::Dwindle => LayoutType::Master,
        LayoutType::Master => LayoutType::Spiral,
        LayoutType::Spiral => LayoutType::Columns,
        LayoutType::Columns => LayoutType::Grid,
        LayoutType::Grid => LayoutType::Floating,
        LayoutType::Floating => LayoutType::Dwindle,
    }
}

/// Exchanges the items at `i` and `j`, as moving a window into the place of
/// another does to the order in which windows are tiled.
pub fn exchange<T>(items: &mut Vec<T>, i: usize, j: usize)
    requires
        i < old(items)@.len(),
        j < old(items)@.len(),
    ensures
        final(items)@ == old(items)@.update(i as int, old(items)@[j as int]).update(
            j as int,
            old(items)@[i as int],
        ),
{
    if i == j {
        assert(items@ =~= items@.update(i as int, items@[j as int]).update(j as int, items@[i as int]));
        return;
    }
    let ghost before = items@;
    let (lo, hi) = if i < j {
        (i, j)
    } else {
        (j, i)
    };
    let mut taken = items.remove(hi);
    items.set_and_swap(lo, &mut taken);
    items.insert(hi, taken);
    assert(items@ =~= before.update(i as int, before[j as int]).update(j as int, before[i as int]));
}

/// The positions of the windows that are tiled (not floating), in order.
pub fn tiled_indices(floating: &Vec<bool>) -> (tiled: Vec<usize>)
    ensures
        forall|k: int| 0 <= k < tiled@.len() ==> (#[trigger] tiled@[k]) < floating@.len() && !floating@[tiled@[k] as int],
        forall|k: int, m: int| 0 <= k < m < tiled@.len() ==> #[trigger] tiled@[k] < #[trigger] tiled@[m],
        forall|i: int| 0 <= i < floating@.len() && !floating@[i] ==> tiled@.contains(i as usize),
{
    let mut tiled: Vec<usize> = Vec::new();
    let mut i: usize = 0;
    while i < floating.len()
        invariant
            0 <= i <= floating@.len(),
            forall|k: int| 0 <= k < tiled@.len() ==> (#[trigger] tiled@[k]) < i && !floating@[tiled@[k] as int],
            forall|k: int, m: int| 0 <= k < m < tiled@.len() ==> #[trigger] tiled@[k] < #[trigger] tiled@[m],
            forall|p: int| 0 <= p < i && !floating@[p] ==> tiled@.contains(p as usize),
        decreases floating@.len() - i,
    {
        if !floating[i] {
            let ghost before = tiled@;
            tiled.push(i);
            assert forall|p: int| 0 <= p < i + 1 && !floating@[p] implies tiled@.contains(p as usize) by {
                if p < i {
                    let q = choose|q: int| 0 <= q < before.len() && before[q] == p as usize;
                    assert(tiled@[q] == p as usize);
                } else {
                    assert(tiled@[tiled@.len() - 1] == p as usize);
                }
            }
        }
        i += 1;
    }
    tiled
}

} // verus!
