use aurorawm::geometry::{Point, Rectangle, Size};
use aurorawm::input::Direction;
use aurorawm::layout::LayoutType;
use aurorawm::state::{
    animation_start, configure_size, easing_from_name, exchange, moved_windows, neighbor_in_direction, next_layout,
    output_area, pointer_button, switch_workspace, tiled_indices, AnimMove, Easing, MouseMode,
};

fn p(x: i32, y: i32) -> Point {
    Point { x, y }
}

#[test]
fn switching_shows_the_requested_workspace() {
    let ws = vec![10, 20, 30];
    let mut cur = 0;
    assert!(switch_workspace(&ws, &mut cur, 2));
    assert_eq!(cur, 2);
    assert_eq!(ws[cur], 30);
    assert!(!switch_workspace(&ws, &mut cur, 2));
    assert!(!switch_workspace(&ws, &mut cur, 5));
    assert_eq!(cur, 2);
    assert!(switch_workspace(&ws, &mut cur, 1));
    assert_eq!(ws[cur], 20);
    assert!(switch_workspace(&ws, &mut cur, 0));
    assert_eq!(ws[cur], 10);
    assert_eq!(ws, vec![10, 20, 30]);
}

fn r(x: i32, y: i32, w: i32, h: i32) -> Rectangle {
    Rectangle { loc: p(x, y), size: Size { w, h } }
}

#[test]
fn nearest_window_in_each_direction() {
    // a 2 x 2 grid of windows, plus one far to the right
    let windows = vec![
        r(0, 0, 100, 100),
        r(100, 0, 100, 100),
        r(0, 100, 100, 100),
        r(100, 100, 100, 100),
        r(500, 0, 100, 100),
    ];
    assert_eq!(neighbor_in_direction(&windows, 0, Direction::Right), Some(1));
    assert_eq!(neighbor_in_direction(&windows, 0, Direction::Down), Some(2));
    assert_eq!(neighbor_in_direction(&windows, 0, Direction::Left), None);
    assert_eq!(neighbor_in_direction(&windows, 0, Direction::Up), None);
    assert_eq!(neighbor_in_direction(&windows, 3, Direction::Up), Some(1));
    assert_eq!(neighbor_in_direction(&windows, 3, Direction::Left), Some(2));
    assert_eq!(neighbor_in_direction(&windows, 1, Direction::Right), Some(4));
    assert_eq!(neighbor_in_direction(&windows, 4, Direction::Left), Some(1));
    // equally near: the first wins
    let tie = vec![r(0, 0, 10, 10), r(20, -10, 10, 10), r(20, 10, 10, 10)];
    assert_eq!(neighbor_in_direction(&tie, 0, Direction::Right), Some(1));
    let alone = vec![r(0, 0, 10, 10)];
    assert_eq!(neighbor_in_direction(&alone, 0, Direction::Right), None);
}

#[test]
fn layouts_cycle_back_after_six_steps() {
    assert_eq!(next_layout(LayoutType::Dwindle), LayoutType::Master);
    assert_eq!(next_layout(LayoutType::Master), LayoutType::Spiral);
    assert_eq!(next_layout(LayoutType::Spiral), LayoutType::Columns);
    assert_eq!(next_layout(LayoutType::Columns), LayoutType::Grid);
    assert_eq!(next_layout(LayoutType::Grid), LayoutType::Floating);
    assert_eq!(next_layout(LayoutType::Floating), LayoutType::Dwindle);
    let mut l = LayoutType::Grid;
    for _ in 0..6 {
        l = next_layout(l);
    }
    assert_eq!(l, LayoutType::Grid);
}

#[test]
fn exchanging_windows() {
    let mut v = vec![1, 2, 3, 4];
    exchange(&mut v, 0, 2);
    assert_eq!(v, vec![3, 2, 1, 4]);
    exchange(&mut v, 3, 1);
    assert_eq!(v, vec![3, 4, 1, 2]);
    exchange(&mut v, 2, 2);
    assert_eq!(v, vec![3, 4, 1, 2]);
}

#[test]
fn tiled_windows_skip_floating_ones() {
    assert_eq!(tiled_indices(&vec![false, true, false, false, true]), vec![0, 2, 3]);
    assert_eq!(tiled_indices(&vec![true, true]), Vec::<usize>::new());
    assert_eq!(tiled_indices(&vec![]), Vec::<usize>::new());
}

#[test]
fn moved_windows_only() {
    let old = vec![p(0, 0), p(5, 5), p(1, 1)];
    let new = vec![p(0, 0), p(6, 5), p(1, 2), p(9, 9)];
    assert_eq!(
        moved_windows(&old, &new),
        vec![
            AnimMove { index: 1, old_pos: p(5, 5), new_pos: p(6, 5) },
            AnimMove { index: 2, old_pos: p(1, 1), new_pos: p(1, 2) }
        ]
    );
    assert!(moved_windows(&old, &old).is_empty());
}

#[test]
fn sizes_and_areas() {
    let geo = Rectangle { loc: p(3, 4), size: Size { w: 0, h: -3 } };
    assert_eq!(configure_size(geo), Size { w: 1, h: 1 });
    let geo = Rectangle { loc: p(3, 4), size: Size { w: 10, h: 20 } };
    assert_eq!(configure_size(geo), Size { w: 10, h: 20 });
    assert_eq!(output_area(None), Rectangle { loc: p(0, 0), size: Size { w: 1280, h: 800 } });
    assert_eq!(
        output_area(Some(Size { w: 1920, h: 1080 })),
        Rectangle { loc: p(0, 0), size: Size { w: 1920, h: 1080 } }
    );
}

#[test]
fn easings() {
    assert_eq!(easing_from_name("linear"), Easing::Linear);
    assert_eq!(easing_from_name("ease-out-cubic"), Easing::EaseOutCubic);
    assert_eq!(easing_from_name("ease-in-out-cubic"), Easing::EaseInOutCubic);
    assert_eq!(easing_from_name("bounce"), Easing::EaseOutCubic);
}

#[test]
fn dragging() {
    let o = pointer_button(MouseMode::Idle, true, true, true);
    assert_eq!(o.mode, MouseMode::Moving);
    assert!(o.start_drag && !o.end_drag);
    let o = pointer_button(MouseMode::Idle, true, true, false);
    assert_eq!(o.mode, MouseMode::Idle);
    assert!(!o.start_drag);
    let o = pointer_button(MouseMode::Moving, false, false, false);
    assert_eq!(o.mode, MouseMode::Idle);
    assert!(o.end_drag);
    let o = pointer_button(MouseMode::Idle, false, true, true);
    assert_eq!(o.mode, MouseMode::Idle);
    assert!(!o.end_drag);
    let o = pointer_button(MouseMode::Resizing, true, false, true);
    assert_eq!(o.mode, MouseMode::Resizing);
}

#[test]
fn animation_starts_only_when_something_moved() {
    let old = vec![p(0, 0), p(5, 5)];
    let new = vec![p(0, 0), p(6, 5)];
    assert_eq!(
        animation_start(true, &old, &new),
        Some(vec![AnimMove { index: 1, old_pos: p(5, 5), new_pos: p(6, 5) }])
    );
    assert_eq!(animation_start(false, &old, &new), None);
    assert_eq!(animation_start(true, &old, &old), None);
    assert_eq!(animation_start(true, &vec![], &new), None);
}
