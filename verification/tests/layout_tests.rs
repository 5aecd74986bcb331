use aurorawm::config::Config;
use aurorawm::geometry::{Point, Rectangle, Size};
use aurorawm::layout::{LayoutEngine, LayoutType};

fn r(x: i32, y: i32, w: i32, h: i32) -> Rectangle {
    Rectangle { loc: Point { x, y }, size: Size { w, h } }
}

fn screen() -> Rectangle {
    r(0, 0, 1920, 1080)
}

fn windows(n: usize) -> Vec<Rectangle> {
    (0..n).map(|i| r(i as i32, i as i32, 100, 100)).collect()
}

fn engine(layout: LayoutType) -> LayoutEngine {
    let mut e = LayoutEngine::new(&Config::default());
    e.set_layout(layout);
    e
}

#[test]
fn new_engine_uses_configured_layout() {
    let mut config = Config::default();
    assert_eq!(LayoutEngine::new(&config).current_layout, LayoutType::Dwindle);
    for (name, layout) in [
        ("master", LayoutType::Master),
        ("spiral", LayoutType::Spiral),
        ("columns", LayoutType::Columns),
        ("grid", LayoutType::Grid),
        ("floating", LayoutType::Floating),
        ("Grid", LayoutType::Dwindle),
        ("", LayoutType::Dwindle),
    ] {
        config.layout.default = name.to_string();
        let e = LayoutEngine::new(&config);
        assert_eq!(e.current_layout, layout);
        assert_eq!(e.window_count, 0);
        assert_eq!(e.config.default, name);
        assert_eq!(e.config.gaps.inner, 8);
    }
}

#[test]
fn set_layout_switches() {
    let mut e = engine(LayoutType::Dwindle);
    e.set_layout(LayoutType::Grid);
    assert_eq!(e.current_layout, LayoutType::Grid);
}

#[test]
fn dwindle_splits_halves() {
    let e = engine(LayoutType::Dwindle);
    assert_eq!(e.arrange(&windows(0), screen()), vec![]);
    assert_eq!(e.arrange(&windows(1), screen()), vec![r(8, 8, 1904, 1064)]);
    assert_eq!(
        e.arrange(&windows(2), screen()),
        vec![r(8, 8, 948, 1064), r(964, 8, 948, 1064)]
    );
    assert_eq!(
        e.arrange(&windows(3), screen()),
        vec![r(8, 8, 948, 1064), r(964, 8, 948, 528), r(964, 544, 948, 528)]
    );
}

#[test]
fn spiral_matches_dwindle() {
    let d = engine(LayoutType::Dwindle);
    let s = engine(LayoutType::Spiral);
    for n in 0..7 {
        assert_eq!(d.arrange(&windows(n), screen()), s.arrange(&windows(n), screen()));
    }
}

#[test]
fn master_takes_three_fifths() {
    let e = engine(LayoutType::Master);
    assert_eq!(e.arrange(&windows(1), screen()), vec![r(8, 8, 1138, 1064)]);
    assert_eq!(
        e.arrange(&windows(3), screen()),
        vec![r(8, 8, 1138, 1064), r(1154, 8, 758, 528), r(1154, 544, 758, 528)]
    );
}

#[test]
fn columns_fill_in_order() {
    let e = engine(LayoutType::Columns);
    assert_eq!(
        e.arrange(&windows(4), screen()),
        vec![r(8, 8, 629, 528), r(8, 544, 629, 528), r(645, 8, 629, 528), r(645, 544, 629, 528)]
    );
    assert_eq!(
        e.arrange(&windows(2), screen()),
        vec![r(8, 8, 948, 1064), r(964, 8, 948, 1064)]
    );
}

#[test]
fn grid_uses_square_root_columns() {
    let e = engine(LayoutType::Grid);
    assert_eq!(
        e.arrange(&windows(5), screen()),
        vec![
            r(8, 8, 629, 528),
            r(645, 8, 629, 528),
            r(1282, 8, 629, 528),
            r(8, 544, 629, 528),
            r(645, 544, 629, 528)
        ]
    );
    assert_eq!(
        e.arrange(&windows(4), screen()),
        vec![r(8, 8, 948, 528), r(964, 8, 948, 528), r(8, 544, 948, 528), r(964, 544, 948, 528)]
    );
}

#[test]
fn floating_keeps_geometry() {
    let e = engine(LayoutType::Floating);
    let w = windows(3);
    assert_eq!(e.arrange(&w, screen()), w);
}

#[test]
fn tiny_output_gives_empty_tiles() {
    let e = engine(LayoutType::Dwindle);
    assert_eq!(
        e.arrange(&windows(2), r(0, 0, 10, 10)),
        vec![r(8, 8, 0, 0), r(12, 8, 0, 0)]
    );
}

#[test]
fn tiled_layouts_never_overlap() {
    for layout in [
        LayoutType::Dwindle,
        LayoutType::Master,
        LayoutType::Spiral,
        LayoutType::Columns,
        LayoutType::Grid,
    ] {
        let e = engine(layout);
        for n in 1..12 {
            let tiles = e.arrange(&windows(n), screen());
            assert_eq!(tiles.len(), n);
            for (i, a) in tiles.iter().enumerate() {
                assert!(a.loc.x >= 8 && a.loc.x + a.size.w <= 1912);
                assert!(a.loc.y >= 8 && a.loc.y + a.size.h <= 1072);
                for b in tiles.iter().skip(i + 1) {
                    let apart = a.loc.x + a.size.w <= b.loc.x
                        || b.loc.x + b.size.w <= a.loc.x
                        || a.loc.y + a.size.h <= b.loc.y
                        || b.loc.y + b.size.h <= a.loc.y;
                    assert!(apart, "{:?} overlaps {:?}", a, b);
                }
            }
        }
    }
}

#[test]
fn try_arrange_matches_arrange() {
    for layout in [
        LayoutType::Dwindle,
        LayoutType::Master,
        LayoutType::Spiral,
        LayoutType::Columns,
        LayoutType::Grid,
        LayoutType::Floating,
    ] {
        let e = engine(layout);
        for n in 0..9 {
            assert!(e.arrangement_fits(n, screen()));
            assert_eq!(e.try_arrange(&windows(n), screen()), Some(e.arrange(&windows(n), screen())));
        }
    }
}

#[test]
fn try_arrange_refuses_overflow() {
    let e = engine(LayoutType::Dwindle);
    assert_eq!(e.try_arrange(&windows(1), r(i32::MAX - 3, 0, 100, 100)), None);
    assert!(!e.arrangement_fits(1, r(0, i32::MAX - 7, 100, 100)));
    assert!(e.arrangement_fits(1, r(0, i32::MAX - 8, 100, 100)));
    let mut e = engine(LayoutType::Master);
    e.config.gaps.inner = 2_000_000_000;
    assert!(e.arrangement_fits(1, screen()));
    assert!(e.try_arrange(&windows(3), screen()).is_some());
    assert_eq!(e.try_arrange(&windows(4), screen()), None);
    let mut e = engine(LayoutType::Floating);
    e.config.gaps.outer = 1_500_000_000;
    assert_eq!(e.try_arrange(&windows(2), screen()), None);
    assert!(e.arrangement_fits(0, r(0, 0, 0, 0)) == false);
}

#[test]
fn negative_gap_from_large_setting() {
    let mut e = engine(LayoutType::Columns);
    e.config.gaps.inner = u32::MAX;
    assert_eq!(
        e.try_arrange(&windows(2), screen()),
        Some(vec![r(8, 8, 952, 1064), r(959, 8, 952, 1064)])
    );
}

#[test]
fn spiral_arranges_as_dwindle() {
    let e = engine(LayoutType::Spiral);
    let area = Rectangle { loc: Point { x: 8, y: 8 }, size: Size { w: 1904, h: 1064 } };
    for n in 0..6 {
        let windows: Vec<Rectangle> = (0..n)
            .map(|i| Rectangle { loc: Point { x: i, y: i }, size: Size { w: 100, h: 100 } })
            .collect();
        assert_eq!(
            e.arrange_spiral(&windows, area, 8, 2),
            e.arrange_dwindle(&windows, area, 8, 2)
        );
    }
}
