use rtrs::binary32::Binary32;
use rtrs::bty::{init_bty_cursor, update_bty_cursor, BTYCursor, BTYfield, BottomBoundaryRuntimeModel};
use rtrs::grid::{binary_search, find_cell_index, find_index_range, march_cell_index};
use rtrs::ssp::{init_ssp_cursor, update_ssp_cursor, SSPAxes, SSPCursor};

fn b(v: f32) -> Binary32 {
    Binary32 { bits: v.to_bits() }
}

fn bs(vs: &[f32]) -> Vec<Binary32> {
    vs.iter().map(|v| b(*v)).collect()
}

#[test]
fn binary_search_finds_or_places() {
    let arr = bs(&[0.0, 10.0, 20.0]);
    assert_eq!(binary_search(&arr, b(10.0)), Ok(1));
    assert_eq!(binary_search(&arr, b(-0.0)), Ok(0));
    assert_eq!(binary_search(&arr, b(5.0)), Err(1));
    assert_eq!(binary_search(&arr, b(-5.0)), Err(0));
    assert_eq!(binary_search(&arr, b(25.0)), Err(3));
}

#[test]
fn find_cell_index_clamps_to_grid() {
    let arr = bs(&[0.0, 10.0, 20.0]);
    assert_eq!(find_cell_index(&arr, b(-5.0)), 0);
    assert_eq!(find_cell_index(&arr, b(0.0)), 0);
    assert_eq!(find_cell_index(&arr, b(5.0)), 0);
    assert_eq!(find_cell_index(&arr, b(10.0)), 1);
    assert_eq!(find_cell_index(&arr, b(15.0)), 1);
    assert_eq!(find_cell_index(&arr, b(20.0)), 1);
    assert_eq!(find_cell_index(&arr, b(25.0)), 1);
}

#[test]
fn march_moves_to_the_cell_of_the_position() {
    let arr = bs(&[0.0, 10.0, 20.0, 30.0]);
    let mut idx = 0;
    march_cell_index(&arr, b(25.0), &mut idx);
    assert_eq!(idx, 2);
    march_cell_index(&arr, b(5.0), &mut idx);
    assert_eq!(idx, 0);
    march_cell_index(&arr, b(-1.0), &mut idx);
    assert_eq!(idx, 0);
    march_cell_index(&arr, b(31.0), &mut idx);
    assert_eq!(idx, 2);
}

#[test]
fn march_on_a_grid_point_keeps_the_side_it_came_from() {
    let arr = bs(&[0.0, 10.0, 20.0, 30.0]);
    let mut from_below = 0;
    march_cell_index(&arr, b(10.0), &mut from_below);
    assert_eq!(from_below, 0);
    let mut from_above = 2;
    march_cell_index(&arr, b(10.0), &mut from_above);
    assert_eq!(from_above, 1);
}

#[test]
fn march_with_nan_position_stays() {
    let arr = bs(&[0.0, 10.0, 20.0]);
    let mut idx = 1;
    march_cell_index(&arr, b(f32::NAN), &mut idx);
    assert_eq!(idx, 1);
}

#[test]
fn march_on_short_axis_gives_zero() {
    let arr = bs(&[5.0]);
    let mut idx = 3;
    march_cell_index(&arr, b(1.0), &mut idx);
    assert_eq!(idx, 0);
}

#[test]
fn march_is_idempotent() {
    let arr = bs(&[0.0, 1.0, 4.0, 9.0, 16.0]);
    for start in 0..5 {
        for v in [-1.0f32, 0.5, 1.0, 4.0, 7.0, 15.9, 20.0] {
            let mut idx = start;
            march_cell_index(&arr, b(v), &mut idx);
            let first = idx;
            march_cell_index(&arr, b(v), &mut idx);
            assert_eq!(idx, first);
        }
    }
}

#[test]
fn march_after_find_keeps_the_cell() {
    let arr = bs(&[0.0, 1.0, 4.0, 9.0, 16.0]);
    for v in [-1.0f32, 0.0, 0.5, 1.0, 4.0, 7.0, 16.0, 20.0] {
        let found = find_cell_index(&arr, b(v));
        let mut idx = found;
        march_cell_index(&arr, b(v), &mut idx);
        assert_eq!(idx, found);
    }
}

#[test]
fn index_range_inside_bounds() {
    let arr = bs(&[0.0, 1.0, 2.0, 3.0]);
    assert_eq!(find_index_range(&arr, b(0.5), b(2.5)), Some((1, 2)));
    assert_eq!(find_index_range(&arr, b(1.0), b(1.0)), Some((1, 1)));
    assert_eq!(find_index_range(&arr, b(-10.0), b(10.0)), Some((0, 3)));
    assert_eq!(find_index_range(&arr, b(4.0), b(5.0)), None);
    assert_eq!(find_index_range(&arr, b(-5.0), b(-1.0)), None);
    assert_eq!(find_index_range(&arr, b(1.2), b(1.8)), None);
    assert_eq!(find_index_range(&arr, b(2.0), b(1.0)), None);
}

fn ssp_axes() -> SSPAxes {
    SSPAxes { x: bs(&[0.0, 10.0]), y: bs(&[0.0, 10.0]), z: bs(&[0.0, 10.0]) }
}

#[test]
fn ssp_cursor_init_and_update() {
    let axes = ssp_axes();
    let c = init_ssp_cursor([b(2.0), b(3.0), b(4.0)], &axes);
    assert_eq!(c, SSPCursor { i: 0, j: 0, k: 0 });
    let axes = SSPAxes { x: bs(&[0.0, 1.0, 2.0]), y: bs(&[0.0, 1.0, 2.0]), z: bs(&[0.0, 5.0, 10.0, 15.0]) };
    let mut c = init_ssp_cursor([b(0.5), b(1.5), b(12.0)], &axes);
    assert_eq!(c, SSPCursor { i: 0, j: 1, k: 2 });
    update_ssp_cursor([b(0.5), b(1.5), b(12.0)], &axes, &mut c);
    assert_eq!(c, SSPCursor { i: 0, j: 1, k: 2 });
    update_ssp_cursor([b(1.5), b(0.5), b(3.0)], &axes, &mut c);
    assert_eq!(c, SSPCursor { i: 1, j: 0, k: 0 });
}

#[test]
fn bty_cursor_init_and_update() {
    let bty = BTYfield {
        x: bs(&[0.0, 100.0, 200.0]),
        y: bs(&[0.0, 100.0]),
        z: bs(&[50.0, 50.0, 60.0, 60.0, 70.0, 70.0]),
        bottom_model: BottomBoundaryRuntimeModel::Rigid,
        water_density_g_cm3: b(1.0),
    };
    let mut c = init_bty_cursor([b(150.0), b(20.0), b(10.0)], &bty);
    assert_eq!(c, BTYCursor { i: 1, j: 0 });
    update_bty_cursor([b(50.0), b(20.0), b(10.0)], &bty, &mut c);
    assert_eq!(c, BTYCursor { i: 0, j: 0 });
}
