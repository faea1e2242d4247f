use interstellar_rust::algo::pso::grid_cell;
use interstellar_rust::playback::{adjust_sim_speed, INITIAL_SIM_SPEED, SIM_SPEED_LIMIT};
use interstellar_rust::render::drawing::visible_segments;
use interstellar_rust::render::mouse::{apply_mouse_lock, mouse_lock_request};
use interstellar_rust::simulation::world::simplify_trajectory;

#[test]
fn simplify_keeps_every_third() {
    let v: Vec<u32> = (0..10).collect();
    assert_eq!(simplify_trajectory(&v, 3), vec![0, 3, 6, 9]);
}

#[test]
fn simplify_exact_multiple_length() {
    let v: Vec<u32> = (0..10).collect();
    assert_eq!(simplify_trajectory(&v, 5), vec![0, 5]);
}

#[test]
fn simplify_step_one_is_identity() {
    let v: Vec<i64> = vec![4, -2, 7, 7, 0];
    assert_eq!(simplify_trajectory(&v, 1), v);
}

#[test]
fn simplify_step_longer_than_input_keeps_first() {
    let v: Vec<u8> = vec![9, 8, 7];
    assert_eq!(simplify_trajectory(&v, 300), vec![9]);
    assert_eq!(simplify_trajectory(&v, 3), vec![9]);
}

#[test]
fn simplify_empty_input() {
    let v: Vec<u8> = Vec::new();
    assert!(simplify_trajectory(&v, 4).is_empty());
}

#[test]
fn simplify_floating_point_states() {
    let states: Vec<(f64, f64)> = (0..7).map(|i| (i as f64 * 5.0, i as f64 * 0.5)).collect();
    let out = simplify_trajectory(&states, 2);
    assert_eq!(out, vec![(0.0, 0.0), (10.0, 1.0), (20.0, 2.0), (30.0, 3.0)]);
}

#[test]
fn grid_cell_digits_in_active_dimensions() {
    let frozen = [false, false, false, true, true, true];
    assert_eq!(
        grid_cell(5, &frozen, 2),
        vec![Some(1), Some(0), Some(1), None, None, None]
    );
}

#[test]
fn grid_cell_skips_frozen_dimension_between_active_ones() {
    let frozen = [false, true, false];
    assert_eq!(grid_cell(7, &frozen, 3), vec![Some(1), None, Some(2)]);
}

#[test]
fn grid_cell_all_frozen_needs_no_points() {
    let frozen = [true, true];
    assert_eq!(grid_cell(4, &frozen, 0), vec![None, None]);
}

#[test]
fn grid_cell_no_dimensions() {
    let frozen: [bool; 0] = [];
    assert!(grid_cell(3, &frozen, 5).is_empty());
}

#[test]
fn grid_cells_are_distinct_and_in_range() {
    let frozen = [false, false, false, true, true, true];
    let p = 5usize;
    let cells: Vec<Vec<Option<usize>>> = (0..p * p * p).map(|i| grid_cell(i, &frozen, p)).collect();
    for (i, a) in cells.iter().enumerate() {
        assert_eq!(a.len(), frozen.len());
        for (j, c) in a.iter().enumerate() {
            assert_eq!(c.is_none(), frozen[j]);
            if let Some(d) = c {
                assert!(*d < p);
            }
        }
        for b in cells.iter().skip(i + 1) {
            assert_ne!(a, b);
        }
    }
}

#[test]
fn grid_cell_wraps_beyond_grid() {
    let frozen = [false];
    assert_eq!(grid_cell(3, &frozen, 3), grid_cell(0, &frozen, 3));
}

#[test]
fn segments_break_at_hidden_points() {
    let visible = [true, true, false, true, true, true];
    assert_eq!(visible_segments(&visible), vec![(0, 1), (3, 4), (4, 5)]);
}

#[test]
fn segments_of_short_or_hidden_lines() {
    assert!(visible_segments(&[]).is_empty());
    assert!(visible_segments(&[true]).is_empty());
    assert!(visible_segments(&[false, false, false]).is_empty());
    assert!(visible_segments(&[true, false, true, false]).is_empty());
    assert_eq!(visible_segments(&[true, true]), vec![(0, 1)]);
}

#[test]
fn escape_releases_even_with_click() {
    assert_eq!(mouse_lock_request(true, true), Some(false));
    assert_eq!(mouse_lock_request(true, false), Some(false));
    assert!(!apply_mouse_lock(true, mouse_lock_request(true, true)));
}

#[test]
fn click_captures() {
    assert_eq!(mouse_lock_request(false, true), Some(true));
    assert!(apply_mouse_lock(false, mouse_lock_request(false, true)));
}

#[test]
fn no_input_keeps_lock() {
    assert_eq!(mouse_lock_request(false, false), None);
    assert!(apply_mouse_lock(true, None));
    assert!(!apply_mouse_lock(false, None));
}

#[test]
fn speed_steps_up_and_down() {
    assert_eq!(INITIAL_SIM_SPEED, 3600);
    assert_eq!(adjust_sim_speed(3600, true, false, false), 3800);
    assert_eq!(adjust_sim_speed(3600, false, true, false), 3400);
    assert_eq!(adjust_sim_speed(3600, true, true, false), 3600);
    assert_eq!(adjust_sim_speed(3600, false, false, false), 3600);
}

#[test]
fn speed_is_capped() {
    assert_eq!(adjust_sim_speed(7100, true, false, false), 7200);
    assert_eq!(adjust_sim_speed(SIM_SPEED_LIMIT, true, false, false), 7200);
    assert_eq!(adjust_sim_speed(-7100, false, true, false), -7200);
    assert_eq!(adjust_sim_speed(-SIM_SPEED_LIMIT, false, true, false), -7200);
    assert_eq!(adjust_sim_speed(i64::MAX, true, false, false), 7200);
    assert_eq!(adjust_sim_speed(i64::MIN, false, true, false), -7200);
    assert_eq!(adjust_sim_speed(7200, true, true, false), 7000);
}

#[test]
fn pause_stops_playback() {
    assert_eq!(adjust_sim_speed(3600, true, false, true), 0);
    assert_eq!(adjust_sim_speed(-7200, false, true, true), 0);
}

#[test]
fn speed_stays_on_grid_over_many_frames() {
    let mut s = INITIAL_SIM_SPEED;
    for frame in 0..500u32 {
        let up = frame % 3 != 0;
        let down = frame % 7 == 0;
        let pause = frame % 97 == 0;
        s = adjust_sim_speed(s, up, down, pause);
        assert!((-7200..=7200).contains(&s));
        assert_eq!(s % 200, 0);
    }
}
