use fractals_wasm::grid::{generate, FractalConfig};

fn grid(re_steps: usize, im_steps: usize, max_iters: usize) -> FractalConfig<f64> {
    FractalConfig {
        start_re: -2.0,
        end_re: 1.0,
        re_steps,
        start_im: -1.0,
        end_im: 1.0,
        im_steps,
        max_iters,
    }
}

// The point of the plane that a cell samples.
fn sample(conf: &FractalConfig<f64>, col: usize, row: usize) -> (f64, f64) {
    let re_particle = (conf.end_re - conf.start_re) / conf.re_steps as f64;
    let im_particle = (conf.end_im - conf.start_im) / conf.im_steps as f64;
    (conf.start_re + re_particle * col as f64, conf.start_im + im_particle * row as f64)
}

#[test]
fn walk_has_one_point_per_cell() {
    let points = generate(&grid(3, 2, 50), |_, col, row| (col, row));
    assert_eq!(points.len(), 6);
}

#[test]
fn walk_is_row_major_with_rows_outermost() {
    let points = generate(&grid(3, 2, 50), |_, col, row| (col, row));
    assert_eq!(points, vec![(0, 0), (1, 0), (2, 0), (0, 1), (1, 1), (2, 1)]);
}

#[test]
fn walk_of_three_by_two_grid_maps_cells_to_plane_points() {
    let conf = grid(3, 2, 50);
    let points = generate(&conf, sample);
    assert_eq!(points.len(), conf.re_steps * conf.im_steps);
    for i in 0..conf.im_steps {
        for j in 0..conf.re_steps {
            let re = conf.start_re + (conf.end_re - conf.start_re) / 3.0 * j as f64;
            let im = conf.start_im + (conf.end_im - conf.start_im) / 2.0 * i as f64;
            assert_eq!(points[conf.re_steps * i + j], (re, im));
        }
    }
    assert_eq!(points[0], (-2.0, -1.0));
    assert_eq!(points[1], (-1.0, -1.0));
    assert_eq!(points[2], (0.0, -1.0));
    assert_eq!(points[3], (-2.0, 0.0));
    assert_eq!(points[4], (-1.0, 0.0));
    assert_eq!(points[5], (0.0, 0.0));
}

#[test]
fn walk_hands_the_grid_to_every_cell() {
    let conf = grid(4, 3, 77);
    let points = generate(&conf, |seen, _, _| (seen.max_iters, seen == &conf));
    assert_eq!(points, vec![(77, true); 12]);
}

#[test]
fn walk_visits_each_cell_once_in_order() {
    let seen = std::cell::RefCell::new(Vec::new());
    let points = generate(&grid(2, 3, 1), |_, col, row| {
        seen.borrow_mut().push((col, row));
        seen.borrow().len()
    });
    assert_eq!(points, vec![1, 2, 3, 4, 5, 6]);
    assert_eq!(*seen.borrow(), vec![(0, 0), (1, 0), (0, 1), (1, 1), (0, 2), (1, 2)]);
}

#[test]
fn square_grid_may_be_indexed_by_either_step_count() {
    let n = 4usize;
    let points = generate(&grid(n, n, 1), |_, col, row| (col, row));
    for i in 0..n {
        for j in 0..n {
            assert_eq!(points[n * i + j], (j, i));
        }
    }
}

#[test]
fn grid_without_columns_or_rows_is_empty() {
    assert!(generate(&grid(0, 5, 50), |_, col, row| (col, row)).is_empty());
    assert!(generate(&grid(5, 0, 50), |_, col, row| (col, row)).is_empty());
}

#[test]
fn every_position_belongs_to_one_cell() {
    let (re_steps, im_steps) = (5usize, 3usize);
    let points = generate(&grid(re_steps, im_steps, 1), |_, col, row| (col, row));
    for (at, cell) in points.iter().enumerate() {
        assert_eq!(*cell, (at % re_steps, at / re_steps));
        assert_eq!(re_steps * cell.1 + cell.0, at);
    }
}
