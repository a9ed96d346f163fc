use wavesuit::geometry::{physical_index, staggered_index, Bounds};

#[test]
fn serpentine_even_column_runs_down() {
    assert_eq!(physical_index(5, 0, 0), 0);
    assert_eq!(physical_index(5, 0, 4), 4);
    assert_eq!(physical_index(5, 2, 3), 13);
}

#[test]
fn serpentine_odd_column_runs_up() {
    assert_eq!(physical_index(5, 1, 0), 9);
    assert_eq!(physical_index(5, 1, 4), 5);
    assert_eq!(physical_index(30, 3, 0), 119);
}

#[test]
fn physical_index_is_a_bijection() {
    for width in 2..7usize {
        for height in 2..7usize {
            let mut seen = vec![false; width * height];
            for x in 0..width {
                for y in 0..height {
                    let i = physical_index(height, x, y);
                    assert!(i < width * height);
                    assert!(!seen[i]);
                    seen[i] = true;
                }
            }
            assert!(seen.iter().all(|&s| s));
        }
    }
}

#[test]
fn staggered_index_uses_half_rows() {
    // Even column: whole rows, half-row 6 is row 3.
    assert_eq!(staggered_index(5, 0, 6), 3);
    // Odd column: half-row 3 is row 1.5, drawn on row 1 of an upward column.
    assert_eq!(staggered_index(5, 1, 3), 8);
    assert_eq!(staggered_index(4, 3, 7), 12);
}

#[test]
fn bounds_queries() {
    let b = Bounds { height: 30, width: 16 };
    assert_eq!(b.size(), 480);
    assert!(b.in_x(0));
    assert!(b.in_x(15));
    assert!(!b.in_x(16));
    assert!(!b.in_x(-1));
    assert!(b.in_y(0));
    assert!(b.in_y(59));
    assert!(!b.in_y(60));
    assert!(!b.in_y(-1));
    assert!(b.in_(3, 7));
    assert!(!b.in_(3, 60));
    assert_eq!(b.flip_u(0), 29);
    assert_eq!(b.flip_u(29), 0);
    assert_eq!(b.flip_x(0), 15);
    assert_eq!(b.flip_x(15), 0);
}

#[test]
fn in_scale_at_double_size() {
    let b = Bounds { height: 10, width: 4 };
    // Rows strictly between -5 and 15: half-rows strictly between -10 and 30.
    assert!(b.in_scale(0, -9, 2000));
    assert!(!b.in_scale(0, -10, 2000));
    assert!(b.in_scale(3, 29, 2000));
    assert!(!b.in_scale(3, 30, 2000));
    // At the panel's own size only the interior counts.
    assert!(b.in_scale(1, 2, 1000));
    assert!(!b.in_scale(0, 2, 1000));
}
