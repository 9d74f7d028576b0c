use ray_tracing::camera::pixel_position;
use ray_tracing::rtweekend::random_int_range;
use ray_tracing::texture::checker_is_even;

#[test]
fn random_int_stays_in_range() {
    for _ in 0..1000 {
        let r = random_int_range(3, 9);
        assert!((3..=9).contains(&r));
    }
}

#[test]
fn random_int_single_value() {
    assert_eq!(random_int_range(7, 7), 7);
    assert_eq!(random_int_range(0, 0), 0);
}

#[test]
fn random_int_full_range() {
    let _ = random_int_range(0, usize::MAX);
}

#[test]
fn checker_parity_small() {
    assert!(checker_is_even(0, 0, 0));
    assert!(!checker_is_even(1, 0, 0));
    assert!(checker_is_even(-3, 4, 1));
    assert!(!checker_is_even(-3, 4, 0));
    assert!(checker_is_even(-1, -1, 0));
    assert!(!checker_is_even(-1, -1, -1));
}

#[test]
fn checker_alternates_along_axes() {
    for x in -4i64..4 {
        for y in -4i64..4 {
            for z in -4i64..4 {
                let e = checker_is_even(x, y, z);
                assert_eq!(checker_is_even(x + 1, y, z), !e);
                assert_eq!(checker_is_even(x, y + 1, z), !e);
                assert_eq!(checker_is_even(x, y, z + 1), !e);
            }
        }
    }
}

#[test]
fn checker_parity_at_extremes() {
    assert!(!checker_is_even(i64::MAX, i64::MAX, i64::MAX));
    assert!(checker_is_even(i64::MIN, i64::MIN, i64::MIN));
    assert!(!checker_is_even(i64::MAX, i64::MIN, 0));
    assert!(checker_is_even(i64::MAX, i64::MAX, 0));
}

#[test]
fn pixel_positions_row_major() {
    assert_eq!(pixel_position(0, 4), (0, 0));
    assert_eq!(pixel_position(3, 4), (3, 0));
    assert_eq!(pixel_position(4, 4), (0, 1));
    assert_eq!(pixel_position(7, 3), (1, 2));
    assert_eq!(pixel_position(11, 1), (0, 11));
}

#[test]
fn pixel_positions_cover_image_once() {
    let (w, h) = (5usize, 3usize);
    let mut seen = vec![false; w * h];
    for idx in 0..w * h {
        let (i, j) = pixel_position(idx, w);
        assert!((i as usize) < w && (j as usize) < h);
        let back = j as usize * w + i as usize;
        assert_eq!(back, idx);
        assert!(!seen[back]);
        seen[back] = true;
    }
}
