use term_raytracer::grid::clamp_rows;

#[test]
fn quotient_of_one_or_more_is_kept() {
    assert_eq!(clamp_rows(1), 1);
    assert_eq!(clamp_rows(2), 2);
    assert_eq!(clamp_rows(225), 225);
    assert_eq!(clamp_rows(i32::MAX), i32::MAX);
}

#[test]
fn quotient_below_one_gives_one_row() {
    assert_eq!(clamp_rows(0), 1);
    assert_eq!(clamp_rows(-1), 1);
    assert_eq!(clamp_rows(i32::MIN), 1);
}

#[test]
fn four_hundred_columns_at_sixteen_to_nine() {
    let aspect_ratio: f64 = 16.0 / 9.0;
    let quotient = (400 as f64 / aspect_ratio) as i32;
    assert_eq!(clamp_rows(quotient), 225);
}

#[test]
fn one_column_at_a_thousand_to_one() {
    let aspect_ratio: f64 = 1000.0;
    let quotient = (1 as f64 / aspect_ratio) as i32;
    assert_eq!(quotient, 0);
    assert_eq!(clamp_rows(quotient), 1);
}

#[test]
fn clamped_rows_are_stable() {
    for quotient in [-5, 0, 1, 7, 400] {
        let rows = clamp_rows(quotient);
        assert_eq!(clamp_rows(rows), rows);
        assert!(rows >= 1);
    }
}
