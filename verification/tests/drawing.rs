use space_rocks::display::{decimal_digits, outline_segments};

#[test]
fn zero_has_the_one_digit_zero() {
    assert_eq!(decimal_digits(0), vec![0]);
}

#[test]
fn digits_come_lowest_first() {
    assert_eq!(decimal_digits(7), vec![7]);
    assert_eq!(decimal_digits(10), vec![0, 1]);
    assert_eq!(decimal_digits(1_234), vec![4, 3, 2, 1]);
    assert_eq!(decimal_digits(5_099), vec![9, 9, 0, 5]);
    assert_eq!(decimal_digits(100_000), vec![0, 0, 0, 0, 0, 1]);
}

#[test]
fn the_digits_of_the_largest_number_spell_it() {
    let digits = decimal_digits(usize::MAX);
    assert!(digits.iter().all(|digit| *digit < 10));
    let spelled: String = digits.iter().rev().map(|digit| char::from(b'0' + digit)).collect();
    assert_eq!(spelled, format!("{}", usize::MAX));
}

#[test]
fn a_closed_outline_returns_to_its_first_point() {
    assert_eq!(outline_segments(5, true), vec![(0, 1), (1, 2), (2, 3), (3, 4), (4, 0)]);
    assert_eq!(outline_segments(3, true), vec![(0, 1), (1, 2), (2, 0)]);
    assert_eq!(outline_segments(1, true), vec![(0, 0)]);
}

#[test]
fn an_open_outline_ends_at_its_last_point() {
    assert_eq!(outline_segments(5, false), vec![(0, 1), (1, 2), (2, 3), (3, 4)]);
    assert_eq!(outline_segments(2, false), vec![(0, 1)]);
    assert_eq!(outline_segments(1, false), vec![]);
}

#[test]
fn an_outline_without_points_has_no_segments() {
    assert_eq!(outline_segments(0, true), vec![]);
    assert_eq!(outline_segments(0, false), vec![]);
}
