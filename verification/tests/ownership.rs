use exercises::ownership::{
    byte_length, create_series, longest, pass_number_by_reference, pass_number_by_value,
    pass_vec_by_reference, sum, sum_borrowed, sum_owned,
};

#[test]
fn sum_of_two_numbers() {
    let a = 42;
    let b = 1;
    assert_eq!(sum(a, b), 43);
    assert_eq!(a, 42);
    assert_eq!(b, 1);
}

#[test]
fn sum_reaches_both_ends() {
    assert_eq!(sum(i32::MAX, 0), i32::MAX);
    assert_eq!(sum(i32::MIN, 0), i32::MIN);
    assert_eq!(sum(i32::MAX, i32::MIN), -1);
    assert_eq!(sum(-5, 3), -2);
}

#[test]
fn sum_owned_adds_all() {
    let v = vec![1, 2, 3];
    assert_eq!(sum_owned(v), 6);
}

#[test]
fn sum_owned_of_nothing() {
    assert_eq!(sum_owned(Vec::new()), 0);
}

#[test]
fn sum_borrowed_adds_all() {
    let v = vec![1, 2, 3];
    let v_ref = &v;
    assert_eq!(sum_borrowed(v_ref), 6);
    assert_eq!(v, vec![1, 2, 3]);
}

#[test]
fn sum_borrowed_of_nothing() {
    assert_eq!(sum_borrowed(&Vec::new()), 0);
}

#[test]
fn sums_take_negative_numbers() {
    let v = vec![10, -25, 5, -1];
    assert_eq!(sum_borrowed(&v), -11);
    assert_eq!(sum_owned(v), -11);
}

#[test]
fn sums_may_touch_the_limit() {
    let v = vec![i32::MAX - 1, 1, -i32::MAX, -1];
    assert_eq!(sum_borrowed(&v), -1);
    assert_eq!(sum_owned(v), -1);
}

#[test]
fn both_sums_agree() {
    let v = vec![7, 0, -3, 1_000_000, 12];
    let borrowed = sum_borrowed(&v);
    assert_eq!(borrowed, 1_000_016);
    assert_eq!(sum_owned(v), borrowed);
}

#[test]
fn series_from_forty_two() {
    assert_eq!(create_series(42), vec![42, 43, 44]);
}

#[test]
fn series_at_the_edges() {
    assert_eq!(create_series(i32::MAX - 2), vec![i32::MAX - 2, i32::MAX - 1, i32::MAX]);
    assert_eq!(create_series(i32::MIN), vec![i32::MIN, i32::MIN + 1, i32::MIN + 2]);
    assert_eq!(create_series(-1), vec![-1, 0, 1]);
}

#[test]
fn number_by_reference() {
    let number = 42;
    assert!(!pass_number_by_reference(&number));
    assert!(pass_number_by_reference(&-1));
    assert!(!pass_number_by_reference(&0));
    assert!(pass_number_by_reference(&i8::MIN));
}

#[test]
fn number_by_value() {
    let number = 42;
    assert!(!pass_number_by_value(number));
    assert!(!pass_number_by_value(number));
    assert!(pass_number_by_value(-1));
    assert!(!pass_number_by_value(0));
    assert!(!pass_number_by_value(i8::MAX));
}

#[test]
fn vec_by_reference() {
    let vec: Vec<i8> = vec![];
    assert!(pass_vec_by_reference(&vec));
    assert!(vec.is_empty());
    assert!(!pass_vec_by_reference(&vec![0]));
}

#[test]
fn byte_length_of_plain_text() {
    assert_eq!(byte_length("hello world"), 11);
    assert_eq!(byte_length(""), 0);
}

#[test]
fn byte_length_counts_bytes_not_letters() {
    assert_eq!(byte_length("\u{e9}"), 2);
    assert_eq!(byte_length("\u{20ac}uro"), 6);
}

#[test]
fn longest_of_two_names() {
    assert_eq!(longest("Alice", "Bob"), "Alice");
    assert_eq!(longest("Bob", "Alice"), "Alice");
}

#[test]
fn longest_takes_the_second_on_a_tie() {
    assert_eq!(longest("abc", "xyz"), "xyz");
    assert_eq!(longest("", ""), "");
}

#[test]
fn longest_goes_by_bytes() {
    assert_eq!(longest("\u{e9}\u{e9}", "abc"), "\u{e9}\u{e9}");
}
