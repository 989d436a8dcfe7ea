use parallel_pandas::decimal::u64_to_decimal;
use parallel_pandas::surface::sum_as_string;
use parallel_pandas::surface::sum_numbers;

#[test]
fn decimal_zero() {
    assert_eq!(u64_to_decimal(0), "0");
}

#[test]
fn decimal_single_digit() {
    assert_eq!(u64_to_decimal(7), "7");
}

#[test]
fn decimal_many_digits() {
    assert_eq!(u64_to_decimal(1234567890), "1234567890");
    assert_eq!(u64_to_decimal(10), "10");
    assert_eq!(u64_to_decimal(u64::MAX), "18446744073709551615");
}

#[test]
fn sum_as_string_small() {
    assert_eq!(sum_as_string(2, 3), Some(String::from("5")));
}

#[test]
fn sum_as_string_zero() {
    assert_eq!(sum_as_string(0, 0), Some(String::from("0")));
}

#[test]
fn sum_as_string_boundary() {
    let expected = usize::MAX.to_string();
    assert_eq!(sum_as_string(usize::MAX, 0), Some(expected));
}

#[test]
fn sum_as_string_overflow_rejected() {
    assert_eq!(sum_as_string(usize::MAX, 1), None);
    assert_eq!(sum_as_string(usize::MAX, usize::MAX), None);
}

#[test]
fn sum_numbers_example() {
    let numbers = vec![1, 2, 3, 4];
    assert_eq!(sum_numbers(&numbers), Some(10));
}

#[test]
fn sum_numbers_empty() {
    let numbers: Vec<u32> = vec![];
    assert_eq!(sum_numbers(&numbers), Some(0));
}

#[test]
fn sum_numbers_boundary() {
    assert_eq!(sum_numbers(&vec![u32::MAX]), Some(u32::MAX));
    assert_eq!(sum_numbers(&vec![u32::MAX - 1, 1]), Some(u32::MAX));
}

#[test]
fn sum_numbers_overflow_rejected() {
    assert_eq!(sum_numbers(&vec![u32::MAX, 1]), None);
    assert_eq!(sum_numbers(&vec![2000000000, 2000000000, 2000000000]), None);
}
