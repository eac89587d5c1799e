use request_router::fib::{fibonacci_numeral, MAX_INDEX};
use request_router::fibonacci;

#[test]
fn fibonacci_starts_with_zero_and_one() {
    assert_eq!(fibonacci(0), 0);
    assert_eq!(fibonacci(1), 1);
}

#[test]
fn fibonacci_of_small_indices() {
    let expected: [u32; 13] = [0, 1, 1, 2, 3, 5, 8, 13, 21, 34, 55, 89, 144];
    for (n, value) in expected.iter().enumerate() {
        assert_eq!(fibonacci(n as u32), *value);
    }
}

#[test]
fn fibonacci_is_the_sum_of_the_two_before() {
    for n in 2..25u32 {
        assert_eq!(fibonacci(n), fibonacci(n - 1) + fibonacci(n - 2));
    }
}

#[test]
fn fibonacci_of_larger_indices() {
    assert_eq!(fibonacci(20), 6765);
    assert_eq!(fibonacci(30), 832040);
}

#[test]
fn max_index_is_the_last_that_fits() {
    assert_eq!(MAX_INDEX, 47);
    let mut a: u64 = 0;
    let mut b: u64 = 1;
    for _ in 0..MAX_INDEX {
        let next = a + b;
        a = b;
        b = next;
    }
    assert_eq!(a, 2971215073);
    assert!(a <= u32::MAX as u64);
    assert!(b > u32::MAX as u64);
}

#[test]
fn fibonacci_numeral_of_small_indices() {
    assert_eq!(fibonacci_numeral(0), b"0".to_vec());
    assert_eq!(fibonacci_numeral(1), b"1".to_vec());
    assert_eq!(fibonacci_numeral(2), b"1".to_vec());
    assert_eq!(fibonacci_numeral(7), b"13".to_vec());
    assert_eq!(fibonacci_numeral(10), b"55".to_vec());
    assert_eq!(fibonacci_numeral(30), b"832040".to_vec());
}

#[test]
fn fibonacci_numeral_writes_what_fibonacci_computes() {
    for n in 0..=24u32 {
        assert_eq!(fibonacci_numeral(n), fibonacci(n).to_string().into_bytes());
    }
}
