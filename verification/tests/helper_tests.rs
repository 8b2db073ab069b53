use amm_pinocchio::helper::integer_sqrt;

#[test]
fn sqrt_of_zero_and_one() {
    assert_eq!(integer_sqrt(0), 0);
    assert_eq!(integer_sqrt(1), 1);
}

#[test]
fn sqrt_of_small_numbers_floors() {
    assert_eq!(integer_sqrt(2), 1);
    assert_eq!(integer_sqrt(3), 1);
    assert_eq!(integer_sqrt(4), 2);
    assert_eq!(integer_sqrt(8), 2);
    assert_eq!(integer_sqrt(9), 3);
    assert_eq!(integer_sqrt(15), 3);
    assert_eq!(integer_sqrt(16), 4);
}

#[test]
fn sqrt_of_first_deposit() {
    assert_eq!(integer_sqrt(50_000 * 50_000), 50_000);
}

#[test]
fn sqrt_of_squares_and_their_predecessors() {
    let mut n: u64 = 1;
    while n < 2_000 {
        assert_eq!(integer_sqrt(n * n), n);
        assert_eq!(integer_sqrt(n * n - 1), n - 1);
        n += 1;
    }
    let top: u64 = 4_294_967_295;
    assert_eq!(integer_sqrt(top * top), top);
    assert_eq!(integer_sqrt(top * top - 1), top - 1);
}

#[test]
fn sqrt_of_largest_input() {
    assert_eq!(integer_sqrt(u64::MAX), 4_294_967_295);
}
