use polynomial_solver::fizz_buzz::FizzBuzzNumber;

#[test]
fn displays_fizzbuzz() {
    assert_eq!("FizzBuzz", FizzBuzzNumber::new(15).render());
    assert_eq!("FizzBuzz", FizzBuzzNumber::new(30).render());
    assert_eq!("FizzBuzz", FizzBuzzNumber::new(45).render());
}

#[test]
fn displays_fizz() {
    assert_eq!("Fizz", FizzBuzzNumber::new(3).render());
    assert_eq!("Fizz", FizzBuzzNumber::new(6).render());
    assert_eq!("Fizz", FizzBuzzNumber::new(9).render());
}

#[test]
fn displays_buzz() {
    assert_eq!("Buzz", FizzBuzzNumber::new(5).render());
    assert_eq!("Buzz", FizzBuzzNumber::new(10).render());
    assert_eq!("Buzz", FizzBuzzNumber::new(20).render());
}

#[test]
fn displays_number() {
    assert_eq!("2", FizzBuzzNumber::new(2).render());
    assert_eq!("Fizz", FizzBuzzNumber::new(78).render());
    assert_eq!("43", FizzBuzzNumber::new(43).render());
}

#[test]
fn other_numbers_are_written_in_decimal() {
    assert_eq!("2", FizzBuzzNumber::new(2).render());
    assert_eq!("43", FizzBuzzNumber::new(43).render());
    assert_eq!("Fizz", FizzBuzzNumber::new(78).render());
    assert_eq!("77", FizzBuzzNumber::new(77).render());
}

#[test]
fn displays_negative_numbers_with_a_sign() {
    assert_eq!("-7", FizzBuzzNumber::new(-7).render());
    assert_eq!("-2147483648", FizzBuzzNumber::new(i32::MIN).render());
    assert_eq!("2147483647", FizzBuzzNumber::new(i32::MAX).render());
}

#[test]
fn zero_and_negative_multiples_are_fizzbuzz() {
    assert_eq!("FizzBuzz", FizzBuzzNumber::new(0).render());
    assert_eq!("FizzBuzz", FizzBuzzNumber::new(-15).render());
    assert_eq!("Fizz", FizzBuzzNumber::new(-3).render());
    assert_eq!("Buzz", FizzBuzzNumber::new(-5).render());
}
