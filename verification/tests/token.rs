use rotor::token::Token;

#[test]
fn new_token_carries_index_and_generation() {
    let token = Token::new(7, 42);
    assert_eq!(token.as_usize(), 7);
    assert_eq!(token.counter(), Some(42));
}

#[test]
fn bare_token_carries_no_generation() {
    let token = Token::from_mio(3);
    assert_eq!(token.as_usize(), 3);
    assert_eq!(token.counter(), None);
    assert_eq!(Token::from_usize(3), token);
}

#[test]
fn set_counter_keeps_the_index() {
    let token = Token::from_mio(5).set_counter(9);
    assert_eq!(token, Token::new(5, 9));
    assert_eq!(token.set_counter(10), Token::new(5, 10));
}

#[test]
fn counter_eq_with_generation_accepts_that_generation_only() {
    let token = Token::new(1, 4);
    assert!(token.counter_eq(4));
    assert!(!token.counter_eq(3));
    assert!(!token.counter_eq(5));
}

#[test]
fn counter_eq_without_generation_accepts_any() {
    let token = Token::from_mio(1);
    assert!(token.counter_eq(0));
    assert!(token.counter_eq(4));
    assert!(token.counter_eq(u64::MAX));
}

#[test]
fn tokens_compare_by_index_and_generation() {
    assert_eq!(Token::new(2, 3), Token::new(2, 3));
    assert_ne!(Token::new(2, 3), Token::new(2, 4));
    assert_ne!(Token::new(2, 3), Token::new(1, 3));
    assert_ne!(Token::new(2, 3), Token::from_mio(2));
}
