use baerscript::grid::Point;
use baerscript::parser::{collatz_sequence, divide, get_point_instructions, multiply};
use baerscript::token::Token;

#[test]
fn test_multiply() {
    assert_eq!(3, multiply(0));
    assert_eq!(6, multiply(1));
    assert_eq!(9, multiply(2));
}

#[test]
fn parser_test_multiply() {
    assert_eq!(multiply(0), 3);
    assert_eq!(multiply(1), 6);
    assert_eq!(multiply(2), 9);
}

#[test]
fn test_divide() {
    assert_eq!(2, divide(5));
    assert_eq!(3, divide(8));
}

#[test]
fn parser_test_divide() {
    assert_eq!(divide(5), 2);
    assert_eq!(divide(8), 3);
}

#[test]
fn test_collatz() {
    assert_eq!(9, collatz_sequence(2));
    assert_eq!(1, collatz_sequence(3));
}

#[test]
fn parser_test_collatz() {
    assert_eq!(collatz_sequence(2), 9);
    assert_eq!(collatz_sequence(3), 1);
}

#[test]
fn test_get_point_instructions() {
    assert_eq!(
        ((1, 6), 3),
        get_point_instructions(3, 6, &Point { token: Token::Multiply }, 3, None)
    );

    assert_eq!(
        ((2, 10), 6),
        get_point_instructions(5, 9, &Point { token: Token::Down }, 6, None)
    );

    assert_eq!(
        ((2, 8), 6),
        get_point_instructions(5, 9, &Point { token: Token::Up }, 6, None)
    );

    assert_eq!(
        ((2, 9), 7),
        get_point_instructions(5, 9, &Point { token: Token::Add }, 6, None)
    );

    assert_eq!(
        ((2, 9), 5),
        get_point_instructions(5, 9, &Point { token: Token::Subtract }, 6, None)
    );

    assert_eq!(
        ((3, 0), 5),
        get_point_instructions(0, 0, &Point { token: Token::Null }, 5, None)
    );
}

#[test]
fn parser_test_get_point_instructions() {
    assert_eq!(
        get_point_instructions(3, 6, &Point { token: Token::Multiply }, 3, None),
        ((1, 6), 3)
    );

    assert_eq!(
        get_point_instructions(5, 9, &Point { token: Token::Down }, 6, None),
        ((2, 10), 6)
    );

    assert_eq!(
        get_point_instructions(5, 9, &Point { token: Token::Up }, 6, None),
        ((2, 8), 6)
    );

    assert_eq!(
        get_point_instructions(5, 9, &Point { token: Token::Add }, 6, None),
        ((2, 9), 7)
    );

    assert_eq!(
        get_point_instructions(5, 9, &Point { token: Token::Subtract }, 6, None),
        ((2, 9), 5)
    );

    assert_eq!(
        get_point_instructions(0, 0, &Point { token: Token::Null }, 5, None),
        ((3, 0), 5)
    );
}

#[test]
fn subtract_wraps_below_zero() {
    let r = get_point_instructions(5, 9, &Point { token: Token::Subtract }, 0, None);
    assert_eq!(((2, 9), u32::MAX), r);
}

#[test]
fn add_wraps_at_the_top() {
    let r = get_point_instructions(5, 9, &Point { token: Token::Add }, u32::MAX, None);
    assert_eq!(((2, 9), 0), r);
}

#[test]
fn left_takes_the_supplied_input() {
    let r = get_point_instructions(5, 9, &Point { token: Token::Left }, 6, Some(42));
    assert_eq!(((2, 9), 42), r);
}
