//! The closed set of symbols that a program may contain, with the
//! character-to-symbol mapping and its inverse.

use vstd::prelude::*;

verus! {

/// One parsed unit of program text.
#[derive(Clone, Copy, Debug, PartialEq, Eq, Structural)]
pub enum Token {
    Null,
    Add,
    Multiply,
    Subtract,
    Left,
    Right,
    Up,
    Down,
    Comment,
    BlankSpace,
    OpenSquareBracket,
    ClosedSquareBracket,
}

/// A character that no symbol corresponds to.
#[derive(Clone, Copy, Debug, PartialEq, Eq, Structural)]
pub struct InvalidChar {
    pub character: char,
}

/// The character-to-symbol mapping. `.` `+` `-` `*` `<` `>` `^` `v` `#` `[`
/// `]` are the code characters; space, tab and U+0032 (the character
/// historically accepted as a blank) are elided blanks; every other character
/// is invalid.
pub open spec fn token_of(c: char) -> Option<Token> {
    if c == '.' {
        Some(Token::Null)
    } else if c == '+' {
        Some(Token::Add)
    } else if c == '-' {
        Some(Token::Subtract)
    } else if c == '*' {
        Some(Token::Multiply)
    } else if c == '<' {
        Some(Token::Left)
    } else if c == '>' {
        Some(Token::Right)
    } else if c == '^' {
        Some(Token::Up)
    } else if c == 'v' {
        Some(Token::Down)
    } else if c == '#' {
        Some(Token::Comment)
    } else if c == '[' {
        Some(Token::OpenSquareBracket)
    } else if c == ']' {
        Some(Token::ClosedSquareBracket)
    } else if c == ' ' || c == '\t' || c == '\u{0032}' {
        Some(Token::BlankSpace)
    } else {
        None
    }
}

/// The symbol-to-character rendering, the exact inverse of [`token_of`] on
/// the code-bearing symbols. `Null` and `BlankSpace` both render as a space:
/// the two are visually indistinguishable, though only `Null` occupies a grid
/// position.
pub open spec fn char_of(t: Token) -> char {
    match t {
        Token::Null => ' ',
        Token::Add => '+',
        Token::Subtract => '-',
        Token::Multiply => '*',
        Token::Left => '<',
        Token::Right => '>',
        Token::Up => '^',
        Token::Down => 'v',
        Token::Comment => '#',
        Token::BlankSpace => ' ',
        Token::OpenSquareBracket => '[',
        Token::ClosedSquareBracket => ']',
    }
}

impl Token {
    /// Parse a single character into a symbol, or report the offending
    /// character.
    pub fn from_char(c: char) -> (r: Result<Token, InvalidChar>)
        ensures
            token_of(c) matches Some(t) ==> r == Ok::<Token, InvalidChar>(t),
            token_of(c) is None ==> r == Err::<Token, InvalidChar>(InvalidChar { character: c }),
    {
        if c == '.' {
            Ok(Token::Null)
        } else if c == '+' {
            Ok(Token::Add)
        } else if c == '-' {
            Ok(Token::Subtract)
        } else if c == '*' {
            Ok(Token::Multiply)
        } else if c == '<' {
            Ok(Token::Left)
        } else if c == '>' {
            Ok(Token::Right)
        } else if c == '^' {
            Ok(Token::Up)
        } else if c == 'v' {
            Ok(Token::Down)
        } else if c == '#' {
            Ok(Token::Comment)
        } else if c == '[' {
            Ok(Token::OpenSquareBracket)
        } else if c == ']' {
            Ok(Token::ClosedSquareBracket)
        } else if c == ' ' || c == '\t' || c == '\u{0032}' {
            Ok(Token::BlankSpace)
        } else {
            Err(InvalidChar { character: c })
        }
    }

    /// Render a symbol as the character it is written as.
    pub fn to_char(self) -> (r: char)
        ensures
            r == char_of(self),
    {
        match self {
            Token::Null => ' ',
            Token::Add => '+',
            Token::Subtract => '-',
            Token::Multiply => '*',
            Token::Left => '<',
            Token::Right => '>',
            Token::Up => '^',
            Token::Down => 'v',
            Token::Comment => '#',
            Token::BlankSpace => ' ',
            Token::OpenSquareBracket => '[',
            Token::ClosedSquareBracket => ']',
        }
    }
}

/// Rendering then parsing restores every symbol except `Null`, whose
/// rendering (a space) parses back as `BlankSpace`.
pub proof fn lemma_render_parse_round_trip(t: Token)
    requires
        t != Token::Null,
    ensures
        token_of(char_of(t)) == Some(t),
{
    match t {
        Token::Null => {}
        Token::Add => assert(token_of('+') == Some(Token::Add)),
        Token::Multiply => assert(token_of('*') == Some(Token::Multiply)),
        Token::Subtract => assert(token_of('-') == Some(Token::Subtract)),
        Token::Left => assert(token_of('<') == Some(Token::Left)),
        Token::Right => assert(token_of('>') == Some(Token::Right)),
        Token::Up => assert(token_of('^') == Some(Token::Up)),
        Token::Down => assert(token_of('v') == Some(Token::Down)),
        Token::Comment => assert(token_of('#') == Some(Token::Comment)),
        Token::BlankSpace => assert(token_of(' ') == Some(Token::BlankSpace)),
        Token::OpenSquareBracket => assert(token_of('[') == Some(Token::OpenSquareBracket)),
        Token::ClosedSquareBracket => assert(token_of(']') == Some(Token::ClosedSquareBracket)),
    }
}

/// Parsing then rendering restores every character that maps to a
/// code-bearing symbol; the characters that map to `Null` or `BlankSpace`
/// all render as a space.
pub proof fn lemma_parse_render_round_trip(c: char, t: Token)
    requires
        token_of(c) == Some(t),
        t != Token::Null,
        t != Token::BlankSpace,
    ensures
        char_of(t) == c,
{
}

} // verus!
