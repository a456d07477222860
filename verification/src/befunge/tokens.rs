//! The tokenizer: which instruction a character stands for.

use vstd::prelude::*;
use vstd::std_specs::convert::TryFromSpecImpl;

verus! {

/// The integer type of stack values and of grid cells.
pub type Data = u16;

/// The closed set of instructions, with a blank and a fallback for any other
/// character, so that decoding is total.
#[derive(Debug, PartialEq, Eq, Clone, Copy, Structural)]
pub enum Token {
    Add,
    Sub,
    Mul,
    Div,
    Mod,
    LogicalNot,
    GreaterThan,
    MoveRight,
    MoveLeft,
    MoveUp,
    MoveDown,
    MoveRandom,
    HorizontalIf,
    VerticalIf,
    StringModeToggle,
    Duplicate,
    Swap,
    Discard,
    IntOutput,
    CharOutput,
    Bridge,
    Get,
    Put,
    UserIntInput,
    UserCharInput,
    Exit,
    PushNumber(Data),
    Blank,
    Unknown(char),
}

/// The instruction that `c` stands for; a space is `Blank`, and a character
/// that names no instruction is `Unknown`.
pub open spec fn spec_decode(c: char) -> Token {
    if c == '+' {
        Token::Add
    } else if c == '-' {
        Token::Sub
    } else if c == '*' {
        Token::Mul
    } else if c == '/' {
        Token::Div
    } else if c == '%' {
        Token::Mod
    } else if c == '!' {
        Token::LogicalNot
    } else if c == '`' {
        Token::GreaterThan
    } else if c == '>' {
        Token::MoveRight
    } else if c == '<' {
        Token::MoveLeft
    } else if c == '^' {
        Token::MoveUp
    } else if c == 'v' {
        Token::MoveDown
    } else if c == '?' {
        Token::MoveRandom
    } else if c == '_' {
        Token::HorizontalIf
    } else if c == '|' {
        Token::VerticalIf
    } else if c == '"' {
        Token::StringModeToggle
    } else if c == ':' {
        Token::Duplicate
    } else if c == '\\' {
        Token::Swap
    } else if c == '$' {
        Token::Discard
    } else if c == '.' {
        Token::IntOutput
    } else if c == ',' {
        Token::CharOutput
    } else if c == '#' {
        Token::Bridge
    } else if c == 'g' {
        Token::Get
    } else if c == 'p' {
        Token::Put
    } else if c == '&' {
        Token::UserIntInput
    } else if c == '~' {
        Token::UserCharInput
    } else if c == '@' {
        Token::Exit
    } else if '0' <= c && c <= '9' {
        Token::PushNumber((c as u8 - 48) as Data)
    } else if c == ' ' {
        Token::Blank
    } else {
        Token::Unknown(c)
    }
}

/// The character that writes `t` in a program's source.
pub open spec fn spec_symbol(t: Token) -> char {
    match t {
        Token::Add => '+',
        Token::Sub => '-',
        Token::Mul => '*',
        Token::Div => '/',
        Token::Mod => '%',
        Token::LogicalNot => '!',
        Token::GreaterThan => '`',
        Token::MoveRight => '>',
        Token::MoveLeft => '<',
        Token::MoveUp => '^',
        Token::MoveDown => 'v',
        Token::MoveRandom => '?',
        Token::HorizontalIf => '_',
        Token::VerticalIf => '|',
        Token::StringModeToggle => '"',
        Token::Duplicate => ':',
        Token::Swap => '\\',
        Token::Discard => '$',
        Token::IntOutput => '.',
        Token::CharOutput => ',',
        Token::Bridge => '#',
        Token::Get => 'g',
        Token::Put => 'p',
        Token::UserIntInput => '&',
        Token::UserCharInput => '~',
        Token::Exit => '@',
        Token::PushNumber(n) => (48 + n % 10) as char,
        Token::Blank => ' ',
        Token::Unknown(c) => c,
    }
}

/// Whether `t` is a value that decoding can produce: a pushed number is a
/// single digit, and an unknown character names no instruction.
pub open spec fn spec_canonical(t: Token) -> bool {
    match t {
        Token::PushNumber(n) => n <= 9,
        Token::Unknown(c) => spec_decode(c) == Token::Unknown(c),
        _ => true,
    }
}

impl Token {
    /// Decodes one character. Total: every character has a token.
    pub fn decode(c: char) -> (t: Token)
        ensures
            t == spec_decode(c),
    {
        if c == '+' {
            Token::Add
        } else if c == '-' {
            Token::Sub
        } else if c == '*' {
            Token::Mul
        } else if c == '/' {
            Token::Div
        } else if c == '%' {
            Token::Mod
        } else if c == '!' {
            Token::LogicalNot
        } else if c == '`' {
            Token::GreaterThan
        } else if c == '>' {
            Token::MoveRight
        } else if c == '<' {
            Token::MoveLeft
        } else if c == '^' {
            Token::MoveUp
        } else if c == 'v' {
            Token::MoveDown
        } else if c == '?' {
            Token::MoveRandom
        } else if c == '_' {
            Token::HorizontalIf
        } else if c == '|' {
            Token::VerticalIf
        } else if c == '"' {
            Token::StringModeToggle
        } else if c == ':' {
            Token::Duplicate
        } else if c == '\\' {
            Token::Swap
        } else if c == '$' {
            Token::Discard
        } else if c == '.' {
            Token::IntOutput
        } else if c == ',' {
            Token::CharOutput
        } else if c == '#' {
            Token::Bridge
        } else if c == 'g' {
            Token::Get
        } else if c == 'p' {
            Token::Put
        } else if c == '&' {
            Token::UserIntInput
        } else if c == '~' {
            Token::UserCharInput
        } else if c == '@' {
            Token::Exit
        } else if '0' <= c && c <= '9' {
            let code: u32 = c as u32;
            Token::PushNumber((code - 48) as Data)
        } else if c == ' ' {
            Token::Blank
        } else {
            Token::Unknown(c)
        }
    }

    /// The character that writes this token in a program's source. A pushed
    /// number is written by its last decimal digit.
    pub fn symbol(self) -> (c: char)
        ensures
            c == spec_symbol(self),
    {
        match self {
            Token::Add => '+',
            Token::Sub => '-',
            Token::Mul => '*',
            Token::Div => '/',
            Token::Mod => '%',
            Token::LogicalNot => '!',
            Token::GreaterThan => '`',
            Token::MoveRight => '>',
            Token::MoveLeft => '<',
            Token::MoveUp => '^',
            Token::MoveDown => 'v',
            Token::MoveRandom => '?',
            Token::HorizontalIf => '_',
            Token::VerticalIf => '|',
            Token::StringModeToggle => '"',
            Token::Duplicate => ':',
            Token::Swap => '\\',
            Token::Discard => '$',
            Token::IntOutput => '.',
            Token::CharOutput => ',',
            Token::Bridge => '#',
            Token::Get => 'g',
            Token::Put => 'p',
            Token::UserIntInput => '&',
            Token::UserCharInput => '~',
            Token::Exit => '@',
            Token::PushNumber(n) => crate::text::digit_to_char((n % 10) as u8),
            Token::Blank => ' ',
            Token::Unknown(c) => c,
        }
    }

    /// Whether this token is an instruction, that is, neither blank nor unknown.
    pub fn is_instruction(self) -> (b: bool)
        ensures
            b == spec_is_instruction(self),
    {
        match self {
            Token::Blank => false,
            Token::Unknown(_) => false,
            _ => true,
        }
    }
}

/// Neither blank nor unknown.
pub open spec fn spec_is_instruction(t: Token) -> bool {
    !(t is Blank) && !(t is Unknown)
}

impl TryFrom<char> for Token {
    type Error = ();

    /// The instruction that `value` names, or `Err` where it names none.
    fn try_from(value: char) -> (r: Result<Self, Self::Error>) {
        let t = Token::decode(value);
        if t.is_instruction() {
            Ok(t)
        } else {
            Err(())
        }
    }
}

impl TryFromSpecImpl<char> for Token {
    open spec fn obeys_try_from_spec() -> bool {
        true
    }

    open spec fn try_from_spec(value: char) -> Result<Self, Self::Error> {
        if spec_is_instruction(spec_decode(value)) {
            Ok(spec_decode(value))
        } else {
            Err(())
        }
    }
}

/// Decoding a character and writing the token back gives the same character,
/// for every character.
pub proof fn lemma_decode_then_symbol(c: char)
    ensures
        spec_symbol(spec_decode(c)) == c,
        spec_canonical(spec_decode(c)),
{
}

/// Writing a canonical token and decoding the character gives the same token:
/// on canonical tokens the mapping between tokens and characters is one to one.
pub proof fn lemma_symbol_then_decode(t: Token)
    requires
        spec_canonical(t),
    ensures
        spec_decode(spec_symbol(t)) == t,
{
}

/// Two characters with the same token are the same character.
pub proof fn lemma_decode_injective(a: char, b: char)
    requires
        spec_decode(a) == spec_decode(b),
    ensures
        a == b,
{
    lemma_decode_then_symbol(a);
    lemma_decode_then_symbol(b);
}

} // verus!
