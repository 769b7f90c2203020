//! The byte classes of the grammar: which byte values may continue a token.

use vstd::prelude::*;

verus! {

/// A fixed set of byte values that decides where a token may continue.
#[derive(Clone, Copy, Debug, PartialEq, Eq, Structural)]
pub enum ByteClass {
    /// Bytes of a method or of a header name.
    Token,
    /// Bytes of a request target.
    Uri,
    /// Bytes of a header value.
    HeaderValue,
    /// Bytes of a chunk extension.
    ChunkExtension,
    /// Hexadecimal digits, in either case.
    HexDigit,
}

/// The horizontal tab.
pub const HTAB: u8 = 0x09;

/// The line feed.
pub const LF: u8 = 0x0a;

/// The carriage return.
pub const CR: u8 = 0x0d;

/// The space.
pub const SP: u8 = 0x20;

/// The colon that ends a header name.
pub const COLON: u8 = 0x3a;

/// The semicolon that opens a chunk extension.
pub const SEMICOLON: u8 = 0x3b;

/// The DEL control byte.
pub const DEL: u8 = 0x7f;

/// `A`..`Z` or `a`..`z`.
pub open spec fn is_alpha(b: u8) -> bool {
    (0x41 <= b && b <= 0x5a) || (0x61 <= b && b <= 0x7a)
}

/// `0`..`9`.
pub open spec fn is_digit(b: u8) -> bool {
    0x30 <= b && b <= 0x39
}

/// A control byte: below the space, or DEL.
pub open spec fn is_control(b: u8) -> bool {
    b < SP || b == DEL
}

/// The token class: letters, digits and ``! # $ % & ' * + - . ^ _ ` | ~``.
/// It holds no whitespace, no control byte, no colon and no byte above DEL.
pub open spec fn is_token_byte(b: u8) -> bool {
    ||| is_alpha(b)
    ||| is_digit(b)
    ||| b == 0x21  // !
    ||| (0x23 <= b && b <= 0x27)  // # $ % & '
    ||| b == 0x2a  // *
    ||| b == 0x2b  // +
    ||| b == 0x2d  // -
    ||| b == 0x2e  // .
    ||| b == 0x5e  // ^
    ||| b == 0x5f  // _
    ||| b == 0x60  // `
    ||| b == 0x7c  // |
    ||| b == 0x7e  // ~
}

/// The URI-safe class: the visible ASCII bytes `!`..`~` without the nine that
/// end a request target: `"`, `<`, `>`, `\`, `^`, `` ` ``, `{`, `|`, `}`.
/// The space, every control byte and every byte above DEL are outside it.
pub open spec fn is_uri_byte(b: u8) -> bool {
    &&& 0x21 <= b && b <= 0x7e
    &&& b != 0x22  // "
    &&& b != 0x3c  // <
    &&& b != 0x3e  // >
    &&& b != 0x5c  // \
    &&& b != 0x5e  // ^
    &&& b != 0x60  // `
    &&& b != 0x7b  // {
    &&& b != 0x7c  // |
    &&& b != 0x7d  // }
}

/// The header-value-safe class: the tab, the bytes from the space up to `~`,
/// and every byte above DEL. Control bytes other than the tab are outside it.
pub open spec fn is_header_value_byte(b: u8) -> bool {
    b == HTAB || (SP <= b && b != DEL)
}

/// The chunk-extension class: every byte that is not a control byte. CR and LF
/// are control bytes, so neither can stand inside an extension.
pub open spec fn is_chunk_extension_byte(b: u8) -> bool {
    !is_control(b)
}

/// `0`..`9`, `a`..`f` or `A`..`F`.
pub open spec fn is_hex_digit_byte(b: u8) -> bool {
    is_digit(b) || (0x61 <= b && b <= 0x66) || (0x41 <= b && b <= 0x46)
}

/// The number that a hexadecimal digit stands for; 0 for any other byte.
pub open spec fn hex_digit_value(b: u8) -> nat {
    if is_digit(b) {
        (b - 0x30) as nat
    } else if 0x61 <= b && b <= 0x66 {
        (b - 0x61 + 10) as nat
    } else if 0x41 <= b && b <= 0x46 {
        (b - 0x41 + 10) as nat
    } else {
        0
    }
}

impl ByteClass {
    /// Whether `b` belongs to this class.
    pub open spec fn contains(self, b: u8) -> bool {
        match self {
            ByteClass::Token => is_token_byte(b),
            ByteClass::Uri => is_uri_byte(b),
            ByteClass::HeaderValue => is_header_value_byte(b),
            ByteClass::ChunkExtension => is_chunk_extension_byte(b),
            ByteClass::HexDigit => is_hex_digit_byte(b),
        }
    }

    /// Tests one byte against this class.
    pub fn accepts(self, b: u8) -> (r: bool)
        ensures
            r == self.contains(b),
    {
        match self {
            ByteClass::Token => is_token(b),
            ByteClass::Uri => is_uri_token(b),
            ByteClass::HeaderValue => is_header_value_token(b),
            ByteClass::ChunkExtension => is_chunk_extension_token(b),
            ByteClass::HexDigit => is_hex_digit(b),
        }
    }
}

/// Tests one byte against the token class.
pub fn is_token(b: u8) -> (r: bool)
    ensures
        r == is_token_byte(b),
{
    (0x41 <= b && b <= 0x5a) || (0x5e <= b && b <= 0x7a) || (0x30 <= b && b <= 0x39) || b == 0x21
        || (0x23 <= b && b <= 0x27) || b == 0x2a || b == 0x2b || b == 0x2d || b == 0x2e || b
        == 0x7c || b == 0x7e
}

/// Tests one byte against the URI-safe class.
pub fn is_uri_token(b: u8) -> (r: bool)
    ensures
        r == is_uri_byte(b),
{
    0x21 <= b && b <= 0x7e && b != 0x22 && b != 0x3c && b != 0x3e && b != 0x5c && b != 0x5e && b
        != 0x60 && !(0x7b <= b && b <= 0x7d)
}

/// Tests one byte against the header-value-safe class.
pub fn is_header_value_token(b: u8) -> (r: bool)
    ensures
        r == is_header_value_byte(b),
{
    b == HTAB || (SP <= b && b != DEL)
}

/// Tests one byte against the chunk-extension class.
pub fn is_chunk_extension_token(b: u8) -> (r: bool)
    ensures
        r == is_chunk_extension_byte(b),
{
    SP <= b && b != DEL
}

/// Tests one byte against the hexadecimal digits.
pub fn is_hex_digit(b: u8) -> (r: bool)
    ensures
        r == is_hex_digit_byte(b),
{
    (0x30 <= b && b <= 0x39) || (0x61 <= b && b <= 0x66) || (0x41 <= b && b <= 0x46)
}

/// The number that the hexadecimal digit `b` stands for, or `None` where `b`
/// is no hexadecimal digit.
pub fn hex_digit(b: u8) -> (r: Option<u8>)
    ensures
        r.is_some() == is_hex_digit_byte(b),
        r matches Some(d) ==> d == hex_digit_value(b) && d < 16,
{
    if 0x30 <= b && b <= 0x39 {
        Some(b - 0x30)
    } else if 0x61 <= b && b <= 0x66 {
        Some(b - 0x61 + 10)
    } else if 0x41 <= b && b <= 0x46 {
        Some(b - 0x41 + 10)
    } else {
        None
    }
}

} // verus!
