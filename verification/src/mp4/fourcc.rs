//! Four-character codes.

use vstd::prelude::*;

verus! {

/// One ISO BMFF four-character box or codec identifier.
#[derive(Debug, Clone, Copy, PartialEq, Eq, Hash, PartialOrd, Ord, Structural)]
pub struct FourCc {
    /// The four bytes as one number, the first of them the highest.
    pub code: u32,
}

/// Four bytes as one number, the first of them the highest.
pub open spec fn big_endian_4(bytes: Seq<u8>) -> int {
    bytes[0] * 0x100_0000 + bytes[1] * 0x1_0000 + bytes[2] * 0x100 + bytes[3]
}

/// The lower-case hexadecimal digit of a number below sixteen.
pub open spec fn hex_digit(value: int) -> char {
    if value < 10 {
        (48 + value) as char
    } else {
        (87 + value) as char
    }
}

/// A byte as text: itself where it is printable, else escaped.
pub open spec fn escaped(byte: u8) -> Seq<char> {
    if byte == 9 {
        seq!['\\', 't']
    } else if byte == 10 {
        seq!['\\', 'n']
    } else if byte == 13 {
        seq!['\\', 'r']
    } else if byte == 34 || byte == 39 || byte == 92 {
        seq!['\\', byte as char]
    } else if 32 <= byte < 127 {
        seq![byte as char]
    } else {
        seq!['\\', 'x', hex_digit(byte as int / 16), hex_digit(byte as int % 16)]
    }
}

impl View for FourCc {
    type V = Seq<u8>;

    open spec fn view(&self) -> Seq<u8> {
        seq![
            (self.code / 0x100_0000) as u8,
            (self.code / 0x1_0000 % 0x100) as u8,
            (self.code / 0x100 % 0x100) as u8,
            (self.code % 0x100) as u8,
        ]
    }
}

/// A number made of four bytes gives them back.
proof fn lemma_bytes_of_number(first: int, second: int, third: int, fourth: int)
    requires
        0 <= first < 0x100,
        0 <= second < 0x100,
        0 <= third < 0x100,
        0 <= fourth < 0x100,
    ensures
        ({
            let number = first * 0x100_0000 + second * 0x1_0000 + third * 0x100 + fourth;
            &&& number / 0x100_0000 == first
            &&& number / 0x1_0000 % 0x100 == second
            &&& number / 0x100 % 0x100 == third
            &&& number % 0x100 == fourth
        }),
{
    let number = first * 0x100_0000 + second * 0x1_0000 + third * 0x100 + fourth;
    assert(number / 0x100 == first * 0x1_0000 + second * 0x100 + third);
    assert(number / 0x1_0000 == first * 0x100 + second);
}

fn hex_character(value: u8) -> (character: char)
    requires
        value < 16,
    ensures
        character == hex_digit(value as int),
{
    if value < 10 {
        (48 + value) as char
    } else {
        (87 + value) as char
    }
}

fn push_escaped(text: &mut String, byte: u8)
    ensures
        final(text)@ == old(text)@ + escaped(byte),
{
    let ghost before = text@;
    if byte == 9 {
        text.push('\\');
        text.push('t');
    } else if byte == 10 {
        text.push('\\');
        text.push('n');
    } else if byte == 13 {
        text.push('\\');
        text.push('r');
    } else if byte == 34 || byte == 39 || byte == 92 {
        text.push('\\');
        text.push(byte as char);
    } else if 32 <= byte && byte < 127 {
        text.push(byte as char);
    } else {
        text.push('\\');
        text.push('x');
        text.push(hex_character(byte / 16));
        text.push(hex_character(byte % 16));
    }
    assert(text@ =~= before + escaped(byte));
}

impl FourCc {
    #[inline]
    pub fn new(bytes: [u8; 4]) -> (code: Self)
        ensures
            code@ == bytes@,
            code.code == big_endian_4(bytes@),
    {
        let code = FourCc {
            code: bytes[0] as u32 * 0x100_0000 + bytes[1] as u32 * 0x1_0000 + bytes[2] as u32
                * 0x100 + bytes[3] as u32,
        };
        proof {
            lemma_bytes_of_number(
                bytes[0] as int,
                bytes[1] as int,
                bytes[2] as int,
                bytes[3] as int,
            );
        }
        assert(code@ =~= bytes@);
        code
    }

    #[inline]
    pub fn bytes(self) -> (bytes: [u8; 4])
        ensures
            bytes@ == self@,
    {
        let bytes = [
            (self.code / 0x100_0000) as u8,
            (self.code / 0x1_0000 % 0x100) as u8,
            (self.code / 0x100 % 0x100) as u8,
            (self.code % 0x100) as u8,
        ];
        assert(bytes@ =~= self@);
        bytes
    }

    /// The bytes as text, those that are not printable escaped.
    pub fn to_string(&self) -> (text: String)
        ensures
            text@ == escaped(self@[0]) + escaped(self@[1]) + escaped(self@[2]) + escaped(self@[3]),
    {
        let bytes = self.bytes();
        let mut text: String = String::new();
        push_escaped(&mut text, bytes[0]);
        assert(text@ =~= escaped(self@[0]));
        push_escaped(&mut text, bytes[1]);
        push_escaped(&mut text, bytes[2]);
        push_escaped(&mut text, bytes[3]);
        text
    }

    /// The text in the form of a constructor.
    pub fn to_debug_string(&self) -> (text: String)
        ensures
            text@ == "FourCc(\""@ + (escaped(self@[0]) + escaped(self@[1]) + escaped(self@[2])
                + escaped(self@[3])) + "\")"@,
    {
        let mut text: String = String::from_str("FourCc(\"");
        text.append(self.to_string().as_str());
        text.append("\")");
        text
    }
}

impl From<[u8; 4]> for FourCc {
    fn from(bytes: [u8; 4]) -> (code: Self) {
        FourCc::new(bytes)
    }
}

impl vstd::std_specs::convert::FromSpecImpl<[u8; 4]> for FourCc {
    open spec fn obeys_from_spec() -> bool {
        true
    }

    open spec fn from_spec(bytes: [u8; 4]) -> FourCc {
        FourCc { code: big_endian_4(bytes@) as u32 }
    }
}

/// Different bytes make different codes.
pub proof fn law_codes_tell_bytes_apart(first: Seq<u8>, second: Seq<u8>)
    requires
        first.len() == 4,
        second.len() == 4,
        big_endian_4(first) == big_endian_4(second),
    ensures
        first == second,
{
    assert(first[0] == second[0]);
    assert(first[1] == second[1]);
    assert(first[2] == second[2]);
    assert(first =~= second);
}

/// The number that a lower-case hexadecimal digit stands for.
pub open spec fn hex_value(digit: char) -> int {
    if '0' <= digit <= '9' {
        digit as int - '0' as int
    } else if 'a' <= digit <= 'f' {
        digit as int - 'a' as int + 10
    } else {
        -1
    }
}

/// A byte is shown as the character that it is, unless that is a quote, a backslash or
/// not printable. Those are shown behind a backslash: by themselves, by a letter or by
/// two hexadecimal digits.
pub proof fn law_bytes_are_shown(byte: u8)
    ensures
        ({
            let text = escaped(byte);
            let quoted = byte == '"' as int || byte == '\'' as int || byte == '\\' as int;
            let printable = ' ' as int <= byte <= '~' as int;
            &&& printable && !quoted ==> text.len() == 1 && text[0] as int == byte
            &&& quoted ==> text.len() == 2 && text[0] == '\\' && text[1] as int == byte
            &&& byte == '\t' as int ==> text == seq!['\\', 't']
            &&& byte == '\n' as int ==> text == seq!['\\', 'n']
            &&& byte == '\r' as int ==> text == seq!['\\', 'r']
            &&& !printable && byte != '\t' as int && byte != '\n' as int && byte != '\r' as int ==> {
                &&& text.len() == 4
                &&& text[0] == '\\'
                &&& text[1] == 'x'
                &&& hex_value(text[2]) * 16 + hex_value(text[3]) == byte
                &&& hex_value(text[2]) >= 0
                &&& 0 <= hex_value(text[3]) < 16
            }
        }),
{
}

} // verus!
