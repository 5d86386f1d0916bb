use vstd::prelude::*;
use vstd::string::*;
use vstd::utf8::*;

use crate::text::is_word;

verus! {

/// `std::num::ParseIntError`, carried as it is in `ColorError`.
#[verifier::external_type_specification]
#[verifier::external_body]
pub struct ExParseIntError(std::num::ParseIntError);

/// A colour given by its three 8-bit components.
#[derive(Clone, Copy, Debug, PartialEq, Eq, Structural)]
pub struct Color {
    pub red: u8,
    pub green: u8,
    pub blue: u8,
}

/// Why a text is not a colour: it has none of the accepted forms (a `#RRGGBB`
/// text whose components cannot be cut out between characters has none), or
/// it has the `#RRGGBB` form and one of its components is not a hexadecimal
/// byte.
#[derive(Debug)]
pub enum ColorError {
    InvalidValue(String),
    InvalidComponent(std::num::ParseIntError),
}

impl From<std::num::ParseIntError> for ColorError {
    fn from(err: std::num::ParseIntError) -> (r: ColorError)
        ensures
            r == ColorError::InvalidComponent(err),
    {
        ColorError::InvalidComponent(err)
    }
}

impl vstd::std_specs::convert::FromSpecImpl<std::num::ParseIntError> for ColorError {
    open spec fn obeys_from_spec() -> bool {
        true
    }

    open spec fn from_spec(err: std::num::ParseIntError) -> ColorError {
        ColorError::InvalidComponent(err)
    }
}

pub open spec fn white() -> Color {
    Color { red: 0xFF, green: 0xFF, blue: 0xFF }
}

pub open spec fn black() -> Color {
    Color { red: 0x00, green: 0x00, blue: 0x00 }
}

/// The digits of base sixteen, upper case.
pub open spec fn upper_hex_digits() -> Seq<char> {
    seq!['0', '1', '2', '3', '4', '5', '6', '7', '8', '9', 'A', 'B', 'C', 'D', 'E', 'F']
}

/// A byte as two upper-case hexadecimal digits.
pub open spec fn hex_text(b: u8) -> Seq<char> {
    seq![upper_hex_digits()[b as int / 16], upper_hex_digits()[b as int % 16]]
}

/// How a colour is written: `White` and `Black` by name, any other as
/// `#RRGGBB` in upper-case hexadecimal.
pub open spec fn text_of(c: Color) -> Seq<char> {
    if c == white() {
        "White"@
    } else if c == black() {
        "Black"@
    } else {
        seq!['#'] + hex_text(c.red) + hex_text(c.green) + hex_text(c.blue)
    }
}

/// The value of a hexadecimal digit, given as a byte of either case.
pub open spec fn hex_value(b: u8) -> Option<u8> {
    if 0x30 <= b <= 0x39 {
        Some((b - 0x30) as u8)
    } else if 0x61 <= b <= 0x66 {
        Some((b - 0x61 + 10) as u8)
    } else if 0x41 <= b <= 0x46 {
        Some((b - 0x41 + 10) as u8)
    } else {
        None
    }
}

/// The byte that two bytes of text stand for in base sixteen: two digits, or a
/// `+` sign and one digit.
pub open spec fn hex_pair(hi: u8, lo: u8) -> Option<u8> {
    if hi == 0x2B {
        hex_value(lo)
    } else if hex_value(hi) is Some && hex_value(lo) is Some {
        Some((hex_value(hi)->0 * 16 + hex_value(lo)->0) as u8)
    } else {
        None
    }
}

/// Seven bytes, the first of them `#`.
pub open spec fn is_hex_form(b: Seq<u8>) -> bool {
    b.len() == 7 && b[0] == 0x23
}

/// The components that the text `b` of `#RRGGBB` form stands for, if all three
/// are hexadecimal bytes.
pub open spec fn hex_components(b: Seq<u8>) -> Option<Color> {
    if hex_pair(b[1], b[2]) is Some && hex_pair(b[3], b[4]) is Some && hex_pair(b[5], b[6]) is Some {
        Some(Color {
            red: hex_pair(b[1], b[2])->0,
            green: hex_pair(b[3], b[4])->0,
            blue: hex_pair(b[5], b[6])->0,
        })
    } else {
        None
    }
}

/// A text of `#RRGGBB` form is cut into its components between characters:
/// before its fourth byte, and, once the red component has been read, before its
/// sixth.
pub open spec fn cuts_between_chars(b: Seq<u8>) -> bool {
    is_hex_form(b) ==> {
        &&& !is_continuation_byte(b[3])
        &&& hex_pair(b[1], b[2]) is Some ==> !is_continuation_byte(b[5])
    }
}

/// Relies on `u8::from_str_radix` in base 16: it accepts an optional `+` sign
/// followed by digits, and fails on anything else.
#[verifier::external_body]
fn parse_hex_byte(s: &str) -> (r: Result<u8, std::num::ParseIntError>)
    requires
        s.spec_bytes().len() == 2,
    ensures
        r is Ok <==> hex_pair(s.spec_bytes()[0], s.spec_bytes()[1]) is Some,
        r is Ok ==> r->Ok_0 == hex_pair(s.spec_bytes()[0], s.spec_bytes()[1])->0,
{
    u8::from_str_radix(s, 16)
}

/// Relies on std's `{:02X}` formatting: two upper-case hexadecimal digits.
#[verifier::external_body]
fn upper_hex(b: u8) -> (r: String)
    ensures
        r@ == hex_text(b),
{
    format!("{:02X}", b)
}

impl Color {
    pub fn white() -> (r: Color)
        ensures
            r == white(),
    {
        Color { red: 0xFF, green: 0xFF, blue: 0xFF }
    }

    pub fn black() -> (r: Color)
        ensures
            r == black(),
    {
        Color { red: 0x00, green: 0x00, blue: 0x00 }
    }

    /// The text of this colour: `White`, `Black`, or `#RRGGBB`.
    pub fn to_string(&self) -> (r: String)
        ensures
            r@ == text_of(*self),
    {
        if self.red == 0xFF && self.green == 0xFF && self.blue == 0xFF {
            proof {
                reveal_strlit("White");
            }
            "White".to_owned()
        } else if self.red == 0 && self.green == 0 && self.blue == 0 {
            proof {
                reveal_strlit("Black");
            }
            "Black".to_owned()
        } else {
            proof {
                reveal_strlit("#");
            }
            let text = "#".to_owned();
            let text = text.concat(upper_hex(self.red).as_str());
            let text = text.concat(upper_hex(self.green).as_str());
            let text = text.concat(upper_hex(self.blue).as_str());
            text
        }
    }

    /// Reads a colour from `White`, `Black`, or `#RRGGBB` with each component
    /// two hexadecimal digits of either case (or a `+` sign and one digit). A
    /// text of `#RRGGBB` form whose components cannot be cut out between
    /// characters is not a colour.
    pub fn from_str(s: &str) -> (r: Result<Color, ColorError>)
        ensures
            s@ == "White"@ ==> r == Ok::<Color, ColorError>(white()),
            s@ == "Black"@ ==> r == Ok::<Color, ColorError>(black()),
            s@ != "White"@ && s@ != "Black"@ && is_hex_form(s.spec_bytes()) && cuts_between_chars(
                s.spec_bytes(),
            ) ==> {
                match hex_components(s.spec_bytes()) {
                    Some(c) => r == Ok::<Color, ColorError>(c),
                    None => r matches Err(ColorError::InvalidComponent(_)),
                }
            },
            s@ != "White"@ && s@ != "Black"@ && !(is_hex_form(s.spec_bytes()) && cuts_between_chars(
                s.spec_bytes(),
            )) ==> {
                r matches Err(ColorError::InvalidValue(t)) && t@ == s@
            },
    {
        proof {
            reveal_strlit("White");
            reveal_strlit("Black");
            encode_utf8_valid_utf8(s@);
        }
        if is_word(s, "White") {
            return Ok(Color::white());
        }
        if is_word(s, "Black") {
            return Ok(Color::black());
        }
        let b = s.as_bytes();
        if b.len() == 7 && b[0] == 0x23 && s.is_char_boundary(3) {
            proof {
                is_char_boundary_iff_not_is_continuation_byte(s.spec_bytes(), 3);
            }
            let (head, rest) = s.split_at(3);
            proof {
                valid_utf8_split(s.spec_bytes(), 3);
                reveal_with_fuel(is_char_boundary, 2);
                assert(is_char_boundary(head.spec_bytes(), 1));
            }
            let (_, red_text) = head.split_at(1);
            let red = match parse_hex_byte(red_text) {
                Ok(v) => v,
                Err(e) => {
                    return Err(ColorError::from(e));
                },
            };
            if s.is_char_boundary(5) {
                proof {
                    is_char_boundary_iff_not_is_continuation_byte(s.spec_bytes(), 5);
                    is_char_boundary_iff_not_is_continuation_byte(rest.spec_bytes(), 2);
                }
                let (green_text, blue_text) = rest.split_at(2);
                let green = match parse_hex_byte(green_text) {
                    Ok(v) => v,
                    Err(e) => {
                        return Err(ColorError::from(e));
                    },
                };
                let blue = match parse_hex_byte(blue_text) {
                    Ok(v) => v,
                    Err(e) => {
                        return Err(ColorError::from(e));
                    },
                };
                return Ok(Color { red, green, blue });
            }
            proof {
                is_char_boundary_iff_not_is_continuation_byte(s.spec_bytes(), 5);
            }
        } else {
            proof {
                if b@.len() == 7 {
                    is_char_boundary_iff_not_is_continuation_byte(s.spec_bytes(), 3);
                }
            }
        }
        Err(ColorError::InvalidValue(s.to_owned()))
    }
}

proof fn lemma_hex_digit(d: int)
    requires
        0 <= d < 16,
    ensures
        0x30 <= upper_hex_digits()[d] as u8 <= 0x46,
        hex_value(upper_hex_digits()[d] as u8) == Some(d as u8),
{
    let digits = upper_hex_digits();
    assert(digits[0] == '0' && digits[1] == '1' && digits[2] == '2' && digits[3] == '3');
    assert(digits[4] == '4' && digits[5] == '5' && digits[6] == '6' && digits[7] == '7');
    assert(digits[8] == '8' && digits[9] == '9' && digits[10] == 'A' && digits[11] == 'B');
    assert(digits[12] == 'C' && digits[13] == 'D' && digits[14] == 'E' && digits[15] == 'F');
}

proof fn lemma_hex_text_reads_back(b: u8)
    ensures
        is_ascii_chars(hex_text(b)),
        hex_pair(hex_text(b)[0] as u8, hex_text(b)[1] as u8) == Some(b),
{
    let t = hex_text(b);
    lemma_hex_digit(b as int / 16);
    lemma_hex_digit(b as int % 16);
    assert(t[0] == upper_hex_digits()[b as int / 16]);
    assert(t[1] == upper_hex_digits()[b as int % 16]);
    assert((b as int / 16) * 16 + b as int % 16 == b as int);
}

/// The text of a colour reads back as that colour. White and black are written
/// `White` and `Black`. Any other colour is written in `#RRGGBB` form, its
/// components cut out between characters, and they are its own components.
pub proof fn lemma_text_reads_back(c: Color)
    ensures
        c == white() ==> text_of(c) == "White"@,
        c == black() ==> text_of(c) == "Black"@,
        c != white() && c != black() ==> {
            &&& text_of(c) != "White"@
            &&& text_of(c) != "Black"@
            &&& is_hex_form(encode_utf8(text_of(c)))
            &&& cuts_between_chars(encode_utf8(text_of(c)))
            &&& hex_components(encode_utf8(text_of(c))) == Some(c)
        },
{
    if c != white() && c != black() {
        reveal_strlit("White");
        reveal_strlit("Black");
        let t = text_of(c);
        let (r, g, b) = (hex_text(c.red), hex_text(c.green), hex_text(c.blue));
        lemma_hex_text_reads_back(c.red);
        lemma_hex_text_reads_back(c.green);
        lemma_hex_text_reads_back(c.blue);
        assert(t =~= seq!['#', r[0], r[1], g[0], g[1], b[0], b[1]]);
        assert(is_ascii_chars(t));
        is_ascii_chars_encode_utf8(t);
        let e = encode_utf8(t);
        assert(e[0] == t[0] as u8);
        assert(e[1] == t[1] as u8 && e[2] == t[2] as u8);
        assert(e[3] == t[3] as u8 && e[4] == t[4] as u8);
        assert(e[5] == t[5] as u8 && e[6] == t[6] as u8);
        assert(t[0] != "White"@[0]);
        assert(t[0] != "Black"@[0]);
    }
}

} // verus!
