//! Colors: red, green, blue and alpha, and their text.

use vstd::prelude::*;
use vstd::string::*;
use vstd::utf8::*;

verus! {

/// The value of a hexadecimal digit, given by its ASCII code.
pub open spec fn hex_value(byte: u8) -> Option<nat> {
    if 0x30 <= byte <= 0x39 {
        Some((byte - 0x30) as nat)
    } else if 0x41 <= byte <= 0x46 {
        Some((byte - 0x41 + 10) as nat)
    } else if 0x61 <= byte <= 0x66 {
        Some((byte - 0x61 + 10) as nat)
    } else {
        None
    }
}

/// The value of a numeral of two characters: two hexadecimal digits, or one
/// behind a plus sign.
pub open spec fn pair_value(high: u8, low: u8) -> Option<nat> {
    match (hex_value(high), hex_value(low)) {
        (Some(h), Some(l)) => Some(h * 16 + l),
        (None, Some(l)) => if high == 0x2b {
            Some(l)
        } else {
            None
        },
        _ => None,
    }
}

/// A color's text without the number sign that may stand before it.
pub open spec fn without_sign(text: Seq<u8>) -> Seq<u8> {
    if text.len() > 0 && text[0] == 0x23 {
        text.skip(1)
    } else {
        text
    }
}

/// How many components the digits of a color name: three, or four with alpha.
pub open spec fn component_count(digits: Seq<u8>) -> int {
    if digits.len() == 6 {
        3
    } else if digits.len() == 8 {
        4
    } else {
        0
    }
}

/// The component of a color at `i`.
pub open spec fn component(digits: Seq<u8>, i: int) -> Option<nat> {
    pair_value(digits[2 * i], digits[2 * i + 1])
}

pub open spec fn components_read(digits: Seq<u8>, count: int) -> bool {
    forall|i: int| 0 <= i < count ==> #[trigger] component(digits, i) is Some
}

/// The color that a text names, the text taken as its UTF-8 bytes.
pub open spec fn color_of(text: Seq<u8>) -> Option<[u8; 4]> {
    let digits = without_sign(text);
    let count = component_count(digits);
    if count == 0 || !components_read(digits, count) {
        None
    } else {
        Some(
            [
                component(digits, 0)->0 as u8,
                component(digits, 1)->0 as u8,
                component(digits, 2)->0 as u8,
                if count == 4 {
                    component(digits, 3)->0 as u8
                } else {
                    255
                },
            ],
        )
    }
}

fn hex_digit_value(byte: u8) -> (value: Option<u8>)
    ensures
        hex_value(byte) == (match value {
            Some(v) => Some(v as nat),
            None => None,
        }),
        value matches Some(v) ==> v < 16,
{
    if 0x30 <= byte && byte <= 0x39 {
        Some(byte - 0x30)
    } else if 0x41 <= byte && byte <= 0x46 {
        Some(byte - 0x41 + 10)
    } else if 0x61 <= byte && byte <= 0x66 {
        Some(byte - 0x61 + 10)
    } else {
        None
    }
}

fn hex_pair_value(high: u8, low: u8) -> (value: Option<u8>)
    ensures
        pair_value(high, low) == (match value {
            Some(v) => Some(v as nat),
            None => None,
        }),
{
    match (hex_digit_value(high), hex_digit_value(low)) {
        (Some(h), Some(l)) => Some(h * 16 + l),
        (None, Some(l)) => if high == 0x2b {
            Some(l)
        } else {
            None
        },
        _ => None,
    }
}

/// The color that `value` names: six hexadecimal digits, or eight with alpha,
/// with or without a number sign before them. A color without alpha is opaque.
/// Any other text, whatever characters it holds, names none.
pub fn parse_color(value: &str) -> (color: Option<[u8; 4]>)
    ensures
        color == color_of(encode_utf8(value@)),
{
    let bytes = value.as_bytes();
    let ghost digits = without_sign(bytes@);
    let start: usize = if bytes.len() > 0 && bytes[0] == 0x23 {
        1
    } else {
        0
    };
    let count: usize = match bytes.len() - start {
        6 => 3,
        8 => 4,
        _ => {
            return None;
        },
    };
    let mut out: [u8; 4] = [0, 0, 0, 255];
    let mut i: usize = 0;
    while i < count
        invariant
            start <= 1,
            start + digits.len() == bytes@.len(),
            digits == without_sign(bytes@),
            forall|j: int| 0 <= j < digits.len() ==> digits[j] == bytes@[start + j],
            count == 3 || count == 4,
            count == component_count(digits),
            i <= count,
            components_read(digits, i as int),
            forall|j: int| 0 <= j < i ==> out[j] == (#[trigger] component(digits, j))->0 as u8,
            forall|j: int| i <= j < 4 ==> out[j] == (if j == 3 {
                255u8
            } else {
                0u8
            }),
            bytes@ == encode_utf8(value@),
        decreases count - i,
    {
        match hex_pair_value(bytes[start + 2 * i], bytes[start + 2 * i + 1]) {
            Some(v) => {
                assert(component(digits, i as int) == Some(v as nat));
                out[i] = v;
            },
            None => {
                assert(component(digits, i as int) is None);
                return None;
            },
        }
        i = i + 1;
    }
    proof {
        let color = color_of(bytes@);
        assert(component(digits, 0) is Some && component(digits, 1) is Some && component(
            digits,
            2,
        ) is Some);
        assert(count == 4 ==> component(digits, 3) is Some);
        assert(out@ =~= color->0@);
        assert(out =~= color->0);
    }
    Some(out)
}

/// The upper-case character of the hexadecimal digit `d`.
pub open spec fn hex_char(d: nat) -> char {
    if d < 10 {
        (48 + d) as char
    } else {
        (55 + d) as char
    }
}

/// Two upper-case hexadecimal digits.
pub open spec fn hex_pair(byte: u8) -> Seq<char> {
    seq![hex_char(byte as nat / 16), hex_char(byte as nat % 16)]
}

/// The text of a color: a number sign and eight upper-case digits.
pub open spec fn color_text(color: [u8; 4]) -> Seq<char> {
    seq!['#'] + hex_pair(color[0]) + hex_pair(color[1]) + hex_pair(color[2]) + hex_pair(color[3])
}

fn hex_digit(d: u8) -> (s: &'static str)
    requires
        d < 16,
    ensures
        s@ == seq![hex_char(d as nat)],
{
    if d < 10 {
        return crate::text::digit(d);
    }
    proof {
        reveal_strlit("A");
        reveal_strlit("B");
        reveal_strlit("C");
        reveal_strlit("D");
        reveal_strlit("E");
        reveal_strlit("F");
    }
    let s = match d {
        10 => "A",
        11 => "B",
        12 => "C",
        13 => "D",
        14 => "E",
        _ => "F",
    };
    assert(s@ =~= seq![hex_char(d as nat)]);
    s
}

fn push_hex_pair(out: &mut String, byte: u8)
    ensures
        final(out)@ == old(out)@ + hex_pair(byte),
{
    out.append(hex_digit(byte / 16));
    out.append(hex_digit(byte % 16));
    assert(out@ =~= old(out)@ + hex_pair(byte));
}

/// The text of `color`: a number sign and eight upper-case hexadecimal digits.
pub fn color_hex(color: [u8; 4]) -> (text: String)
    ensures
        text@ == color_text(color),
{
    proof {
        reveal_strlit("#");
    }
    let mut out = "#".to_owned();
    push_hex_pair(&mut out, color[0]);
    push_hex_pair(&mut out, color[1]);
    push_hex_pair(&mut out, color[2]);
    push_hex_pair(&mut out, color[3]);
    assert(out@ =~= color_text(color));
    out
}

/// The color with its alpha at full.
pub open spec fn opaque(color: [u8; 4]) -> [u8; 4] {
    [color[0], color[1], color[2], 255]
}

/// `color` with its alpha at full: a background that is keyed out must not
/// itself be see-through.
pub fn chroma_color(color: [u8; 4]) -> (out: [u8; 4])
    ensures
        out == opaque(color),
{
    [color[0], color[1], color[2], 255]
}

/// Reading the text of a color gives the color back.
pub proof fn law_color_text_reads_back(color: [u8; 4])
    ensures
        color_of(encode_utf8(color_text(color))) == Some(color),
{
    let chars = color_text(color);
    assert(chars.len() == 9);
    assert(is_ascii_chars(chars));
    is_ascii_chars_encode_utf8(chars);
    let text = encode_utf8(chars);
    let digits = without_sign(text);
    assert(text[0] == chars[0] as u8);
    assert(digits.len() == 8);
    assert forall|i: int| 0 <= i < 4 implies #[trigger] component(digits, i) == Some(
        color[i] as nat,
    ) by {
        assert(digits[2 * i] == text[2 * i + 1]);
        assert(digits[2 * i + 1] == text[2 * i + 2]);
        assert(chars[2 * i + 1] == hex_char(color[i] as nat / 16));
        assert(chars[2 * i + 2] == hex_char(color[i] as nat % 16));
        assert(text[2 * i + 1] == chars[2 * i + 1] as u8);
        assert(text[2 * i + 2] == chars[2 * i + 2] as u8);
    }
    assert(components_read(digits, 4));
    assert forall|i: int| 0 <= i < 8 implies !is_continuation_byte(#[trigger] digits[i]) by {
        assert(text[i + 1] == chars[i + 1] as u8);
    }
    let read = color_of(text)->0;
    assert(read@ =~= color@) by {
        assert(component(digits, 0) == Some(color[0] as nat));
        assert(component(digits, 1) == Some(color[1] as nat));
        assert(component(digits, 2) == Some(color[2] as nat));
        assert(component(digits, 3) == Some(color[3] as nat));
    }
    assert(read =~= color);
}

/// A character beyond ASCII leaves a byte beyond ASCII in the encoding.
proof fn lemma_wide_character(text: Seq<char>, i: int) -> (place: int)
    requires
        0 <= i < text.len(),
        text[i] as u32 >= 0x80,
    ensures
        0 <= place < encode_utf8(text).len(),
        encode_utf8(text)[place] >= 0x80,
    decreases text.len(),
{
    let first = encode_scalar(text[0] as u32);
    let rest = text.drop_first();
    if i == 0 {
        let c = text[0] as u32;
        let two = ((c >> 6) & 0x1F) as u8;
        let three = ((c >> 12) & 0x0F) as u8;
        let four = ((c >> 18) & 0x7) as u8;
        assert(0xC0u8 | two >= 0x80 && 0xE0u8 | three >= 0x80 && 0xF0u8 | four >= 0x80)
            by (bit_vector);
        assert(encode_utf8(text)[0] == first[0]);
        0
    } else {
        assert(rest[i - 1] == text[i]);
        let place = lemma_wide_character(rest, i - 1);
        assert(encode_utf8(text)[first.len() + place] == encode_utf8(rest)[place]);
        first.len() + place
    }
}

/// Colors are named in ASCII: a text with any other character in it, wherever it
/// stands, names none.
pub proof fn law_colors_are_named_in_ascii(text: Seq<char>, i: int)
    requires
        0 <= i < text.len(),
        text[i] as u32 >= 0x80,
    ensures
        color_of(encode_utf8(text)) is None,
{
    let place = lemma_wide_character(text, i);
    let bytes = encode_utf8(text);
    let digits = without_sign(bytes);
    let at = place - (bytes.len() - digits.len());
    assert(digits[at] == bytes[place]);
    assert(component(digits, at / 2) is None);
}

} // verus!
