//! What each preference becomes, and which numbers and colors there are.

use crate::scalar::Scalar;
use crate::settings::{PreferenceChange, SettingsView};
use vstd::prelude::*;

verus! {

/// A change sets the preference that it is of and no other. A number of digits
/// above two counts as two; an angle below 0 or above 360 and a size below 32 or
/// above 180 become the nearer end, and what lies between is taken as it is; a
/// background keeps its color and is opaque.
pub proof fn law_changes_set_their_preference(settings: SettingsView, change: PreferenceChange)
    ensures
        ({
            let after = settings.changed(change);
            let look = settings.appearance;
            match change {
            PreferenceChange::ShowMilliseconds(value) => {
                &&& after.show_milliseconds == value
                &&& after.fractional_digits == settings.fractional_digits
                &&& after.overlay_mode == settings.overlay_mode
                &&& after.shortcuts == settings.shortcuts
                &&& after.appearance.text_color == look.text_color
                &&& after.appearance.gradient == look.gradient
                &&& after.appearance.gradient_end == look.gradient_end
                &&& after.appearance.gradient_angle == look.gradient_angle
                &&& after.appearance.chroma_key == look.chroma_key
                &&& after.appearance.native_transparency == look.native_transparency
                &&& after.appearance.font_size == look.font_size
            },
            PreferenceChange::FractionalDigits(value) => {
                &&& value <= 2 ==> after.fractional_digits == value
                &&& value > 2 ==> after.fractional_digits == 2
                &&& after.show_milliseconds == settings.show_milliseconds
                &&& after.overlay_mode == settings.overlay_mode
                &&& after.shortcuts == settings.shortcuts
                &&& after.appearance.text_color == look.text_color
                &&& after.appearance.gradient == look.gradient
                &&& after.appearance.gradient_end == look.gradient_end
                &&& after.appearance.gradient_angle == look.gradient_angle
                &&& after.appearance.chroma_key == look.chroma_key
                &&& after.appearance.native_transparency == look.native_transparency
                &&& after.appearance.font_size == look.font_size
            },
            PreferenceChange::OverlayMode(value) => {
                &&& after.overlay_mode == value
                &&& after.show_milliseconds == settings.show_milliseconds
                &&& after.fractional_digits == settings.fractional_digits
                &&& after.shortcuts == settings.shortcuts
                &&& after.appearance.text_color == look.text_color
                &&& after.appearance.gradient == look.gradient
                &&& after.appearance.gradient_end == look.gradient_end
                &&& after.appearance.gradient_angle == look.gradient_angle
                &&& after.appearance.chroma_key == look.chroma_key
                &&& after.appearance.native_transparency == look.native_transparency
                &&& after.appearance.font_size == look.font_size
            },
            PreferenceChange::NativeTransparency(value) => {
                &&& after.appearance.native_transparency == value
                &&& after.show_milliseconds == settings.show_milliseconds
                &&& after.fractional_digits == settings.fractional_digits
                &&& after.overlay_mode == settings.overlay_mode
                &&& after.shortcuts == settings.shortcuts
                &&& after.appearance.text_color == look.text_color
                &&& after.appearance.gradient == look.gradient
                &&& after.appearance.gradient_end == look.gradient_end
                &&& after.appearance.gradient_angle == look.gradient_angle
                &&& after.appearance.chroma_key == look.chroma_key
                &&& after.appearance.font_size == look.font_size
            },
            PreferenceChange::ChromaKey(value) => {
                &&& after.appearance.chroma_key[0] == value[0]
                &&& after.appearance.chroma_key[1] == value[1]
                &&& after.appearance.chroma_key[2] == value[2]
                &&& after.appearance.chroma_key[3] == 255
                &&& after.show_milliseconds == settings.show_milliseconds
                &&& after.fractional_digits == settings.fractional_digits
                &&& after.overlay_mode == settings.overlay_mode
                &&& after.shortcuts == settings.shortcuts
                &&& after.appearance.text_color == look.text_color
                &&& after.appearance.gradient == look.gradient
                &&& after.appearance.gradient_end == look.gradient_end
                &&& after.appearance.gradient_angle == look.gradient_angle
                &&& after.appearance.native_transparency == look.native_transparency
                &&& after.appearance.font_size == look.font_size
            },
            PreferenceChange::TextColor(value) => {
                &&& after.appearance.text_color == value
                &&& after.show_milliseconds == settings.show_milliseconds
                &&& after.fractional_digits == settings.fractional_digits
                &&& after.overlay_mode == settings.overlay_mode
                &&& after.shortcuts == settings.shortcuts
                &&& after.appearance.gradient == look.gradient
                &&& after.appearance.gradient_end == look.gradient_end
                &&& after.appearance.gradient_angle == look.gradient_angle
                &&& after.appearance.chroma_key == look.chroma_key
                &&& after.appearance.native_transparency == look.native_transparency
                &&& after.appearance.font_size == look.font_size
            },
            PreferenceChange::Gradient(value) => {
                &&& after.appearance.gradient == value
                &&& after.show_milliseconds == settings.show_milliseconds
                &&& after.fractional_digits == settings.fractional_digits
                &&& after.overlay_mode == settings.overlay_mode
                &&& after.shortcuts == settings.shortcuts
                &&& after.appearance.text_color == look.text_color
                &&& after.appearance.gradient_end == look.gradient_end
                &&& after.appearance.gradient_angle == look.gradient_angle
                &&& after.appearance.chroma_key == look.chroma_key
                &&& after.appearance.native_transparency == look.native_transparency
                &&& after.appearance.font_size == look.font_size
            },
            PreferenceChange::GradientEnd(value) => {
                &&& after.appearance.gradient_end == value
                &&& after.show_milliseconds == settings.show_milliseconds
                &&& after.fractional_digits == settings.fractional_digits
                &&& after.overlay_mode == settings.overlay_mode
                &&& after.shortcuts == settings.shortcuts
                &&& after.appearance.text_color == look.text_color
                &&& after.appearance.gradient == look.gradient
                &&& after.appearance.gradient_angle == look.gradient_angle
                &&& after.appearance.chroma_key == look.chroma_key
                &&& after.appearance.native_transparency == look.native_transparency
                &&& after.appearance.font_size == look.font_size
            },
            PreferenceChange::GradientAngle(value) => {
                &&& 0 <= value.bits <= 0x43b4_0000 ==> after.appearance.gradient_angle == value
                &&& 0x43b4_0000 < value.bits <= 0x7f80_0000 ==> after.appearance.gradient_angle.bits
                    == 0x43b4_0000
                &&& 0x8000_0000 < value.bits <= 0xff80_0000 ==> after.appearance.gradient_angle.bits
                    == 0
                &&& after.show_milliseconds == settings.show_milliseconds
                &&& after.fractional_digits == settings.fractional_digits
                &&& after.overlay_mode == settings.overlay_mode
                &&& after.shortcuts == settings.shortcuts
                &&& after.appearance.text_color == look.text_color
                &&& after.appearance.gradient == look.gradient
                &&& after.appearance.gradient_end == look.gradient_end
                &&& after.appearance.chroma_key == look.chroma_key
                &&& after.appearance.native_transparency == look.native_transparency
                &&& after.appearance.font_size == look.font_size
            },
            PreferenceChange::FontSize(value) => {
                &&& 0x4200_0000 <= value.bits <= 0x4334_0000 ==> after.appearance.font_size == value
                &&& 0x4334_0000 < value.bits <= 0x7f80_0000 ==> after.appearance.font_size.bits
                    == 0x4334_0000
                &&& value.bits < 0x4200_0000 ==> after.appearance.font_size.bits == 0x4200_0000
                &&& 0x8000_0000 <= value.bits <= 0xff80_0000 ==> after.appearance.font_size.bits
                    == 0x4200_0000
                &&& after.show_milliseconds == settings.show_milliseconds
                &&& after.fractional_digits == settings.fractional_digits
                &&& after.overlay_mode == settings.overlay_mode
                &&& after.shortcuts == settings.shortcuts
                &&& after.appearance.text_color == look.text_color
                &&& after.appearance.gradient == look.gradient
                &&& after.appearance.gradient_end == look.gradient_end
                &&& after.appearance.gradient_angle == look.gradient_angle
                &&& after.appearance.chroma_key == look.chroma_key
                &&& after.appearance.native_transparency == look.native_transparency
            },
            }
        }),
{
}

/// Switching the overlay turns it the other way and leaves every other
/// preference.
pub proof fn law_toggling_turns_the_overlay_alone(settings: SettingsView)
    ensures
        settings.toggled().overlay_mode == !settings.overlay_mode,
        settings.toggled().show_milliseconds == settings.show_milliseconds,
        settings.toggled().fractional_digits == settings.fractional_digits,
        settings.toggled().appearance == settings.appearance,
        settings.toggled().shortcuts == settings.shortcuts,
{
}

/// The preferences that the program has where nothing is known of any.
pub proof fn law_default_preferences()
    ensures
        ({
            let settings = SettingsView::defaults();
            let look = settings.appearance;
            &&& settings.show_milliseconds
            &&& settings.fractional_digits == 2
            &&& !settings.overlay_mode
            &&& look.text_color == [92u8, 255u8, 120u8, 255u8]
            &&& !look.gradient
            &&& look.gradient_end == [168u8, 255u8, 112u8, 255u8]
            &&& look.gradient_angle.bits == 0
            &&& look.chroma_key == [39u8, 24u8, 132u8, 255u8]
            &&& look.native_transparency
            &&& look.font_size.bits == 0x4290_0000
            &&& settings.shortcuts == seq![
                "control+alt+KeyS"@,
                "control+alt+KeyT"@,
                "control+alt+KeyR"@,
                "control+alt+KeyO"@,
            ]
        }),
{
}

/// Preferences are usable where at most two digits are shown, the angle lies
/// between 0 and 360 and the size between 32 and 180, the background is opaque,
/// and the four shortcuts can be registered together.
pub proof fn law_usable_preferences(settings: SettingsView)
    ensures
        settings.valid() ==> settings.fractional_digits <= 2,
        settings.valid() ==> settings.appearance.gradient_angle.bits <= 0x43b4_0000
            || settings.appearance.gradient_angle.bits == 0x8000_0000,
        settings.valid() ==> 0x4200_0000 <= settings.appearance.font_size.bits <= 0x4334_0000,
        settings.valid() ==> settings.appearance.chroma_key[3] == 255,
        settings.valid() ==> crate::hotkey::canonical(settings.shortcuts),
        settings.fractional_digits <= 2 && settings.appearance.gradient_angle.bits <= 0x43b4_0000
            && 0x4200_0000 <= settings.appearance.font_size.bits <= 0x4334_0000
            && settings.appearance.chroma_key[3] == 255 && crate::hotkey::canonical(
            settings.shortcuts,
        ) ==> settings.valid(),
{
}

/// What is said of a save: that it was done, or that the preferences are kept in
/// memory and why it failed.
pub proof fn law_save_messages(error: Seq<char>)
    ensures
        crate::settings::save_message(Ok(())) == "Preferences saved"@,
        crate::settings::save_message(Err(error))
            == "Preferences kept in memory; save failed: "@ + error,
{
}

/// Numbers are told from what is none by their bits, and ordered by them: without
/// a sign as the bits are, with one the other way round and below all others.
pub proof fn law_numbers_are_ordered_by_their_bits(number: Scalar)
    ensures
        number.bits <= 0x7f80_0000 ==> !number.nan() && number.rank() == number.bits,
        0x8000_0000 <= number.bits <= 0xff80_0000 ==> !number.nan() && number.rank()
            == 0x8000_0000 - number.bits,
        0x7f80_0000 < number.bits < 0x8000_0000 || 0xff80_0000 < number.bits ==> number.nan(),
        number.finite() <==> (number.bits < 0x7f80_0000 || 0x8000_0000 <= number.bits
            < 0xff80_0000),
{
}

/// A number brought into a range lies in it and is the nearest there; one that
/// lies in it already is left as it is, and so is what is no number.
pub proof fn law_clamping_gives_the_nearest(number: Scalar, low: Scalar, high: Scalar, x: Scalar)
    requires
        !low.nan(),
        !high.nan(),
        low.rank() <= high.rank(),
    ensures
        ({
            let clamped = number.clamped(low, high);
            &&& number.nan() ==> clamped == number
            &&& number.within(low, high) ==> clamped == number
            &&& !number.nan() ==> clamped.within(low, high)
            &&& !number.nan() && x.within(low, high) && number.rank() <= x.rank()
                ==> clamped.rank() <= x.rank()
            &&& !number.nan() && x.within(low, high) && x.rank() <= number.rank() ==> x.rank()
                <= clamped.rank()
            &&& clamped == number || clamped == low || clamped == high
            &&& number.within(low, high) <==> (!number.nan() && low.rank() <= number.rank()
                && number.rank() <= high.rank())
        }),
{
}

/// Bytes that name the same color: the same digits, upper case or lower.
pub open spec fn same_digits(a: Seq<u8>, b: Seq<u8>) -> bool {
    &&& a.len() == b.len()
    &&& forall|i: int|
        0 <= i < a.len() ==> (#[trigger] a[i] == b[i] || (0x41 <= a[i] <= 0x46 && b[i] == a[i]
            + 0x20) || (0x41 <= b[i] <= 0x46 && a[i] == b[i] + 0x20))
}

proof fn lemma_same_components(a: Seq<u8>, b: Seq<u8>, i: int)
    requires
        same_digits(a, b),
        0 <= i,
        2 * i + 1 < a.len(),
    ensures
        crate::color::component(a, i) == crate::color::component(b, i),
{
    let high = 2 * i;
    let low = 2 * i + 1;
    assert(a[high] == b[high] || (0x41 <= a[high] <= 0x46 && b[high] == a[high] + 0x20) || (0x41
        <= b[high] <= 0x46 && a[high] == b[high] + 0x20));
    assert(a[low] == b[low] || (0x41 <= a[low] <= 0x46 && b[low] == a[low] + 0x20) || (0x41
        <= b[low] <= 0x46 && a[low] == b[low] + 0x20));
    assert(crate::color::hex_value(a[high]) == crate::color::hex_value(b[high]));
    assert(crate::color::hex_value(a[low]) == crate::color::hex_value(b[low]));
    assert(a[high] == 0x2b <==> b[high] == 0x2b);
}

/// The case of its digits does not matter to a color.
pub proof fn law_case_does_not_matter(a: Seq<u8>, b: Seq<u8>)
    requires
        same_digits(a, b),
    ensures
        crate::color::color_of(a) == crate::color::color_of(b),
{
    let left = crate::color::without_sign(a);
    let right = crate::color::without_sign(b);
    if a.len() > 0 {
        assert(a[0] == b[0] || (0x41 <= a[0] <= 0x46 && b[0] == a[0] + 0x20) || (0x41 <= b[0]
            <= 0x46 && a[0] == b[0] + 0x20));
    }
    assert(same_digits(left, right)) by {
        let skipped = a.len() - left.len();
        assert forall|i: int| 0 <= i < left.len() implies (#[trigger] left[i] == right[i] || (0x41
            <= left[i] <= 0x46 && right[i] == left[i] + 0x20) || (0x41 <= right[i] <= 0x46
            && left[i] == right[i] + 0x20)) by {
            assert(left[i] == a[i + skipped]);
            assert(right[i] == b[i + skipped]);
        }
    }
    let count = crate::color::component_count(left);
    assert forall|i: int| 0 <= i < count implies #[trigger] crate::color::component(left, i)
        == crate::color::component(right, i) by {
        lemma_same_components(left, right, i);
    }
    if count > 0 {
        assert(crate::color::component(left, 0) == crate::color::component(right, 0));
        assert(crate::color::component(left, 1) == crate::color::component(right, 1));
        assert(crate::color::component(left, 2) == crate::color::component(right, 2));
        if count == 4 {
            assert(crate::color::component(left, 3) == crate::color::component(right, 3));
        }
        assert(crate::color::components_read(left, count) == crate::color::components_read(
            right,
            count,
        )) by {
            if crate::color::components_read(left, count) {
                assert forall|i: int| 0 <= i < count implies #[trigger] crate::color::component(
                    right,
                    i,
                ) is Some by {
                    assert(crate::color::component(left, i) is Some);
                }
            }
            if crate::color::components_read(right, count) {
                assert forall|i: int| 0 <= i < count implies #[trigger] crate::color::component(
                    left,
                    i,
                ) is Some by {
                    assert(crate::color::component(right, i) is Some);
                }
            }
        }
    }
}

/// The number sign before a color may be left out. Without alpha a color is
/// opaque: it is the one with alpha at full behind it. Texts of any other length
/// name no color.
pub proof fn law_sign_and_alpha_may_be_left_out(digits: Seq<u8>)
    requires
        digits.len() > 0,
        digits[0] != 0x23,
    ensures
        crate::color::color_of(seq![0x23u8] + digits) == crate::color::color_of(digits),
        digits.len() == 6 ==> crate::color::color_of(digits) == crate::color::color_of(
            digits + seq![0x46u8, 0x46u8],
        ),
        digits.len() != 6 && digits.len() != 8 ==> crate::color::color_of(digits) is None,
{
    let signed = seq![0x23u8] + digits;
    assert(signed.skip(1) =~= digits);
    assert(crate::color::without_sign(signed) == digits);
    if digits.len() == 6 {
        let full = digits + seq![0x46u8, 0x46u8];
        assert(crate::color::without_sign(full) == full);
        assert forall|i: int| 0 <= i < 3 implies #[trigger] crate::color::component(full, i)
            == crate::color::component(digits, i) by {
            assert(full[2 * i] == digits[2 * i]);
            assert(full[2 * i + 1] == digits[2 * i + 1]);
        }
        assert(crate::color::component(full, 3) == Some(255nat)) by {
            assert(full[6] == 0x46);
            assert(full[7] == 0x46);
        }
        assert(crate::color::component(full, 0) == crate::color::component(digits, 0));
        assert(crate::color::component(full, 1) == crate::color::component(digits, 1));
        assert(crate::color::component(full, 2) == crate::color::component(digits, 2));
        if crate::color::components_read(digits, 3) {
            assert(crate::color::components_read(full, 4));
        }
        if crate::color::components_read(full, 4) {
            assert(crate::color::components_read(digits, 3)) by {
                assert forall|i: int| 0 <= i < 3 implies #[trigger] crate::color::component(
                    digits,
                    i,
                ) is Some by {
                    assert(crate::color::component(full, i) is Some);
                }
            }
        }
    }
}

/// The digit of a value below sixteen, by its ASCII code.
pub open spec fn digit_code(value: int) -> int {
    if value < 10 {
        0x30 + value
    } else {
        0x41 + value - 10
    }
}

/// Eight digits name the color whose components they are, two to each, the higher
/// digit first: red, green, blue and alpha.
pub proof fn law_digits_name_their_color(digits: Seq<u8>, color: [u8; 4])
    requires
        digits.len() == 8,
        forall|i: int|
            0 <= i < 4 ==> digits[2 * i] == digit_code(#[trigger] color[i] as int / 16)
                && digits[2 * i + 1] == digit_code(color[i] as int % 16),
    ensures
        crate::color::color_of(digits) == Some(color),
{
    assert forall|i: int| 0 <= i < 4 implies #[trigger] crate::color::component(digits, i) == Some(
        color[i] as nat,
    ) by {
        assert(digits[2 * i] == digit_code(color[i] as int / 16));
        assert(digits[2 * i + 1] == digit_code(color[i] as int % 16));
    }
    assert(color[0] as int / 16 < 16);
    let first: int = 0;
    assert(digits[2 * first] == digit_code(color[first] as int / 16));
    assert(digits[0] != 0x23);
    assert(crate::color::components_read(digits, 4));
    let read = crate::color::color_of(digits)->0;
    assert(crate::color::component(digits, 0) == Some(color[0] as nat));
    assert(crate::color::component(digits, 1) == Some(color[1] as nat));
    assert(crate::color::component(digits, 2) == Some(color[2] as nat));
    assert(crate::color::component(digits, 3) == Some(color[3] as nat));
    assert(read@ =~= color@);
    assert(read =~= color);
}

/// A color is named only where every component is: by two digits, or by one
/// behind a plus sign.
pub proof fn law_every_component_is_named(text: Seq<u8>, i: int)
    requires
        crate::color::color_of(text) is Some,
        text.len() > 0,
        0 <= i,
    ensures
        ({
            let start: int = if text[0] == 0x23 {
                1
            } else {
                0
            };
            &&& text.len() - start == 6 || text.len() - start == 8
            &&& start + 2 * i + 1 < text.len() ==> {
                let high = text[start + 2 * i];
                let low = text[start + 2 * i + 1];
                &&& 0x30 <= low <= 0x39 || 0x41 <= low <= 0x46 || 0x61 <= low <= 0x66
                &&& 0x30 <= high <= 0x39 || 0x41 <= high <= 0x46 || 0x61 <= high <= 0x66 || high
                    == 0x2b
            }
        }),
{
    let digits = crate::color::without_sign(text);
    let start: int = text.len() - digits.len();
    if start + 2 * i + 1 < text.len() {
        assert(digits[2 * i] == text[start + 2 * i]);
        assert(digits[2 * i + 1] == text[start + 2 * i + 1]);
        assert(crate::color::component(digits, i) is Some);
    }
}

/// A plus sign in place of the higher digit of a component counts as a zero.
pub proof fn law_plus_signs_count_as_zeros(digits: Seq<u8>, i: int)
    requires
        digits.len() == 6 || digits.len() == 8,
        digits[0] != 0x23,
        0 <= i,
        2 * i < digits.len(),
        digits[2 * i] == 0x2b,
    ensures
        crate::color::color_of(digits) == crate::color::color_of(digits.update(2 * i, 0x30)),
{
    let zeros = digits.update(2 * i, 0x30);
    let count = crate::color::component_count(digits);
    assert forall|j: int| 0 <= j < count implies #[trigger] crate::color::component(digits, j)
        == crate::color::component(zeros, j) by {
        if j != i {
            assert(zeros[2 * j] == digits[2 * j]);
        }
        assert(zeros[2 * j + 1] == digits[2 * j + 1]);
    }
    assert(crate::color::component(digits, 0) == crate::color::component(zeros, 0));
    assert(crate::color::component(digits, 1) == crate::color::component(zeros, 1));
    assert(crate::color::component(digits, 2) == crate::color::component(zeros, 2));
    if count == 4 {
        assert(crate::color::component(digits, 3) == crate::color::component(zeros, 3));
    }
    assert(crate::color::components_read(digits, count) == crate::color::components_read(
        zeros,
        count,
    )) by {
        if crate::color::components_read(digits, count) {
            assert forall|j: int| 0 <= j < count implies #[trigger] crate::color::component(
                zeros,
                j,
            ) is Some by {
                assert(crate::color::component(digits, j) is Some);
            }
        }
        if crate::color::components_read(zeros, count) {
            assert forall|j: int| 0 <= j < count implies #[trigger] crate::color::component(
                digits,
                j,
            ) is Some by {
                assert(crate::color::component(zeros, j) is Some);
            }
        }
    }
}

/// The text of a color has a number sign and eight digits, upper case, two for
/// each component.
pub proof fn law_color_texts_are_spelled_out(color: [u8; 4], i: int)
    requires
        0 <= i < 4,
    ensures
        crate::color::color_text(color).len() == 9,
        crate::color::color_text(color)[0] == '#',
        crate::color::color_text(color)[2 * i + 1] as u32 == digit_code(color[i] as int / 16),
        crate::color::color_text(color)[2 * i + 2] as u32 == digit_code(color[i] as int % 16),
{
}

/// An opaque color keeps red, green and blue.
pub proof fn law_opaque_colors_keep_their_color(color: [u8; 4])
    ensures
        crate::color::opaque(color)[0] == color[0],
        crate::color::opaque(color)[1] == color[1],
        crate::color::opaque(color)[2] == color[2],
        crate::color::opaque(color)[3] == 255,
{
}

} // verus!
