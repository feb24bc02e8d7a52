//! Workbook colors as the `#RRGGBB` text fortune-sheet expects.

use vstd::prelude::*;
use vstd::string::StringSliceAdditionalSpecFns;
use vstd::utf8::{encode_utf8, decode_utf8, is_char_boundary, encode_utf8_decode_utf8};
use crate::workbook::{
    argb_with_theme, argb_text, color_resolvable, color_theme_index, color_tint_bits, is_hex_digit,
    starts_with_rgb, theme_color_map, tint_is_moderate,
};

verus! {

/// The `#RRGGBB` form of color text: eight bytes are `AARRGGBB` and lose
/// their first two; any other text is kept. (Text of eight bytes whose
/// third byte falls inside a character is kept too.)
pub open spec fn hex_of(argb: Seq<char>) -> Seq<char> {
    let bytes = encode_utf8(argb);
    if bytes.len() == 8 && is_char_boundary(bytes, 2) {
        seq!['#'] + decode_utf8(bytes.subrange(2, 8))
    } else {
        seq!['#'] + argb
    }
}

/// Converts `AARRGGBB` or `RRGGBB` color text to `#RRGGBB`.
pub fn argb_to_hex(argb: &str) -> (res: String)
    ensures
        res@ == hex_of(argb@),
{
    proof {
        reveal_strlit("#");
        vstd::utf8::encode_utf8_valid_utf8(argb@);
    }
    assert("#"@ =~= seq!['#']);
    let mut res = String::from_str("#");
    if argb.as_bytes().len() == 8 && argb.is_char_boundary(2) {
        let (_, rest) = argb.split_at(2);
        proof {
            encode_utf8_decode_utf8(rest@);
            assert(rest.spec_bytes() =~= encode_utf8(argb@).subrange(2, 8));
            assert(rest@ == decode_utf8(encode_utf8(argb@).subrange(2, 8)));
        }
        res.append(rest);
    } else {
        res.append(argb);
    }
    res
}

/// Whether the text starts with six hexadecimal digits.
fn has_rgb_prefix(text: &str) -> (res: bool)
    ensures
        res == starts_with_rgb(text@),
{
    let n = text.unicode_len();
    if n < 6 {
        return false;
    }
    let mut i: usize = 0;
    while i < 6
        invariant
            n == text@.len(),
            6 <= n,
            i <= 6,
            forall|k: int| 0 <= k < i ==> #[trigger] is_hex_digit(text@[k]),
        decreases 6 - i,
    {
        let c = text.get_char(i);
        if !(('0' <= c && c <= '9') || ('a' <= c && c <= 'f') || ('A' <= c && c <= 'F')) {
            assert(!is_hex_digit(text@[i as int]));
            return false;
        }
        i = i + 1;
    }
    true
}

/// Whether `to_hex` can resolve the color against the theme: its tint is
/// moderate, and the theme color it may name is `RRGGBB` text.
pub fn color_resolves(color: &umya_spreadsheet::Color, theme: &umya_spreadsheet::drawing::Theme) -> (res: bool)
    ensures
        res == color_resolvable(*color, *theme),
{
    let bits = color_tint_bits(color);
    if !(bits % 0x8000_0000_0000_0000u64 < 0x4160_0000_0000_0000u64) {
        return false;
    }
    let index = color_theme_index(color);
    let colors = theme_color_map(theme);
    proof {
        assert(colors@.len() == colors.deep_view().len());
    }
    if (index as usize) < colors.len() {
        proof {
            assert(colors@[index as int]@ == colors.deep_view()[index as int]);
        }
        has_rgb_prefix(colors[index as usize].as_str())
    } else {
        true
    }
}

/// Converts a workbook color to `#RRGGBB`. `Color::argb_with_theme`
/// resolves indexed, themed and literal colors, giving 8-char `AARRGGBB`
/// for the first and last and 6-char text for the themed case.
pub fn to_hex(color: &umya_spreadsheet::Color, theme: &umya_spreadsheet::drawing::Theme) -> (res: String)
    requires
        color_resolvable(*color, *theme),
    ensures
        res@ == hex_of(argb_text(*color, *theme)),
{
    let argb = argb_with_theme(color, theme);
    argb_to_hex(argb.as_str())
}

/// `to_hex` where the color can be resolved against the theme, and `None`
/// where it cannot.
pub fn try_to_hex(color: &umya_spreadsheet::Color, theme: &umya_spreadsheet::drawing::Theme) -> (res: Option<String>)
    ensures
        res is Some <==> color_resolvable(*color, *theme),
        res matches Some(text) ==> text@ == hex_of(argb_text(*color, *theme)),
{
    if color_resolves(color, theme) {
        Some(to_hex(color, theme))
    } else {
        None
    }
}

} // verus!
