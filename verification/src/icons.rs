//! The icons, as pictures in the SVG format.

use crate::number::{
    format_unsigned, numeral, padded_number_reads_back, parse_unsigned, unsigned, zero_padded,
};
use crate::text::{push_chars, push_text, to_chars};
use vstd::prelude::*;
use vstd::slice::slice_subrange;
use vstd::utf8::encode_utf8;

verus! {

#[derive(Clone, Copy, Debug, PartialEq, Eq, Hash, Structural)]
pub enum MediaIcon {
    Back,
    Forward,
    ChevronUp,
    ChevronDown,
    Home,
    Search,
    Music,
    Artist,
    Album,
    Playlist,
    Radar,
    Headphones,
    Play,
    Pause,
    Folder,
    Library,
    Loading,
    Shuffle,
    SkipBack,
    SkipForward,
    Repeat,
    RepeatOne,
    Settings,
    Heart,
    HeartFilled,
    Volume,
    VolumeMuted,
    PlayNext,
    Close,
}

impl MediaIcon {
    /// The shapes that an icon is made of.
    pub open spec fn shapes(self) -> Seq<char> {
        match self {
            MediaIcon::Back => r#"<path d="m15 18-6-6 6-6"/>"#@,
            MediaIcon::Forward => r#"<path d="m9 18 6-6-6-6"/>"#@,
            MediaIcon::ChevronUp => r#"<path d="m18 15-6-6-6 6"/>"#@,
            MediaIcon::ChevronDown => r#"<path d="m6 9 6 6 6-6"/>"#@,
            MediaIcon::Home => r#"<path d="m3 11 9-8 9 8"/><path d="M5 10v10h14V10"/><path d="M9 20v-6h6v6"/>"#@,
            MediaIcon::Search => r#"<circle cx="11" cy="11" r="7"/><path d="m20 20-4-4"/>"#@,
            MediaIcon::Music => r#"<path d="M9 18V5l12-2v13"/><circle cx="6" cy="18" r="3"/><circle cx="18" cy="16" r="3"/>"#@,
            MediaIcon::Artist => r#"<circle cx="12" cy="8" r="4"/><path d="M4 21a8 8 0 0 1 16 0"/>"#@,
            MediaIcon::Album => r#"<circle cx="12" cy="12" r="9"/><circle cx="12" cy="12" r="2"/><path d="M12 3v7"/>"#@,
            MediaIcon::Playlist => r#"<path d="M4 6h10M4 10h10M4 14h7"/><path d="M17 5v10.5a2.5 2.5 0 1 1-2-2.45V7l5-1"/>"#@,
            MediaIcon::Radar => r#"<circle cx="12" cy="12" r="9"/><circle cx="12" cy="12" r="5"/><circle cx="12" cy="12" r="1"/><path d="m12 12 6.4-6.4"/>"#@,
            MediaIcon::Headphones => r#"<path d="M4 14v-2a8 8 0 0 1 16 0v2"/><path d="M18 19h-1a2 2 0 0 1-2-2v-3a2 2 0 0 1 2-2h3v5a2 2 0 0 1-2 2Z"/><path d="M6 19H5a2 2 0 0 1-2-2v-5h3a2 2 0 0 1 2 2v3a2 2 0 0 1-2 2Z"/>"#@,
            MediaIcon::Play => r#"<path d="m6 4 14 8-14 8V4Z"/>"#@,
            MediaIcon::Pause => r#"<path d="M8 5v14"/><path d="M16 5v14"/>"#@,
            MediaIcon::Folder => r#"<path d="M3 6a2 2 0 0 1 2-2h5l2 3h7a2 2 0 0 1 2 2v9a2 2 0 0 1-2 2H5a2 2 0 0 1-2-2V6Z"/>"#@,
            MediaIcon::Library => r#"<rect width="7" height="18" x="3" y="3" rx="1"/><path d="M7 3v18"/><path d="m14.5 5.2 3.8-1a1.5 1.5 0 0 1 1.8 1.1l3.1 11.6a1.5 1.5 0 0 1-1.1 1.8l-3.8 1a1.5 1.5 0 0 1-1.8-1.1L13.4 7a1.5 1.5 0 0 1 1.1-1.8Z"/>"#@,
            MediaIcon::Loading => r#"<path d="M21 12a9 9 0 1 1-5.2-8.2"/><path d="M21 3v6h-6"/>"#@,
            MediaIcon::Shuffle => r#"<path d="m18 14 4 4-4 4"/><path d="m18 2 4 4-4 4"/><path d="M2 18h1.4a4 4 0 0 0 3.5-2.1L11.1 8a4 4 0 0 1 3.5-2H22"/><path d="M2 6h1.4a4 4 0 0 1 3.5 2.1l.6 1.1"/><path d="M14.6 18H22"/>"#@,
            MediaIcon::SkipBack => r#"<path d="M19 20 9 12l10-8v16Z"/><path d="M5 19V5"/>"#@,
            MediaIcon::SkipForward => r#"<path d="m5 4 10 8-10 8V4Z"/><path d="M19 5v14"/>"#@,
            MediaIcon::Repeat => r#"<path d="m17 2 4 4-4 4"/><path d="M3 11V9a3 3 0 0 1 3-3h15"/><path d="m7 22-4-4 4-4"/><path d="M21 13v2a3 3 0 0 1-3 3H3"/>"#@,
            MediaIcon::RepeatOne => r#"<path d="m17 2 4 4-4 4"/><path d="M3 11V9a3 3 0 0 1 3-3h15"/><path d="m7 22-4-4 4-4"/><path d="M21 13v2a3 3 0 0 1-3 3H3"/><path d="M11 10h1v4"/>"#@,
            MediaIcon::Settings => r#"<path d="M4 6h8M16 6h4M4 12h2M10 12h10M4 18h10M18 18h2"/><circle cx="14" cy="6" r="2"/><circle cx="8" cy="12" r="2"/><circle cx="16" cy="18" r="2"/>"#@,
            MediaIcon::Heart => r#"<path d="M20.8 4.6a5.5 5.5 0 0 0-7.8 0L12 5.7l-1.1-1.1a5.5 5.5 0 0 0-7.8 7.8l1.1 1.1L12 21l7.8-7.5 1.1-1.1a5.5 5.5 0 0 0-.1-7.8Z"/>"#@,
            MediaIcon::HeartFilled => r#"<path d="M20.8 4.6a5.5 5.5 0 0 0-7.8 0L12 5.7l-1.1-1.1a5.5 5.5 0 0 0-7.8 7.8l1.1 1.1L12 21l7.8-7.5 1.1-1.1a5.5 5.5 0 0 0-.1-7.8Z" fill="currentColor"/>"#@,
            MediaIcon::Volume => r#"<path d="M11 5 6 9H2v6h4l5 4V5Z"/><path d="M15.5 8.5a5 5 0 0 1 0 7"/><path d="M19 5a10 10 0 0 1 0 14"/>"#@,
            MediaIcon::VolumeMuted => r#"<path d="M11 5 6 9H2v6h4l5 4V5Z"/><path d="m22 9-6 6"/><path d="m16 9 6 6"/>"#@,
            MediaIcon::PlayNext => r#"<path d="M4 3v18l14-9L4 3Z"/><path d="M14 14v8M10 18h8"/>"#@,
            MediaIcon::Close => r#"<path d="m6 6 12 12M18 6 6 18"/>"#@,
        }
    }

    pub fn body(self) -> (shapes: &'static str)
        ensures
            shapes@ == self.shapes(),
    {
        match self {
            MediaIcon::Back => r#"<path d="m15 18-6-6 6-6"/>"#,
            MediaIcon::Forward => r#"<path d="m9 18 6-6-6-6"/>"#,
            MediaIcon::ChevronUp => r#"<path d="m18 15-6-6-6 6"/>"#,
            MediaIcon::ChevronDown => r#"<path d="m6 9 6 6 6-6"/>"#,
            MediaIcon::Home => r#"<path d="m3 11 9-8 9 8"/><path d="M5 10v10h14V10"/><path d="M9 20v-6h6v6"/>"#,
            MediaIcon::Search => r#"<circle cx="11" cy="11" r="7"/><path d="m20 20-4-4"/>"#,
            MediaIcon::Music => r#"<path d="M9 18V5l12-2v13"/><circle cx="6" cy="18" r="3"/><circle cx="18" cy="16" r="3"/>"#,
            MediaIcon::Artist => r#"<circle cx="12" cy="8" r="4"/><path d="M4 21a8 8 0 0 1 16 0"/>"#,
            MediaIcon::Album => r#"<circle cx="12" cy="12" r="9"/><circle cx="12" cy="12" r="2"/><path d="M12 3v7"/>"#,
            MediaIcon::Playlist => r#"<path d="M4 6h10M4 10h10M4 14h7"/><path d="M17 5v10.5a2.5 2.5 0 1 1-2-2.45V7l5-1"/>"#,
            MediaIcon::Radar => r#"<circle cx="12" cy="12" r="9"/><circle cx="12" cy="12" r="5"/><circle cx="12" cy="12" r="1"/><path d="m12 12 6.4-6.4"/>"#,
            MediaIcon::Headphones => r#"<path d="M4 14v-2a8 8 0 0 1 16 0v2"/><path d="M18 19h-1a2 2 0 0 1-2-2v-3a2 2 0 0 1 2-2h3v5a2 2 0 0 1-2 2Z"/><path d="M6 19H5a2 2 0 0 1-2-2v-5h3a2 2 0 0 1 2 2v3a2 2 0 0 1-2 2Z"/>"#,
            MediaIcon::Play => r#"<path d="m6 4 14 8-14 8V4Z"/>"#,
            MediaIcon::Pause => r#"<path d="M8 5v14"/><path d="M16 5v14"/>"#,
            MediaIcon::Folder => r#"<path d="M3 6a2 2 0 0 1 2-2h5l2 3h7a2 2 0 0 1 2 2v9a2 2 0 0 1-2 2H5a2 2 0 0 1-2-2V6Z"/>"#,
            MediaIcon::Library => r#"<rect width="7" height="18" x="3" y="3" rx="1"/><path d="M7 3v18"/><path d="m14.5 5.2 3.8-1a1.5 1.5 0 0 1 1.8 1.1l3.1 11.6a1.5 1.5 0 0 1-1.1 1.8l-3.8 1a1.5 1.5 0 0 1-1.8-1.1L13.4 7a1.5 1.5 0 0 1 1.1-1.8Z"/>"#,
            MediaIcon::Loading => r#"<path d="M21 12a9 9 0 1 1-5.2-8.2"/><path d="M21 3v6h-6"/>"#,
            MediaIcon::Shuffle => r#"<path d="m18 14 4 4-4 4"/><path d="m18 2 4 4-4 4"/><path d="M2 18h1.4a4 4 0 0 0 3.5-2.1L11.1 8a4 4 0 0 1 3.5-2H22"/><path d="M2 6h1.4a4 4 0 0 1 3.5 2.1l.6 1.1"/><path d="M14.6 18H22"/>"#,
            MediaIcon::SkipBack => r#"<path d="M19 20 9 12l10-8v16Z"/><path d="M5 19V5"/>"#,
            MediaIcon::SkipForward => r#"<path d="m5 4 10 8-10 8V4Z"/><path d="M19 5v14"/>"#,
            MediaIcon::Repeat => r#"<path d="m17 2 4 4-4 4"/><path d="M3 11V9a3 3 0 0 1 3-3h15"/><path d="m7 22-4-4 4-4"/><path d="M21 13v2a3 3 0 0 1-3 3H3"/>"#,
            MediaIcon::RepeatOne => r#"<path d="m17 2 4 4-4 4"/><path d="M3 11V9a3 3 0 0 1 3-3h15"/><path d="m7 22-4-4 4-4"/><path d="M21 13v2a3 3 0 0 1-3 3H3"/><path d="M11 10h1v4"/>"#,
            MediaIcon::Settings => r#"<path d="M4 6h8M16 6h4M4 12h2M10 12h10M4 18h10M18 18h2"/><circle cx="14" cy="6" r="2"/><circle cx="8" cy="12" r="2"/><circle cx="16" cy="18" r="2"/>"#,
            MediaIcon::Heart => r#"<path d="M20.8 4.6a5.5 5.5 0 0 0-7.8 0L12 5.7l-1.1-1.1a5.5 5.5 0 0 0-7.8 7.8l1.1 1.1L12 21l7.8-7.5 1.1-1.1a5.5 5.5 0 0 0-.1-7.8Z"/>"#,
            MediaIcon::HeartFilled => r#"<path d="M20.8 4.6a5.5 5.5 0 0 0-7.8 0L12 5.7l-1.1-1.1a5.5 5.5 0 0 0-7.8 7.8l1.1 1.1L12 21l7.8-7.5 1.1-1.1a5.5 5.5 0 0 0-.1-7.8Z" fill="currentColor"/>"#,
            MediaIcon::Volume => r#"<path d="M11 5 6 9H2v6h4l5 4V5Z"/><path d="M15.5 8.5a5 5 0 0 1 0 7"/><path d="M19 5a10 10 0 0 1 0 14"/>"#,
            MediaIcon::VolumeMuted => r#"<path d="M11 5 6 9H2v6h4l5 4V5Z"/><path d="m22 9-6 6"/><path d="m16 9 6 6"/>"#,
            MediaIcon::PlayNext => r#"<path d="M4 3v18l14-9L4 3Z"/><path d="M14 14v8M10 18h8"/>"#,
            MediaIcon::Close => r#"<path d="m6 6 12 12M18 6 6 18"/>"#,
        }
    }
}

/// A color as four bytes: red, green, blue and opacity, from the highest down.
pub open spec fn icon_color(text: Seq<char>) -> Option<nat> {
    if text.len() == 7 && text[0] == '#' {
        match unsigned(text.skip(1), 16, u32::MAX as nat) {
            Some(rgb) => Some(rgb * 256 + 255),
            None => None,
        }
    } else if text.len() == 9 && text[0] == '#' {
        unsigned(text.skip(1), 16, u32::MAX as nat)
    } else {
        None
    }
}

/// A number of `n` digits in base sixteen is below sixteen to the `n`.
proof fn hex_bound(digits: Seq<char>)
    requires
        digits.len() <= 6,
    ensures
        crate::number::digits_value(digits, 16) < 0x100_0000,
        digits.len() <= 5 ==> crate::number::digits_value(digits, 16) < 0x10_0000,
        digits.len() <= 4 ==> crate::number::digits_value(digits, 16) < 0x1_0000,
        digits.len() <= 3 ==> crate::number::digits_value(digits, 16) < 0x1000,
        digits.len() <= 2 ==> crate::number::digits_value(digits, 16) < 0x100,
        digits.len() <= 1 ==> crate::number::digits_value(digits, 16) < 0x10,
        digits.len() == 0 ==> crate::number::digits_value(digits, 16) == 0,
    decreases digits.len(),
{
    if digits.len() > 0 {
        hex_bound(digits.drop_last());
    }
}

/// Reads a color: six digits in base sixteen for an opaque one, or eight.
pub fn parse_icon_color(color: &str) -> (rgba: Option<u32>)
    ensures
        match rgba {
            Some(rgba) => icon_color(color@) == Some(rgba as nat),
            None => icon_color(color@) is None,
        },
{
    let chars = to_chars(color);
    let length: usize = chars.len();
    if (length != 7 && length != 9) || chars[0] != '#' {
        return None;
    }
    let digits = slice_subrange(chars.as_slice(), 1, length);
    assert(digits@ =~= color@.skip(1));
    match parse_unsigned(digits, 16, u32::MAX as u64) {
        None => None,
        Some(value) => if length == 7 {
            proof {
                hex_bound(crate::number::without_plus(digits@));
            }
            Some((value * 256 + 255) as u32)
        } else {
            Some(value as u32)
        },
    }
}

pub open spec fn color_code(color: u32) -> Seq<char> {
    "#"@ + zero_padded(numeral(color as nat, 16), 8)
}

/// An icon as a picture in one color.
pub open spec fn icon_picture(icon: MediaIcon, color: u32) -> Seq<char> {
    r#"<svg xmlns="http://www.w3.org/2000/svg" width="24" height="24" viewBox="0 0 24 24" fill="none" color=""#@
        + color_code(color) + r#"" stroke=""#@ + color_code(color)
        + r#"" stroke-width="2" stroke-linecap="round" stroke-linejoin="round">"#@ + icon.shapes()
        + "</svg>"@
}

pub(crate) fn push_color(text: &mut String, color: u32)
    ensures
        final(text)@ == old(text)@ + color_code(color),
{
    let ghost before = text@;
    push_text(text, "#");
    let digits = format_unsigned(color as u128, 16, 8);
    push_chars(text, digits.as_slice());
    assert(text@ =~= before + color_code(color));
}

pub fn media_icon_svg(icon: MediaIcon, color: u32) -> (svg: String)
    ensures
        svg@ == icon_picture(icon, color),
{
    let mut svg = String::new();
    assert(svg@ =~= Seq::empty());
    push_text(
        &mut svg,
        r#"<svg xmlns="http://www.w3.org/2000/svg" width="24" height="24" viewBox="0 0 24 24" fill="none" color=""#,
    );
    push_color(&mut svg, color);
    push_text(&mut svg, r#"" stroke=""#);
    push_color(&mut svg, color);
    push_text(
        &mut svg,
        r#"" stroke-width="2" stroke-linecap="round" stroke-linejoin="round">"#,
    );
    push_text(&mut svg, icon.body());
    push_text(&mut svg, "</svg>");
    assert(svg@ =~= icon_picture(icon, color));
    svg
}

/// The colors of the logo, each as a text that SVG takes.
#[derive(Debug)]
pub struct LogoPalette {
    pub background: String,
    pub foreground: String,
    pub trail_primary: String,
    pub trail_secondary: String,
    pub trail_tertiary: String,
    pub detail: String,
}

/// The logo in the colors of a theme.
pub open spec fn logo_picture(colors: LogoPalette) -> Seq<char> {
    r#"<svg xmlns="http://www.w3.org/2000/svg" viewBox="0 0 512 512" role="img" aria-labelledby="title desc">
  <title id="title">Lyrune</title>
  <desc id="desc">A musical note moving forward on three smooth sound trails.</desc>
  <rect x="32" y="32" width="448" height="448" rx="112" fill=""#@ + colors.background@ + r#""/>
  <g fill="none" stroke-linecap="round" stroke-width="25">
    <path d="M82 185h108c48 0 58-48 106-48h30" stroke=""#@ + colors.trail_primary@ + r#""/>
    <path d="M82 248h102c50 0 62-48 112-48h30" stroke=""#@ + colors.trail_secondary@ + r#""/>
    <path d="M82 311h116c45 0 56-48 101-48h27" stroke=""#@ + colors.trail_tertiary@ + r#""/>
  </g>
  <path d="M307 139 421 108v70l-114 31Z" fill=""#@ + colors.foreground@ + r#""/>
  <path d="M307 165v188" fill="none" stroke=""#@ + colors.foreground@ + r#"" stroke-width="34" stroke-linecap="round"/>
  <ellipse cx="264" cy="361" rx="61" ry="42" transform="rotate(-15 264 361)" fill=""#@ + colors.foreground@ + r#""/>
  <path d="m249 337 38 22-38 22Z" fill=""#@ + colors.background@ + r#""/>
  <path d="M383 219h47" fill="none" stroke=""#@ + colors.detail@ + r#"" stroke-width="25" stroke-linecap="round"/>
</svg>"#@
}

/// Draws the logo in the colors of a theme.
pub fn themed_lyrune_svg(colors: &LogoPalette) -> (svg: Vec<u8>)
    ensures
        svg@ == encode_utf8(logo_picture(*colors)),
{
    let mut svg = String::new();
    assert(svg@ =~= Seq::empty());
    push_text(
        &mut svg,
        r#"<svg xmlns="http://www.w3.org/2000/svg" viewBox="0 0 512 512" role="img" aria-labelledby="title desc">
  <title id="title">Lyrune</title>
  <desc id="desc">A musical note moving forward on three smooth sound trails.</desc>
  <rect x="32" y="32" width="448" height="448" rx="112" fill=""#,
    );
    push_text(&mut svg, colors.background.as_str());
    push_text(
        &mut svg,
        r#""/>
  <g fill="none" stroke-linecap="round" stroke-width="25">
    <path d="M82 185h108c48 0 58-48 106-48h30" stroke=""#,
    );
    push_text(&mut svg, colors.trail_primary.as_str());
    push_text(
        &mut svg,
        r#""/>
    <path d="M82 248h102c50 0 62-48 112-48h30" stroke=""#,
    );
    push_text(&mut svg, colors.trail_secondary.as_str());
    push_text(
        &mut svg,
        r#""/>
    <path d="M82 311h116c45 0 56-48 101-48h27" stroke=""#,
    );
    push_text(&mut svg, colors.trail_tertiary.as_str());
    push_text(
        &mut svg,
        r#""/>
  </g>
  <path d="M307 139 421 108v70l-114 31Z" fill=""#,
    );
    push_text(&mut svg, colors.foreground.as_str());
    push_text(
        &mut svg,
        r#""/>
  <path d="M307 165v188" fill="none" stroke=""#,
    );
    push_text(&mut svg, colors.foreground.as_str());
    push_text(
        &mut svg,
        r#"" stroke-width="34" stroke-linecap="round"/>
  <ellipse cx="264" cy="361" rx="61" ry="42" transform="rotate(-15 264 361)" fill=""#,
    );
    push_text(&mut svg, colors.foreground.as_str());
    push_text(
        &mut svg,
        r#""/>
  <path d="m249 337 38 22-38 22Z" fill=""#,
    );
    push_text(&mut svg, colors.background.as_str());
    push_text(
        &mut svg,
        r#""/>
  <path d="M383 219h47" fill="none" stroke=""#,
    );
    push_text(&mut svg, colors.detail.as_str());
    push_text(
        &mut svg,
        r#"" stroke-width="25" stroke-linecap="round"/>
</svg>"#,
    );
    assert(svg@ =~= logo_picture(*colors));
    svg.as_str().as_bytes_vec()
}

/// A color is written as eight digits in base sixteen behind `#`, and read as the same; six
/// digits stand for an opaque color.
pub proof fn colors_read_back(color: u32, rgb: u32)
    requires
        rgb <= 0xff_ffff,
    ensures
        color_code(color).len() == 9,
        icon_color(color_code(color)) == Some(color as nat),
        icon_color(seq!['#'] + zero_padded(numeral(rgb as nat, 16), 6)) == Some(
            (rgb as int * 256 + 255) as nat,
        ),
{
    reveal_strlit("#");
    let code = color_code(color);
    eight_digits(color as nat);
    hex_reads_back(color as nat, 8);
    assert(code =~= seq!['#'] + zero_padded(numeral(color as nat, 16), 8));
    assert(code.skip(1) =~= zero_padded(numeral(color as nat, 16), 8));
    let short = seq!['#'] + zero_padded(numeral(rgb as nat, 16), 6);
    six_digits(rgb as nat);
    hex_reads_back(rgb as nat, 6);
    assert(short.skip(1) =~= zero_padded(numeral(rgb as nat, 16), 6));
}

proof fn eight_digits(n: nat)
    requires
        n <= 0xffff_ffff,
    ensures
        numeral(n, 16).len() <= 8,
{
    reveal_with_fuel(numeral, 9);
}

proof fn six_digits(n: nat)
    requires
        n <= 0xff_ffff,
    ensures
        numeral(n, 16).len() <= 6,
{
    reveal_with_fuel(numeral, 7);
}

proof fn hex_reads_back(n: nat, width: nat)
    requires
        n <= u32::MAX,
        numeral(n, 16).len() <= width,
    ensures
        zero_padded(numeral(n, 16), width).len() == width,
        unsigned(zero_padded(numeral(n, 16), width), 16, u32::MAX as nat) == Some(n),
{
    padded_number_reads_back(n, 16, u32::MAX as nat, width);
}

/// A text of any other form is no color.
pub proof fn other_texts_are_no_colors(text: Seq<char>)
    ensures
        text.len() != 7 && text.len() != 9 ==> icon_color(text) is None,
        text.len() > 0 && text[0] != '#' ==> icon_color(text) is None,
{
}

} // verus!
