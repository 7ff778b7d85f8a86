//! The page of settings: what is selected, and what a change leads to.

use crate::catalog::Quality;
use crate::fonts::{
    clean, distinct_is_clean, default_lyric_font_families, default_monospace_font_families, default_ui_font_families,
    join_font_families, joined_families, monospace_family, parse_font_families, typed_families, Platform,
};
use crate::number::{format_unsigned, numeral, zero_padded};
use crate::settings::{
    default_families_clean, entered_limit, typed_limit, AppSettings, ColorTheme, LyricFrameRate,
    PersistedWindowSize, TrayIconStyle, MAX_IMAGE_CACHE_CAPACITY, MAX_NAVIGATION_HISTORY_LIMIT,
};
use crate::text::{push_chars, texts};
use crate::views::player::quality_options;
use vstd::prelude::*;

verus! {

/// The styles of the icon in the tray, and which of them is selected.
pub fn tray_options(selected: TrayIconStyle) -> (options: [(TrayIconStyle, bool); 3])
    ensures
        options@ == seq![
            (TrayIconStyle::Light, selected == TrayIconStyle::Light),
            (TrayIconStyle::Dark, selected == TrayIconStyle::Dark),
            (TrayIconStyle::Color, selected == TrayIconStyle::Color),
        ],
{
    let options = [
        (TrayIconStyle::Light, selected == TrayIconStyle::Light),
        (TrayIconStyle::Dark, selected == TrayIconStyle::Dark),
        (TrayIconStyle::Color, selected == TrayIconStyle::Color),
    ];
    assert(options@ =~= seq![
        (TrayIconStyle::Light, selected == TrayIconStyle::Light),
        (TrayIconStyle::Dark, selected == TrayIconStyle::Dark),
        (TrayIconStyle::Color, selected == TrayIconStyle::Color),
    ]);
    options
}

/// A row of buttons: two of them, and one in the last row where their number is odd.
pub open spec fn row_of_two<T>(items: Seq<T>, row: int) -> Seq<T> {
    items.subrange(
        2 * row,
        if 2 * row + 2 <= items.len() {
            2 * row + 2
        } else {
            items.len() as int
        },
    )
}

/// The rows hold the items, two in each.
pub open spec fn in_rows_of_two<T>(items: Seq<T>, rows: Seq<Vec<T>>) -> bool {
    &&& rows.len() == (items.len() + 1) / 2
    &&& forall|row: int|
        0 <= row < rows.len() ==> (#[trigger] rows[row])@ == row_of_two(items, row)
}

fn rows_of_two<T: Copy>(items: &Vec<T>) -> (rows: Vec<Vec<T>>)
    ensures
        in_rows_of_two(items@, rows@),
{
    let mut rows: Vec<Vec<T>> = Vec::new();
    let mut i: usize = 0;
    while i < items.len()
        invariant
            i <= items@.len(),
            i == 2 * rows@.len() || i == items@.len(),
            rows@.len() == (i + 1) / 2,
            forall|row: int|
                0 <= row < rows@.len() ==> (#[trigger] rows@[row])@ == row_of_two(items@, row),
        decreases items.len() - i,
    {
        let mut row: Vec<T> = Vec::new();
        row.push(items[i]);
        if items.len() - i >= 2 {
            row.push(items[i + 1]);
            i += 2;
        } else {
            i += 1;
        }
        assert(row@ =~= row_of_two(items@, rows@.len() as int));
        rows.push(row);
    }
    rows
}

/// The themes in rows of two, each with whether it is the selected one.
pub fn theme_rows(themes: &Vec<ColorTheme>, selected: ColorTheme) -> (rows: Vec<
    Vec<(ColorTheme, bool)>,
>)
    ensures
        in_rows_of_two(
            themes@.map_values(|theme: ColorTheme| (theme, theme == selected)),
            rows@,
        ),
{
    let mut marked: Vec<(ColorTheme, bool)> = Vec::new();
    let mut i: usize = 0;
    while i < themes.len()
        invariant
            i <= themes@.len(),
            marked@ == themes@.take(i as int).map_values(
                |theme: ColorTheme| (theme, theme == selected),
            ),
        decreases themes.len() - i,
    {
        marked.push((themes[i], themes[i] == selected));
        i += 1;
    }
    assert(themes@.take(themes@.len() as int) =~= themes@);
    rows_of_two(&marked)
}

/// The qualities in rows of two, each with whether it is the preferred one.
pub fn quality_rows(qualities: &Vec<Quality>, preferred: Quality) -> (rows: Vec<
    Vec<(Quality, bool)>,
>)
    ensures
        in_rows_of_two(
            qualities@.map_values(|quality: Quality| (quality, quality == preferred)),
            rows@,
        ),
{
    rows_of_two(&quality_options(qualities, preferred))
}

/// The frame rates of lyrics, and which of them is selected.
pub fn frame_rate_options(selected: LyricFrameRate) -> (options: [(LyricFrameRate, bool); 5])
    ensures
        options@ == seq![
            (LyricFrameRate::Fps30, selected == LyricFrameRate::Fps30),
            (LyricFrameRate::Fps60, selected == LyricFrameRate::Fps60),
            (LyricFrameRate::Fps90, selected == LyricFrameRate::Fps90),
            (LyricFrameRate::Fps120, selected == LyricFrameRate::Fps120),
            (LyricFrameRate::Display, selected == LyricFrameRate::Display),
        ],
{
    let options = [
        (LyricFrameRate::Fps30, selected == LyricFrameRate::Fps30),
        (LyricFrameRate::Fps60, selected == LyricFrameRate::Fps60),
        (LyricFrameRate::Fps90, selected == LyricFrameRate::Fps90),
        (LyricFrameRate::Fps120, selected == LyricFrameRate::Fps120),
        (LyricFrameRate::Display, selected == LyricFrameRate::Display),
    ];
    assert(options@ =~= seq![
        (LyricFrameRate::Fps30, selected == LyricFrameRate::Fps30),
        (LyricFrameRate::Fps60, selected == LyricFrameRate::Fps60),
        (LyricFrameRate::Fps90, selected == LyricFrameRate::Fps90),
        (LyricFrameRate::Fps120, selected == LyricFrameRate::Fps120),
        (LyricFrameRate::Display, selected == LyricFrameRate::Display),
    ]);
    options
}

fn number_text(n: u64) -> (text: String)
    ensures
        text@ == zero_padded(numeral(n as nat, 10), 1),
{
    let digits = format_unsigned(n as u128, 10, 1);
    let mut text = String::new();
    push_chars(&mut text, digits.as_slice());
    assert(text@ =~= digits@);
    text
}

impl AppSettings {
    /// Chooses the colors, and says whether that is news.
    pub fn set_color_theme(&mut self, theme: ColorTheme) -> (changed: bool)
        ensures
            changed == (old(self).color_theme != theme),
            *final(self) == (AppSettings { color_theme: theme, ..*old(self) }),
            old(self).normal() ==> final(self).normal(),
    {
        if self.color_theme == theme {
            return false;
        }
        self.color_theme = theme;
        true
    }

    pub fn set_tray_icon_style(&mut self, style: TrayIconStyle) -> (changed: bool)
        ensures
            changed == (old(self).tray_icon_style != style),
            *final(self) == (AppSettings { tray_icon_style: style, ..*old(self) }),
            old(self).normal() ==> final(self).normal(),
    {
        if self.tray_icon_style == style {
            return false;
        }
        self.tray_icon_style = style;
        true
    }

    pub fn set_preferred_playback_quality(&mut self, quality: Quality) -> (changed: bool)
        ensures
            changed == (old(self).playback_quality != quality),
            *final(self) == (AppSettings { playback_quality: quality, ..*old(self) }),
            old(self).normal() ==> final(self).normal(),
    {
        if self.playback_quality == quality {
            return false;
        }
        self.playback_quality = quality;
        true
    }

    pub fn set_lyric_highlight_frame_rate(&mut self, rate: LyricFrameRate) -> (changed: bool)
        ensures
            changed == (old(self).lyric_highlight_frame_rate != rate),
            *final(self) == (AppSettings { lyric_highlight_frame_rate: rate, ..*old(self) }),
            old(self).normal() ==> final(self).normal(),
    {
        if self.lyric_highlight_frame_rate == rate {
            return false;
        }
        self.lyric_highlight_frame_rate = rate;
        true
    }

    pub fn set_lyric_scroll_frame_rate(&mut self, rate: LyricFrameRate) -> (changed: bool)
        ensures
            changed == (old(self).lyric_scroll_frame_rate != rate),
            *final(self) == (AppSettings { lyric_scroll_frame_rate: rate, ..*old(self) }),
            old(self).normal() ==> final(self).normal(),
    {
        if self.lyric_scroll_frame_rate == rate {
            return false;
        }
        self.lyric_scroll_frame_rate = rate;
        true
    }

    /// Remembers the size of the window, unless it has none.
    pub fn remember_window_size(&mut self, width: u32, height: u32)
        ensures
            *final(self) == (AppSettings {
                window_size: if width > 0 && height > 0 {
                    Some(PersistedWindowSize { width, height })
                } else {
                    old(self).window_size
                },
                ..*old(self)
            }),
            old(self).normal() ==> final(self).normal(),
    {
        if width > 0 && height > 0 {
            self.window_size = Some(PersistedWindowSize { width, height });
        }
    }

    /// Takes a limit for stored music that was typed. Gives the text for the field,
    /// and whether the limit changed.
    pub fn apply_audio_cache_limit(&mut self, typed: &str) -> (result: (String, bool))
        ensures
            final(self).audio_cache_limit_gb == typed_limit(
                typed@,
                old(self).audio_cache_limit_gb as nat,
                u64::MAX as nat,
            ),
            *final(self) == (AppSettings {
                audio_cache_limit_gb: final(self).audio_cache_limit_gb,
                ..*old(self)
            }),
            old(self).normal() ==> final(self).normal(),
            result.0@ == zero_padded(numeral(final(self).audio_cache_limit_gb as nat, 10), 1),
            result.1 == (final(self).audio_cache_limit_gb != old(self).audio_cache_limit_gb),
    {
        let current: u64 = self.audio_cache_limit_gb;
        let value: u64 = entered_limit(typed, current, u64::MAX);
        self.audio_cache_limit_gb = value;
        (number_text(value), value != current)
    }

    /// Takes a limit for pictures in memory that was typed.
    pub fn apply_image_cache_capacity(&mut self, typed: &str) -> (result: (String, bool))
        ensures
            final(self).image_cache_capacity == typed_limit(
                typed@,
                old(self).image_cache_capacity as nat,
                MAX_IMAGE_CACHE_CAPACITY as nat,
            ),
            *final(self) == (AppSettings {
                image_cache_capacity: final(self).image_cache_capacity,
                ..*old(self)
            }),
            old(self).normal() ==> final(self).normal(),
            result.0@ == zero_padded(numeral(final(self).image_cache_capacity as nat, 10), 1),
            result.1 == (final(self).image_cache_capacity != old(self).image_cache_capacity),
    {
        let current: usize = self.image_cache_capacity;
        let value: u64 = entered_limit(typed, current as u64, MAX_IMAGE_CACHE_CAPACITY as u64);
        self.image_cache_capacity = value as usize;
        (number_text(value), value != current as u64)
    }

    /// Takes a limit for visited pages that was typed.
    pub fn apply_navigation_history_limit(&mut self, typed: &str) -> (result: (String, bool))
        ensures
            final(self).navigation_history_limit == typed_limit(
                typed@,
                old(self).navigation_history_limit as nat,
                MAX_NAVIGATION_HISTORY_LIMIT as nat,
            ),
            *final(self) == (AppSettings {
                navigation_history_limit: final(self).navigation_history_limit,
                ..*old(self)
            }),
            old(self).normal() ==> final(self).normal(),
            result.0@ == zero_padded(numeral(final(self).navigation_history_limit as nat, 10), 1),
            result.1 == (final(self).navigation_history_limit
                != old(self).navigation_history_limit),
    {
        let current: usize = self.navigation_history_limit;
        let value: u64 = entered_limit(typed, current as u64, MAX_NAVIGATION_HISTORY_LIMIT as u64);
        self.navigation_history_limit = value as usize;
        (number_text(value), value != current as u64)
    }

    /// Takes the fonts that were typed, with the defaults for fields that name none.
    pub fn apply_font_settings(
        &mut self,
        ui: &str,
        monospace: &str,
        lyrics: &str,
        platform: Platform,
    )
        ensures
            texts(final(self).ui_font_families@) == chosen_families(ui@, ".SystemUIFont"@),
            texts(final(self).monospace_font_families@) == chosen_families(
                monospace@,
                monospace_family(platform),
            ),
            texts(final(self).lyric_font_families@) == chosen_families(lyrics@, ".SystemUIFont"@),
            *final(self) == (AppSettings {
                ui_font_families: final(self).ui_font_families,
                monospace_font_families: final(self).monospace_font_families,
                lyric_font_families: final(self).lyric_font_families,
                ..*old(self)
            }),
            old(self).normal() ==> final(self).normal(),
    {
        proof {
            chosen_families_clean(ui@, ".SystemUIFont"@, platform);
            chosen_families_clean(monospace@, monospace_family(platform), platform);
            chosen_families_clean(lyrics@, ".SystemUIFont"@, platform);
        }
        self.ui_font_families = choose_families(ui, default_ui_font_families());
        self.monospace_font_families = choose_families(
            monospace,
            default_monospace_font_families(platform),
        );
        self.lyric_font_families = choose_families(lyrics, default_lyric_font_families());
    }

    /// The texts of the fields for the fonts.
    pub fn font_inputs(&self) -> (inputs: (String, String, String))
        ensures
            inputs.0@ == joined_families(texts(self.ui_font_families@)),
            inputs.1@ == joined_families(texts(self.monospace_font_families@)),
            inputs.2@ == joined_families(texts(self.lyric_font_families@)),
    {
        (
            join_font_families(&self.ui_font_families),
            join_font_families(&self.monospace_font_families),
            join_font_families(&self.lyric_font_families),
        )
    }
}

/// The families that a field names, or the usual one.
pub open spec fn chosen_families(typed: Seq<char>, usual: Seq<char>) -> Seq<Seq<char>> {
    if typed_families(typed).len() == 0 {
        seq![usual]
    } else {
        typed_families(typed)
    }
}

proof fn chosen_families_clean(typed: Seq<char>, usual: Seq<char>, platform: Platform)
    requires
        usual == ".SystemUIFont"@ || usual == monospace_family(platform),
    ensures
        chosen_families(typed, usual).len() > 0,
        clean(chosen_families(typed, usual)),
{
    default_families_clean(platform);
    distinct_is_clean(crate::fonts::pieces_between(typed, 0, 0));
}

fn choose_families(typed: &str, usual: Vec<String>) -> (families: Vec<String>)
    ensures
        texts(families@) == (if typed_families(typed@).len() == 0 {
            texts(usual@)
        } else {
            typed_families(typed@)
        }),
{
    let families = parse_font_families(typed);
    assert(texts(families@).len() == families@.len());
    if families.len() == 0 {
        usual
    } else {
        families
    }
}

/// Rows of two hold all items in their order: the item at `i` stands in row `i / 2`, on the
/// left where `i` is even.
pub proof fn rows_of_two_hold_all<T>(items: Seq<T>, rows: Seq<Vec<T>>, i: int)
    requires
        in_rows_of_two(items, rows),
        0 <= i < items.len(),
    ensures
        i / 2 < rows.len(),
        i % 2 < rows[i / 2]@.len() <= 2,
        rows[i / 2]@[i % 2] == items[i],
        rows.len() * 2 <= items.len() + 1,
{
    let row = i / 2;
    assert(rows[row]@ == row_of_two(items, row));
}

} // verus!
