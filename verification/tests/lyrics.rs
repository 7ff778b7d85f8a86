use lyrune::lyrics::align::align_lyric_lines;
use lyrune::lyrics::fragment::{
    lyric_metrics, prepare_fragments, timed_playhead, LyricLayoutCache, LyricLayoutCacheSource,
    LyricLayoutStyle, Playhead,
};
use lyrune::lyrics::line::sort_by_start;
use lyrune::lyrics::lrc::parse_lrc;
use lyrune::lyrics::parse::{merge_lyrics, parse_lyrics, parse_timed_lyrics, ParsedLyrics};
use lyrune::lyrics::qrc::parse_qrc;
use lyrune::lyrics::relaxed::{
    decode_qrc_entities, extract_qrc_content, extract_qrc_content_relaxed,
};
use lyrune::lyrics::markup::{content_of, extract_qrc_content_strict, Markup};
use lyrune::lyrics::ruby::take_ruby;
use lyrune::lyrics::store::{same_lyrics, MemoryLyrics, TrackLyrics};
use lyrune::lyrics::timing::{
    adjacent_lyric_timing, combined_lyric_frame_interval, lyric_frame_is_due, lyric_line_opacity,
    lyric_position_for_frame_rate, Progress,
};
use lyrune::settings::LyricFrameRate;
use lyrune::time::{Duration, Instant};
use std::sync::Arc;

fn fraction(progress: Progress) -> f32 {
    match progress {
        Progress::Nothing => 0.,
        Progress::Part { elapsed, total } => {
            elapsed.as_nanos() as f32 / total.as_nanos() as f32
        }
        Progress::Everything => 1.,
    }
}

fn chars(text: &str) -> Vec<char> {
    text.chars().collect()
}

#[test]
fn lyric_frame_intervals_preserve_the_fastest_animation_requirement() {
    assert_eq!(
        combined_lyric_frame_interval(LyricFrameRate::Fps30, LyricFrameRate::Fps60),
        LyricFrameRate::Fps60.frame_interval()
    );
    assert_eq!(
        combined_lyric_frame_interval(LyricFrameRate::Display, LyricFrameRate::Fps60),
        None
    );
    assert_eq!(
        combined_lyric_frame_interval(LyricFrameRate::Fps30, LyricFrameRate::Display),
        None
    );
}

#[test]
fn lyric_position_is_quantized_only_for_limited_highlight_rates() {
    let position = Duration::from_millis(50);
    assert_eq!(
        lyric_position_for_frame_rate(position, LyricFrameRate::Fps30),
        Duration::from_nanos(1_000_000_000 / 30)
    );
    assert_eq!(
        lyric_position_for_frame_rate(position, LyricFrameRate::Display),
        position
    );
}

#[test]
fn limited_lyric_frames_follow_one_stable_deadline() {
    let now = Instant { nanos: 7_000_000_000 };
    let interval = LyricFrameRate::Fps30.frame_interval().unwrap();
    let mut next_frame = None;

    assert!(!lyric_frame_is_due(now, LyricFrameRate::Fps30, &mut next_frame));
    assert_eq!(next_frame, Some(now.plus(interval)));
    assert!(!lyric_frame_is_due(
        now.plus(Duration::from_millis(10)),
        LyricFrameRate::Fps30,
        &mut next_frame
    ));
    assert!(lyric_frame_is_due(
        now.plus(interval),
        LyricFrameRate::Fps30,
        &mut next_frame
    ));
    assert!(lyric_frame_is_due(
        now.plus(interval),
        LyricFrameRate::Display,
        &mut next_frame
    ));
    assert_eq!(next_frame, None);
}

#[test]
fn parses_and_aligns_timestamped_lyrics() {
    let lyrics = parse_lyrics(
        "[ti:title]\n[00:01.20]first\n[00:10.000][00:20.000]repeat",
        Some("[00:01.200]第一句\n[00:10.000]重复"),
        None,
    );

    assert_eq!(lyrics.lines.len(), 3);
    assert_eq!(lyrics.lines[0].start, Duration::from_millis(1_200));
    assert_eq!(lyrics.lines[0].text, "first");
    assert_eq!(lyrics.lines[0].translation.as_deref(), Some("第一句"));
    assert_eq!(lyrics.lines[2].start, Duration::from_secs(20));
    assert_eq!(lyrics.active_index(Duration::from_secs(5)), Some(0));
    assert_eq!(lyrics.active_index(Duration::from_secs(10)), Some(1));
}

#[test]
fn untimed_qrc_tail_extends_to_the_next_line() {
    let timing = (Duration::from_millis(100), Duration::from_millis(600));

    assert_eq!(
        adjacent_lyric_timing(
            Some(timing),
            None,
            Duration::zero(),
            Duration::from_millis(900)
        ),
        (Duration::from_millis(600), Duration::from_millis(900))
    );
}

#[test]
fn untimed_qrc_text_between_words_uses_the_timing_gap() {
    let previous = (Duration::from_millis(100), Duration::from_millis(600));
    let next = (Duration::from_millis(900), Duration::from_millis(1_200));

    assert_eq!(
        adjacent_lyric_timing(
            Some(previous),
            Some(next),
            Duration::zero(),
            Duration::from_millis(1_500)
        ),
        (Duration::from_millis(600), Duration::from_millis(900))
    );
}

#[test]
fn prefers_qrc_word_timing_and_preserves_lyric_parentheses() {
    let lyrics = parse_lyrics(
        r#"<?xml version="1.0" encoding="utf-8"?>
<QrcInfos><LyricInfo LyricCount="1"><Lyric_1 LyricType="1" LyricContent="[1000,700]青(1000,300)い(1300,150)空（そら）(1450,250)&#10;[2000,500]次(2000,500)"/></LyricInfo></QrcInfos>"#,
        Some("[00:01.000]蓝色天空\n[00:02.000]下一句"),
        None,
    );

    assert_eq!(lyrics.lines.len(), 2);
    assert_eq!(lyrics.lines[0].start, Duration::from_secs(1));
    assert_eq!(lyrics.lines[0].text, "青い空（そら）");
    assert_eq!(lyrics.lines[0].words.len(), 3);
    assert_eq!(
        fraction(lyrics.lines[0].words[0].highlight_progress(Duration::from_millis(999))),
        0.
    );
    assert!(
        (fraction(lyrics.lines[0].words[0].highlight_progress(Duration::from_millis(1_100)))
            - 1. / 3.)
            .abs()
            < f32::EPSILON
    );
    assert_eq!(
        fraction(lyrics.lines[0].words[2].highlight_progress(Duration::from_millis(1_700))),
        1.
    );
    assert_eq!(lyrics.lines[0].translation.as_deref(), Some("蓝色天空"));
    assert_eq!(lyrics.active_index(Duration::from_millis(1_999)), Some(0));
    assert_eq!(lyrics.active_index(Duration::from_secs(2)), Some(1));
}

#[test]
fn aligns_qrc_translation_with_rounded_timestamps() {
    let lyrics = parse_lyrics(
        r#"<QrcInfos><LyricInfo><Lyric_1 LyricContent="[16013,500]原(16013,500)&#10;[22564,500]文(22564,500)"/></LyricInfo></QrcInfos>"#,
        Some("[00:16.010]第一行\n[00:22.560]第二行"),
        None,
    );

    assert_eq!(lyrics.lines.len(), 2);
    assert_eq!(lyrics.lines[0].translation.as_deref(), Some("第一行"));
    assert_eq!(lyrics.lines[1].translation.as_deref(), Some("第二行"));
}

#[test]
fn aligns_qrc_romanization_as_kanji_ruby() {
    let lyrics = parse_lyrics(
        "[17499,5352]あ(17499,127)と(17626,211)一(17838,646)匙(18485,739)の(19224,234)憂(19459,297)鬱(19756,389)で(20146,285)",
        None,
        Some(
            "[17499,5352]a (17499,127)to (17626,211)hi (17838,323)to (18161,323)sa (18485,369)ji (18854,370)no (19224,234)yu (19459,148)u (19607,149)u (19756,194)tsu (19950,195)de (20146,285)",
        ),
    );

    let words = &lyrics.lines[0].words;
    assert_eq!(words[0].ruby, None);
    assert_eq!(words[2].ruby.as_deref(), Some("ひと"));
    assert_eq!(words[3].ruby.as_deref(), Some("さじ"));
    assert_eq!(words[5].ruby.as_deref(), Some("ゆう"));
    assert_eq!(words[6].ruby.as_deref(), Some("うつ"));
}

#[test]
fn assigns_qrc_romanization_to_the_word_with_the_largest_overlap() {
    let lyrics = parse_lyrics(
        "[4244,4592]夜(4244,349)の(4593,406)赤(4999,373)と(5372,1039)歩(6411,433)き(6844,756)解(7600,448)く(8048,788)",
        None,
        Some(
            "[4243,4593]yo(4243,182)ru(4426,166)no(4592,406)a(4999,164)ka(5163,208)to(5371,1038)a(6410,236)ru(6646,197)ki(6843,756)ho(7600,236)do(7836,211)ku(8047,788)",
        ),
    );

    let words = &lyrics.lines[0].words;
    assert_eq!(words[0].ruby.as_deref(), Some("よる"));
    assert_eq!(words[1].ruby, None);
    assert_eq!(words[2].ruby.as_deref(), Some("あか"));
    assert_eq!(words[3].ruby, None);
    assert_eq!(words[4].ruby.as_deref(), Some("ある"));
    assert_eq!(words[5].ruby, None);
    assert_eq!(words[6].ruby.as_deref(), Some("ほど"));
    assert_eq!(words[7].ruby, None);
}

#[test]
fn does_not_treat_chinese_romanization_as_japanese_ruby() {
    let lyrics = parse_lyrics(
        "[1000,500]中文(1000,500)",
        None,
        Some("[1000,500]zhong (1000,250)wen (1250,250)"),
    );

    assert_eq!(lyrics.lines[0].words[0].ruby, None);
}

#[test]
fn preserves_literal_line_breaks_in_qrc_attributes() {
    let lyrics = parse_lyrics(
        "<QrcInfos><LyricInfo><Lyric_1 LyricContent=\"[ti:title]\r\n[0,500]中(0,250)文(250,250)\r\n[500,500]歌词(500,500)\"/></LyricInfo></QrcInfos>",
        None,
        None,
    );

    assert_eq!(lyrics.lines.len(), 2);
    assert_eq!(lyrics.lines[0].text, "中文");
    assert_eq!(lyrics.lines[1].text, "歌词");
}

#[test]
fn extracts_qrc_content_with_malformed_xml_characters() {
    let content = extract_qrc_content(
        r#"<QrcInfos><LyricInfo><Lyric_1 LyricContent="[0,500]Recording & Mix <live>(0,500)&#10;[500,500]Marcus "MarcLo" Lomax &amp; &#x41;&apos;s(500,500)" Source='qq'/></LyricInfo></QrcInfos>"#,
    )
    .unwrap();

    assert_eq!(
        content,
        "[0,500]Recording & Mix <live>(0,500)\n[500,500]Marcus \"MarcLo\" Lomax & A's(500,500)"
    );
}

#[test]
fn parses_all_lines_after_an_unescaped_qrc_quote() {
    let lyrics = parse_lyrics(
        r#"<QrcInfos><LyricInfo><Lyric_1 LyricContent="[0,500]Marcus "MarcLo" Lomax(0,500)&#10;[500,500]second(500,500)&#10;[1000,500]third(1000,500)"/></LyricInfo></QrcInfos>"#,
        None,
        None,
    );

    assert_eq!(lyrics.lines.len(), 3);
    assert_eq!(lyrics.lines[0].text, "Marcus \"MarcLo\" Lomax");
    assert_eq!(lyrics.lines[2].text, "third");
}

#[test]
fn falls_back_to_lrc_inside_the_qrc_wrapper() {
    let lyrics = parse_lyrics(
        r#"<QrcInfos><LyricInfo><Lyric_1 LyricContent="[00:01.000]first&#10;[00:02.000]second"/></LyricInfo></QrcInfos>"#,
        None,
        None,
    );

    assert_eq!(lyrics.lines.len(), 2);
    assert_eq!(lyrics.lines[0].text, "first");
    assert_eq!(lyrics.lines[1].text, "second");
}

#[test]
fn rejects_a_truncated_qrc_wrapper_instead_of_returning_a_prefix() {
    assert_eq!(
        extract_qrc_content(r#"<QrcInfos><LyricInfo><Lyric_1 LyricContent="[0,500]first(0,500)"#),
        None
    );
}

#[test]
fn omits_provider_translation_placeholders() {
    let lyrics = parse_lyrics(
        "[00:01.000]词：作者\n[00:02.000]//",
        Some("[00:01.000]//\n[00:02.000]实际翻译"),
        None,
    );

    assert_eq!(lyrics.lines[0].translation, None);
    assert_eq!(lyrics.lines[1].text, "//");
    assert_eq!(lyrics.lines[1].translation.as_deref(), Some("实际翻译"));
}

#[test]
fn a_translation_stands_in_for_missing_lyrics() {
    let lyrics = parse_lyrics("", Some("[00:03.5]只有翻译"), None);
    assert_eq!(lyrics.lines.len(), 1);
    assert_eq!(lyrics.lines[0].start, Duration::from_millis(3_500));
    assert_eq!(lyrics.lines[0].text, "只有翻译");
    assert_eq!(lyrics.active_index(Duration::from_secs(3)), None);
}

#[test]
fn line_times_are_read_in_all_their_forms() {
    let lines = parse_lrc(
        "\u{feff}[01:02]no fraction\n[00:01.5]tenths\n[00:01.25]hundredths\n[00:01.1239]cut\n[00:60.0]too late\n[00:01.x]bad\n[x:01]bad\n[00:05.0]   \n",
    );
    let found: Vec<(u128, &str)> = lines
        .iter()
        .map(|line| (line.start.as_millis(), line.text.as_str()))
        .collect();
    assert_eq!(
        found,
        [
            (1_123, "cut"),
            (1_250, "hundredths"),
            (1_500, "tenths"),
            (62_000, "no fraction"),
        ]
    );
}

#[test]
fn a_time_that_does_not_fit_is_cut() {
    let lines = parse_lrc("[18446744073709551615:59.999]end");
    assert_eq!(lines[0].start, Duration::from_millis(u64::MAX));
}

#[test]
fn words_get_byte_ranges_and_times() {
    let lines = parse_qrc("[10,20]  世(10,5)x(15,5)界 (20,5,7)(note)\r\n[5,1]early(5,1)\n[a,b]bad\n[1,1]   \n");
    assert_eq!(lines.len(), 2);
    assert_eq!(lines[0].text, "early");
    let line = &lines[1];
    assert_eq!(line.text, "世x界 (note)");
    assert_eq!(line.start, Duration::from_millis(10));
    let ranges: Vec<_> = line.words.iter().map(|word| word.range.clone()).collect();
    assert_eq!(ranges, [0..3, 3..4, 4..8]);
    assert_eq!(line.words[2].start, Duration::from_millis(20));
    assert_eq!(line.words[2].end, Duration::from_millis(25));
}

#[test]
fn entities_are_decoded_and_bare_ampersands_kept() {
    let decoded = decode_qrc_entities(&chars("a&lt;b&gt;&quot;&apos;&amp;&#65;&#x42;&#X43; & d;&nope;&#xD800;&"));
    assert_eq!(decoded, "a<b>\"'&ABC & d;&nope;&#xD800;&");
}

#[test]
fn the_strict_reading_resolves_references_and_refuses_broken_documents() {
    assert_eq!(
        extract_qrc_content_strict(r#"<a><b LyricContent="1 &lt; 2"/><b LyricContent="later"/></a>"#)
            .as_deref(),
        Some("1 < 2")
    );
    assert_eq!(extract_qrc_content_strict("<a>text</b>"), None);
    assert_eq!(
        extract_qrc_content_strict(r#"<a LyricContent="x &nope; y"/>"#),
        None
    );
    assert_eq!(extract_qrc_content_strict(r#"<a Other="x"/>"#), None);
}

#[test]
fn the_first_lyrics_of_a_readable_document_count() {
    let attributes = |key: &str, text: &str| {
        Markup::Attributes(vec![(key.as_bytes().to_vec(), text.to_owned())])
    };
    let steps = vec![
        attributes("Other", "no"),
        Markup::Silent,
        attributes("LyricContent", "first"),
        attributes("LyricContent", "second"),
    ];
    assert_eq!(content_of(&steps).as_deref(), Some("first"));
    let broken = vec![attributes("LyricContent", "first"), Markup::Broken];
    assert_eq!(content_of(&broken), None);
}

#[test]
fn the_tolerant_reading_needs_the_right_tag_and_a_closed_one() {
    assert_eq!(
        extract_qrc_content_relaxed(r#"<Lyric_10 LyricContent="no"/><Lyric_1 A='x' LyricContent='yes "it" is' B="c">"#)
            .as_deref(),
        Some("yes \"it\" is")
    );
    assert_eq!(extract_qrc_content_relaxed(r#"<Lyric_1 LyricContent="open"#), None);
    assert_eq!(extract_qrc_content_relaxed("no tag"), None);
}

#[test]
fn plain_lyrics_are_their_own_content() {
    assert_eq!(extract_qrc_content("  [0,1]x").as_deref(), Some("  [0,1]x"));
}

#[test]
fn lines_that_start_together_keep_their_order() {
    let lines = parse_lrc("[00:02.00]b\n[00:01.00]a\n[00:02.00]c\n");
    let texts: Vec<&str> = lines.iter().map(|line| line.text.as_str()).collect();
    assert_eq!(texts, ["a", "b", "c"]);
    let again = sort_by_start(lines.clone());
    assert_eq!(again, lines);
}

#[test]
fn each_auxiliary_line_is_used_once_and_in_order() {
    let original = parse_lrc("[00:01.00]a\n[00:01.30]b\n[00:09.00]c\n");
    let auxiliary = parse_lrc("[00:01.10]x\n[00:09.60]y\n");
    assert_eq!(
        align_lyric_lines(&original, &auxiliary),
        [Some(0), None, None]
    );
    let near = parse_lrc("[00:01.40]x\n[00:09.40]y\n");
    assert_eq!(align_lyric_lines(&original, &near), [Some(0), None, Some(1)]);
}

#[test]
fn fragments_of_a_line_say_what_the_line_says() {
    let lines = parse_qrc("[0,900]<<中(100,200)..文(400,100)>>");
    let line = &lines[0];
    let fragments = prepare_fragments(line, Duration::from_millis(900), LyricLayoutStyle::Active);
    let whole: String = fragments.iter().map(|f| f.text.as_str()).collect();
    assert_eq!(whole, line.text);
    assert_eq!(fragments.len(), 3);
    assert_eq!(
        fragments[2].timing,
        Some((Duration::from_millis(500), Duration::from_millis(900)))
    );
    let plain = prepare_fragments(line, Duration::from_millis(900), LyricLayoutStyle::Normal);
    assert_eq!(plain.len(), 1);
    assert_eq!(plain[0].timing, None);
    assert_eq!(
        timed_playhead(&fragments, Duration::from_millis(50)),
        Some(Playhead::Before(0))
    );
    assert_eq!(
        timed_playhead(&fragments, Duration::from_millis(150)),
        Some(Playhead::Inside(0))
    );
    assert_eq!(
        timed_playhead(&fragments, Duration::from_millis(350)),
        Some(Playhead::After(0))
    );
    assert_eq!(
        timed_playhead(&fragments, Duration::from_millis(950)),
        Some(Playhead::After(2))
    );
    assert_eq!(timed_playhead(&plain, Duration::from_millis(950)), None);
}

#[test]
fn readings_are_taken_only_as_hiragana() {
    assert_eq!(take_ruby("かー".to_owned(), None).as_deref(), Some("かー"));
    assert_eq!(take_ruby("kaか".to_owned(), None), None);
    assert_eq!(
        take_ruby(String::new(), Some("もと".to_owned())).as_deref(),
        Some("もと")
    );
}

#[test]
fn merging_adds_translations_and_nothing_else() {
    let original = parse_timed_lyrics("[00:01.00]a\n[00:02.00]b");
    let translated = parse_timed_lyrics("[00:01.00]A\n[00:02.00]B");
    let merged = merge_lyrics(original.clone(), translated, Vec::new());
    for (line, before) in merged.lines.iter().zip(&original) {
        assert_eq!(line.start, before.start);
        assert_eq!(line.text, before.text);
        assert_eq!(line.words, before.words);
    }
    assert_eq!(merged.lines[1].translation.as_deref(), Some("B"));
}

#[test]
fn sizes_and_brightness_follow_the_layout() {
    assert_eq!(
        lyric_metrics(LyricLayoutStyle::Active, false, false).font_size,
        28
    );
    assert_eq!(
        lyric_metrics(LyricLayoutStyle::Normal, true, true).ruby_line_height,
        13
    );
    assert_eq!(lyric_line_opacity(4, 4), 100);
    assert_eq!(lyric_line_opacity(4, 2), 48);
    assert_eq!(lyric_line_opacity(0, 9), 16);
}

#[test]
fn a_missed_frame_restarts_the_deadlines() {
    let mut next = Some(Instant { nanos: 1_000_000_000 });
    let late = Instant { nanos: 3_000_000_000 };
    assert!(lyric_frame_is_due(late, LyricFrameRate::Fps60, &mut next));
    assert_eq!(next, Some(Instant { nanos: 3_016_666_666 }));
}

fn memory(text: &str, fetched_at_secs: u64) -> MemoryLyrics {
    MemoryLyrics {
        parsed: Arc::new(parse_lyrics(text, None, None)),
        fetched_at_secs,
    }
}

#[test]
fn lyrics_that_play_do_not_change_until_the_next_time() {
    let now = 3_000_000;
    let mut track = TrackLyrics::new();
    assert_eq!(track.ensure("", false, now), None);
    assert!(!track.loading);
    assert_eq!(track.ensure("A", false, now), Some(false));
    assert_eq!(track.ensure("A", false, now), None);
    track.on_disk(memory("[00:01.00]old", 100), false);
    assert!(track.loading);
    track.on_network(Ok(memory("[00:01.00]new", now)), true, true);
    assert!(!track.loading);
    assert_eq!(track.cached.as_ref().unwrap().parsed.lines[0].text, "old");
    assert_eq!(track.ensure("A", true, now), None);
    assert_eq!(track.ensure("A", false, now), None);
    assert_eq!(track.cached.as_ref().unwrap().parsed.lines[0].text, "new");
    assert!(track.pending.is_none());
}

#[test]
fn unchanged_lyrics_only_count_as_fetched_anew() {
    let mut track = TrackLyrics::new();
    track.on_disk(memory("[00:01.00]same", 1), true);
    track.on_network(Ok(memory("[00:01.00]same", 9)), true, true);
    assert_eq!(track.cached.as_ref().unwrap().fetched_at_secs, 9);
    assert!(track.pending.is_none());
}

#[test]
fn a_failed_load_is_told_only_without_lyrics() {
    let mut track = TrackLyrics::new();
    track.loading = true;
    track.on_network(Err("offline".to_owned()), false, true);
    assert_eq!(track.error.as_deref(), Some("offline"));
    track.on_network(Err("offline".to_owned()), true, true);
    assert_eq!(track.error, None);
    track.loading = true;
    assert!(track.on_closed());
    assert!(!track.on_closed());
}

#[test]
fn lyrics_stay_fresh_for_thirty_days() {
    let lyrics = memory("", 1_000);
    assert!(lyrics.is_fresh(1_000 + 2_591_999));
    assert!(!lyrics.is_fresh(1_000 + 2_592_000));
}

#[test]
fn lyrics_are_compared_by_what_they_say() {
    let a: ParsedLyrics = parse_lyrics("[0,9]x(0,9)", None, None);
    let b = parse_lyrics("[0,9]x(0,9)", None, None);
    let c = parse_lyrics("[0,9]x(0,8)", None, None);
    assert!(same_lyrics(&a, &b));
    assert!(!same_lyrics(&a, &c));
}

#[test]
fn prepared_lines_serve_while_nothing_changes() {
    let source = |font: &str| LyricLayoutCacheSource {
        lyrics: 1,
        mid: "m".to_owned(),
        compact: false,
        narrow: false,
        font: font.to_owned(),
    };
    assert!(source("A").matches(&source("A")));
    assert!(!source("A").matches(&source("B")));
}

#[test]
fn lines_are_prepared_once_for_the_same_form() {
    let source = |narrow| LyricLayoutCacheSource {
        lyrics: 1,
        mid: "A".to_owned(),
        compact: false,
        narrow,
        font: "Inter".to_owned(),
    };
    let mut cache: LyricLayoutCache<&str, &str> = LyricLayoutCache::new();
    cache.reset_if_needed(source(false), 2);
    assert_eq!(cache.rows.len(), 2);
    assert_eq!(*cache.line(1, LyricLayoutStyle::Active, || "one"), "one");
    assert_eq!(*cache.line(1, LyricLayoutStyle::Active, || "two"), "one");
    assert_eq!(*cache.line(1, LyricLayoutStyle::Normal, || "three"), "three");
    assert_eq!(cache.translation(0, || None), None);
    assert_eq!(cache.translation(0, || Some("late")), None);
    cache.reset_if_needed(source(false), 5);
    assert_eq!(cache.rows.len(), 2);
    assert_eq!(*cache.line(1, LyricLayoutStyle::Active, || "four"), "one");
    cache.reset_if_needed(source(true), 3);
    assert_eq!(cache.rows.len(), 3);
    assert_eq!(*cache.line(1, LyricLayoutStyle::Active, || "five"), "five");
}
