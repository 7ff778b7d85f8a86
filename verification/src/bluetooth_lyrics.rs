//! A player on the system bus that shows lyrics on Bluetooth loudspeakers.

use crate::lyrics::line::{in_order, text_of, Line};
use crate::lyrics::parse::ParsedLyrics;
use crate::lyrics::relaxed::same_chars;
use crate::mpris::MprisCommand;
use crate::number::{
    digit_char, digit_char_round_trip, format_unsigned, numeral, numerals_are_small_letters,
    padded_number_reads_back, unsigned, zero_padded,
};
use crate::scan::{trim, trimmed};
use crate::text::{
    ascii_alphanumeric, control, from_chars, is_control, is_whitespace, push_chars, push_text, to_chars, whitespace, texts};
use crate::time::{capped_nanos, Duration, NANOS_PER_MILLI};
use vstd::prelude::*;
use vstd::utf8::encode_utf8;

verus! {

/// The longest text that is sent, in characters.
pub const TEXT_LIMIT: usize = 120;

/// The words of a text: its rows of characters other than whitespace.
pub open spec fn words(s: Seq<char>) -> Seq<Seq<char>>
    decreases s.len(),
{
    if s.len() == 0 {
        Seq::empty()
    } else {
        let before = words(s.drop_last());
        let c = s.last();
        if whitespace(c) {
            before
        } else if s.len() == 1 || whitespace(s[s.len() - 2]) {
            before.push(seq![c])
        } else {
            before.drop_last().push(before.last().push(c))
        }
    }
}

/// The words with a space between each two.
pub open spec fn spaced(words: Seq<Seq<char>>) -> Seq<char>
    decreases words.len(),
{
    if words.len() == 0 {
        Seq::empty()
    } else if words.len() == 1 {
        words[0]
    } else {
        spaced(words.drop_last()).push(' ') + words.last()
    }
}

pub open spec fn limited(s: Seq<char>) -> Seq<char> {
    if s.len() <= TEXT_LIMIT {
        s
    } else {
        s.take(TEXT_LIMIT as int)
    }
}

/// A text on one line: its words with single spaces between them, without control
/// characters, cut to the limit.
pub open spec fn one_line(text: Seq<char>) -> Seq<char> {
    limited(spaced(words(text)).filter(|c: char| !control(c)))
}

proof fn spaced_grows(words: Seq<Seq<char>>, c: char)
    requires
        words.len() > 0,
    ensures
        spaced(words.drop_last().push(words.last().push(c))) == spaced(words).push(c),
{
    let grown = words.drop_last().push(words.last().push(c));
    assert(grown.drop_last() =~= words.drop_last());
    if words.len() > 1 {
        assert(spaced(grown) =~= spaced(words).push(c));
    }
}

proof fn spaced_starts(words: Seq<Seq<char>>, c: char)
    ensures
        words.len() > 0 ==> spaced(words.push(seq![c])) == spaced(words).push(' ').push(c),
        words.len() == 0 ==> spaced(words.push(seq![c])) == seq![c],
{
    assert(words.push(seq![c]).drop_last() =~= words);
    if words.len() > 0 {
        assert(spaced(words.push(seq![c])) =~= spaced(words).push(' ').push(c));
    }
}

proof fn words_nonempty(s: Seq<char>)
    ensures
        s.len() > 0 && !whitespace(s.last()) ==> words(s).len() > 0,
    decreases s.len(),
{
    if s.len() > 0 {
        words_nonempty(s.drop_last());
    }
}

pub fn normalize_text(text: &str) -> (result: String)
    ensures
        result@ == one_line(text@),
{
    let chars = to_chars(text);
    let mut joined: Vec<char> = Vec::new();
    let mut i: usize = 0;
    let mut started: bool = false;
    assert(chars@.take(0) =~= Seq::empty());
    assert(joined@ =~= Seq::empty());
    while i < chars.len()
        invariant
            i <= chars@.len(),
            joined@ == spaced(words(chars@.take(i as int))),
            started == (words(chars@.take(i as int)).len() > 0),
        decreases chars.len() - i,
    {
        let c = chars[i];
        let ghost before = chars@.take(i as int);
        let ghost now = chars@.take(i + 1);
        proof {
            assert(now.drop_last() =~= before);
            assert(now.last() == c);
            if i > 0 {
                assert(now[now.len() - 2] == chars@[i - 1]);
                assert(before.last() == chars@[i - 1]);
            }
            words_nonempty(before);
            spaced_starts(words(before), c);
            if words(before).len() > 0 {
                spaced_grows(words(before), c);
            }
        }
        if !is_whitespace(c) {
            if i == 0 || is_whitespace(chars[i - 1]) {
                if started {
                    joined.push(' ');
                }
            }
            joined.push(c);
            started = true;
            assert(joined@ =~= spaced(words(now)));
        }
        i += 1;
    }
    assert(chars@.take(chars@.len() as int) =~= chars@);
    let mut kept: Vec<char> = Vec::new();
    let mut k: usize = 0;
    let ghost all = joined@;
    proof {
        reveal(Seq::filter);
        assert(all.take(0) =~= Seq::empty());
        assert(kept@ =~= limited(all.take(0).filter(|c: char| !control(c))));
    }
    while k < joined.len()
        invariant
            k <= joined@.len(),
            all == joined@,
            kept@ == limited(all.take(k as int).filter(|c: char| !control(c))),
        decreases joined.len() - k,
    {
        proof {
            reveal(Seq::filter);
            assert(all.take(k + 1).drop_last() =~= all.take(k as int));
            assert(all.take(k + 1).last() == all[k as int]);
        }
        let ghost before = all.take(k as int).filter(|c: char| !control(c));
        if !is_control(joined[k]) {
            if kept.len() < TEXT_LIMIT {
                kept.push(joined[k]);
            }
            assert(kept@ =~= limited(before.push(all[k as int])));
        }
        k += 1;
    }
    assert(all.take(all.len() as int) =~= all);
    from_chars(kept.as_slice())
}

/// A text that is sent is never longer than the limit and holds no control character.
pub proof fn sent_text_is_safe(text: Seq<char>)
    ensures
        one_line(text).len() <= TEXT_LIMIT,
        forall|i: int| 0 <= i < one_line(text).len() ==> !control(#[trigger] one_line(text)[i]),
{
    let all = spaced(words(text));
    let keep = |c: char| !control(c);
    let kept = all.filter(keep);
    broadcast use vstd::seq_lib::group_seq_properties;

    all.lemma_filter_len(keep);
    assert forall|i: int| 0 <= i < one_line(text).len() implies !control(
        #[trigger] one_line(text)[i],
    ) by {
        assert(one_line(text)[i] == kept[i]);
        assert(keep(kept[i])) by {
            filter_holds(all, keep, i);
        }
    }
}

proof fn filter_holds(s: Seq<char>, keep: spec_fn(char) -> bool, i: int)
    requires
        0 <= i < s.filter(keep).len(),
    ensures
        keep(s.filter(keep)[i]),
    decreases s.len(),
{
    reveal(Seq::filter);
    if s.len() > 0 {
        let before = s.drop_last().filter(keep);
        if i < before.len() {
            filter_holds(s.drop_last(), keep, i);
        }
    }
}

/// The offset of the lyrics against the song, kept within three seconds.
pub open spec fn bounded_offset(offset_ms: i32) -> int {
    if offset_ms < -3000 {
        -3000
    } else if offset_ms > 3000 {
        3000
    } else {
        offset_ms as int
    }
}

/// The position of the lyrics: a positive offset delays them, a negative one advances
/// them.
pub open spec fn offset_position(position: nat, offset_ms: i32) -> nat {
    let shift = bounded_offset(offset_ms) * NANOS_PER_MILLI as int;
    capped_nanos(position - shift)
}

pub fn lyric_position(position: Duration, offset_ms: i32) -> (result: Duration)
    ensures
        result@ == offset_position(position@, offset_ms),
{
    let offset: i32 = if offset_ms < -3000 {
        -3000
    } else if offset_ms > 3000 {
        3000
    } else {
        offset_ms
    };
    if offset >= 0 {
        position.saturating_sub(Duration::from_millis(offset as u64))
    } else {
        position.saturating_add(Duration::from_millis((-offset) as u64))
    }
}

/// A larger offset never shows lyrics earlier.
pub proof fn larger_offset_delays(position: nat, smaller: i32, larger: i32)
    requires
        smaller <= larger,
    ensures
        offset_position(position, larger) <= offset_position(position, smaller),
        offset_position(position, 0) == capped_nanos(position as int),
{
}

/// The line of the lyrics at a position: the last that has started.
pub open spec fn sung_line(lines: Seq<Line>, position: nat, index: Option<int>) -> bool {
    match index {
        Some(i) => 0 <= i < lines.len() && lines[i].start <= position && (i + 1 < lines.len()
            ==> lines[i + 1].start > position),
        None => lines.len() > 0 ==> lines[0].start > position,
    }
}

/// What a loudspeaker shows: the line that is sung, and the title of the song where
/// there are no lyrics, before the first line and at a blank one.
pub open spec fn shown_title(title: Seq<char>, line: Option<Seq<char>>) -> Seq<char> {
    match line {
        Some(text) if trim(text).len() > 0 => text,
        _ => title,
    }
}

pub fn lyric_title(
    title: &String,
    lyrics: Option<&ParsedLyrics>,
    position: Duration,
    offset_ms: i32,
) -> (shown: String)
    requires
        lyrics matches Some(lyrics) ==> lyrics.wf(),
    ensures
        match lyrics {
            None => shown@ == title@,
            Some(lyrics) => exists|index: Option<int>|
                #[trigger] sung_line(lyrics@, offset_position(position@, offset_ms), index)
                    && shown@ == shown_title(
                    title@,
                    match index {
                        Some(i) => Some(lyrics@[i].text),
                        None => None,
                    },
                ),
        },
{
    match lyrics {
        None => title.clone(),
        Some(lyrics) => {
            let at = lyric_position(position, offset_ms);
            match lyrics.active_index(at) {
                Some(i) => {
                    assert(sung_line(lyrics@, at@, Some(i as int)));
                    assert(lyrics@[i as int] == lyrics.lines@[i as int]@);
                    let text = &lyrics.lines[i].text;
                    let chars = to_chars(text.as_str());
                    if trimmed(chars.as_slice()).len() > 0 {
                        text.clone()
                    } else {
                        title.clone()
                    }
                },
                None => {
                    assert(sung_line(lyrics@, at@, None));
                    title.clone()
                },
            }
        },
    }
}

/// What is played, as a loudspeaker is told.
#[derive(Debug, PartialEq, Eq)]
pub struct Snapshot {
    pub track_id: String,
    pub title: String,
    pub artist: String,
    pub length_micros: i64,
    pub position_micros: i64,
    pub playing: bool,
    pub stopped: bool,
}

/// What a `Snapshot` says.
pub struct Shown {
    pub track_id: Seq<char>,
    pub title: Seq<char>,
    pub artist: Seq<char>,
    pub length_micros: i64,
    pub position_micros: i64,
    pub playing: bool,
    pub stopped: bool,
}

impl View for Snapshot {
    type V = Shown;

    open spec fn view(&self) -> Shown {
        Shown {
            track_id: self.track_id@,
            title: self.title@,
            artist: self.artist@,
            length_micros: self.length_micros,
            position_micros: self.position_micros,
            playing: self.playing,
            stopped: self.stopped,
        }
    }
}

impl Default for Snapshot {
    fn default() -> (snapshot: Self)
        ensures
            snapshot@ == (Shown {
                track_id: Seq::empty(),
                title: Seq::empty(),
                artist: Seq::empty(),
                length_micros: 0,
                position_micros: 0,
                playing: false,
                stopped: false,
            }),
    {
        let snapshot = Snapshot {
            track_id: String::new(),
            title: String::new(),
            artist: String::new(),
            length_micros: 0,
            position_micros: 0,
            playing: false,
            stopped: false,
        };
        assert(snapshot.track_id@ =~= Seq::empty());
        assert(snapshot.title@ =~= Seq::empty());
        assert(snapshot.artist@ =~= Seq::empty());
        snapshot
    }
}

impl Clone for Snapshot {
    fn clone(&self) -> (copy: Self)
        ensures
            copy@ == self@,
    {
        Snapshot {
            track_id: self.track_id.clone(),
            title: self.title.clone(),
            artist: self.artist.clone(),
            length_micros: self.length_micros,
            position_micros: self.position_micros,
            playing: self.playing,
            stopped: self.stopped,
        }
    }
}

/// Two lower-case digits in base sixteen for each byte.
pub open spec fn hex_bytes(bytes: Seq<u8>) -> Seq<char>
    decreases bytes.len(),
{
    if bytes.len() == 0 {
        Seq::empty()
    } else {
        hex_bytes(bytes.drop_last()) + zero_padded(numeral(bytes.last() as nat, 16), 2)
    }
}

/// The object path of a track: made of its id's bytes, so that every id has one.
pub open spec fn track_path(track_id: Seq<char>) -> Seq<char> {
    if track_id.len() == 0 {
        "/org/mpris/MediaPlayer2/TrackList/NoTrack"@
    } else {
        "/dev/lyrune/BluetoothLyrics/track_"@ + hex_bytes(encode_utf8(track_id))
    }
}

proof fn hex_of_byte(byte: u8)
    ensures
        zero_padded(numeral(byte as nat, 16), 2) == seq![
            digit_char(byte as nat / 16),
            digit_char(byte as nat % 16),
        ],
{
    let n = byte as nat;
    let plain = numeral(n, 16);
    if n >= 16 {
        assert(n / 16 < 16);
        assert(numeral(n / 16, 16) =~= seq![digit_char(n / 16)]);
        assert(plain =~= seq![digit_char(n / 16), digit_char(n % 16)]);
    } else {
        assert(plain =~= seq![digit_char(n)]);
    }
    assert(zero_padded(plain, 2) =~= seq![digit_char(n / 16), digit_char(n % 16)]);
}

proof fn hex_shape(bytes: Seq<u8>)
    ensures
        hex_bytes(bytes).len() == 2 * bytes.len(),
        forall|i: int|
            0 <= i < hex_bytes(bytes).len() ==> ascii_alphanumeric(#[trigger] hex_bytes(bytes)[i]),
    decreases bytes.len(),
{
    if bytes.len() > 0 {
        hex_shape(bytes.drop_last());
        hex_of_byte(bytes.last());
    }
}

proof fn hex_reads_back(a: Seq<u8>, b: Seq<u8>)
    requires
        hex_bytes(a) == hex_bytes(b),
    ensures
        a == b,
    decreases a.len(),
{
    hex_shape(a);
    hex_shape(b);
    if a.len() > 0 {
        let n = a.len() as int;
        let x = hex_bytes(a);
        hex_shape(a.drop_last());
        hex_shape(b.drop_last());
        hex_of_byte(a.last());
        hex_of_byte(b.last());
        digit_char_round_trip(a.last() as nat / 16, 16);
        digit_char_round_trip(a.last() as nat % 16, 16);
        digit_char_round_trip(b.last() as nat / 16, 16);
        digit_char_round_trip(b.last() as nat % 16, 16);
        assert(x[2 * n - 2] == digit_char(a.last() as nat / 16));
        assert(x[2 * n - 1] == digit_char(a.last() as nat % 16));
        assert(x[2 * n - 2] == digit_char(b.last() as nat / 16));
        assert(x[2 * n - 1] == digit_char(b.last() as nat % 16));
        assert(a.last() == b.last());
        assert(hex_bytes(a.drop_last()) =~= x.take(2 * n - 2));
        assert(hex_bytes(b.drop_last()) =~= x.take(2 * n - 2));
        hex_reads_back(a.drop_last(), b.drop_last());
        assert(a =~= a.drop_last().push(a.last()));
        assert(b =~= b.drop_last().push(b.last()));
    } else {
        assert(a =~= b);
    }
}

/// Every track has an object path of its own, made of a fixed front and ASCII letters
/// and digits only, and none has the path that stands for no track.
pub proof fn track_paths_tell_tracks_apart(a: Seq<char>, b: Seq<char>)
    ensures
        track_path(a) == track_path(b) ==> a == b,
        a.len() > 0 ==> forall|i: int|
            "/dev/lyrune/BluetoothLyrics/track_"@.len() <= i < track_path(a).len()
                ==> ascii_alphanumeric(#[trigger] track_path(a)[i]),
{
    let front = "/dev/lyrune/BluetoothLyrics/track_"@;
    reveal_strlit("/dev/lyrune/BluetoothLyrics/track_");
    reveal_strlit("/org/mpris/MediaPlayer2/TrackList/NoTrack");
    let x = hex_bytes(encode_utf8(a));
    let y = hex_bytes(encode_utf8(b));
    hex_shape(encode_utf8(a));
    assert(front[1] == 'd');
    assert("/org/mpris/MediaPlayer2/TrackList/NoTrack"@[1] == 'o');
    if a.len() > 0 {
        assert(track_path(a)[1] == 'd');
        assert forall|i: int| front.len() <= i < track_path(a).len() implies ascii_alphanumeric(
            #[trigger] track_path(a)[i],
        ) by {
            assert(track_path(a)[i] == x[i - front.len()]);
        }
    }
    if b.len() > 0 {
        assert(track_path(b)[1] == 'd');
    }
    if track_path(a) == track_path(b) {
        if a.len() > 0 && b.len() > 0 {
            assert(x =~= track_path(a).skip(front.len() as int));
            assert(y =~= track_path(b).skip(front.len() as int));
            hex_reads_back(encode_utf8(a), encode_utf8(b));
            vstd::utf8::encode_utf8_decode_utf8(a);
            vstd::utf8::encode_utf8_decode_utf8(b);
        } else {
            assert(a =~= b);
        }
    }
}

fn format_track_path(track_id: &String) -> (path: String)
    ensures
        path@ == track_path(track_id@),
{
    let mut path = String::new();
    assert(path@ =~= Seq::empty());
    if track_id.as_str().is_empty() {
        push_text(&mut path, "/org/mpris/MediaPlayer2/TrackList/NoTrack");
        assert(path@ =~= track_path(track_id@));
        return path;
    }
    push_text(&mut path, "/dev/lyrune/BluetoothLyrics/track_");
    let ghost start = "/dev/lyrune/BluetoothLyrics/track_"@;
    assert(path@ =~= start);
    let bytes = track_id.as_str().as_bytes();
    let mut i: usize = 0;
    assert(bytes@.take(0) =~= Seq::empty());
    assert(start + hex_bytes(bytes@.take(0)) =~= start);
    while i < bytes.len()
        invariant
            i <= bytes@.len(),
            path@ == start + hex_bytes(bytes@.take(i as int)),
        decreases bytes.len() - i,
    {
        let digits = format_unsigned(bytes[i] as u128, 16, 2);
        let ghost before = hex_bytes(bytes@.take(i as int));
        push_chars(&mut path, digits.as_slice());
        proof {
            assert(bytes@.take(i + 1).drop_last() =~= bytes@.take(i as int));
            assert(bytes@.take(i + 1).last() == bytes@[i as int]);
            assert((start + before) + digits@ =~= start + (before + digits@));
        }
        i += 1;
    }
    assert(bytes@.take(bytes@.len() as int) =~= bytes@);
    path
}

/// What a loudspeaker learns of a track.
#[derive(Debug, PartialEq, Eq)]
pub struct Metadata {
    pub track_path: String,
    pub title: String,
    pub artist: String,
    pub album: String,
    pub length_micros: i64,
}

pub open spec fn not_negative(value: i64) -> i64 {
    if value < 0 {
        0
    } else {
        value
    }
}

impl Shown {
    pub open spec fn status_text(self) -> Seq<char> {
        if self.playing {
            "Playing"@
        } else if self.stopped {
            "Stopped"@
        } else {
            "Paused"@
        }
    }

    /// The parts on which the description of the track depends.
    pub open spec fn described(self) -> (Seq<char>, Seq<char>, Seq<char>, i64) {
        (self.track_id, self.title, self.artist, self.length_micros)
    }
}

impl Metadata {
    pub open spec fn describes(self, shown: Shown) -> bool {
        &&& self.track_path@ == track_path(shown.track_id)
        &&& self.title@ == one_line(shown.title)
        &&& self.artist@ == one_line(shown.artist)
        &&& self.album@ == "Lyrune 蓝牙歌词"@
        &&& self.length_micros == not_negative(shown.length_micros)
    }
}

/// The properties of the player as they are sent: those that are left out are `None`.
#[derive(Debug, PartialEq, Eq)]
pub struct Properties {
    pub identity: Option<String>,
    pub metadata: Option<Metadata>,
    pub playback_status: Option<String>,
    pub position: Option<i64>,
    /// Whether the player can play, pause, go on, go back and be controlled.
    pub can_control: Option<bool>,
}

impl Snapshot {
    pub fn status(&self) -> (status: &'static str)
        ensures
            status@ == self@.status_text(),
    {
        if self.playing {
            "Playing"
        } else if self.stopped {
            "Stopped"
        } else {
            "Paused"
        }
    }

    pub fn metadata(&self) -> (metadata: Metadata)
        ensures
            metadata.describes(self@),
    {
        Metadata {
            track_path: format_track_path(&self.track_id),
            title: normalize_text(self.title.as_str()),
            artist: normalize_text(self.artist.as_str()),
            album: "Lyrune 蓝牙歌词".to_owned(),
            length_micros: if self.length_micros < 0 {
                0
            } else {
                self.length_micros
            },
        }
    }

    /// All properties, as the player is registered with them.
    pub fn properties(&self) -> (properties: Properties)
        ensures
            text_of(properties.identity) == Some("Lyrune · PixelBar Lyrics"@),
            properties.metadata is Some,
            properties.metadata.unwrap().describes(self@),
            text_of(properties.playback_status) == Some(self@.status_text()),
            properties.position == Some(not_negative(self.position_micros)),
            properties.can_control == Some(self@.track_id.len() > 0),
    {
        Properties {
            identity: Some("Lyrune · PixelBar Lyrics".to_owned()),
            metadata: Some(self.metadata()),
            playback_status: Some(self.status().to_owned()),
            position: Some(
                if self.position_micros < 0 {
                    0
                } else {
                    self.position_micros
                },
            ),
            can_control: Some(!self.track_id.as_str().is_empty()),
        }
    }

    pub fn same_metadata(&self, other: &Self) -> (result: bool)
        ensures
            result == (self@.described() == other@.described()),
    {
        self.track_id.eq(&other.track_id) && self.title.eq(&other.title) && self.artist.eq(
            &other.artist,
        ) && self.length_micros == other.length_micros
    }

    fn same(&self, other: &Self) -> (result: bool)
        ensures
            result == (self@ == other@),
    {
        self.same_metadata(other) && self.position_micros == other.position_micros && self.playing
            == other.playing && self.stopped == other.stopped
    }
}

/// Equal descriptions describe equal tracks: progress alone sends no new one.
pub proof fn progress_keeps_metadata(a: Shown, b: Shown, metadata: Metadata)
    requires
        a.described() == b.described(),
    ensures
        metadata.describes(a) <==> metadata.describes(b),
{
}

/// What the worker is asked for.
#[derive(Debug)]
pub struct Request {
    pub enabled: bool,
    pub snapshot: Snapshot,
    /// Counts the requests for the test text.
    pub test_serial: u64,
}

#[derive(Debug)]
pub enum Event {
    Status(String),
    Command(MprisCommand),
}

/// The side of the player that asks for lyrics to be shown.
#[derive(Debug)]
pub struct BluetoothLyrics {
    pub request: Request,
}

impl BluetoothLyrics {
    /// Starts switched off, with nothing to show.
    pub fn start() -> (lyrics: Self)
        ensures
            !lyrics.request.enabled,
            lyrics.request.test_serial == 0,
            lyrics.request.snapshot@ == (Shown {
                track_id: Seq::empty(),
                title: Seq::empty(),
                artist: Seq::empty(),
                length_micros: 0,
                position_micros: 0,
                playing: false,
                stopped: false,
            }),
    {
        BluetoothLyrics {
            request: Request { enabled: false, snapshot: Snapshot::default(), test_serial: 0 },
        }
    }

    /// Asks for `snapshot` to be shown, and says whether that is news.
    pub fn update(&mut self, enabled: bool, snapshot: Snapshot) -> (changed: bool)
        ensures
            final(self).request.enabled == enabled,
            final(self).request.snapshot@ == snapshot@,
            final(self).request.test_serial == old(self).request.test_serial,
            changed == (old(self).request.enabled != enabled || old(self).request.snapshot@
                != snapshot@),
    {
        if self.request.enabled == enabled && self.request.snapshot.same(&snapshot) {
            return false;
        }
        self.request.enabled = enabled;
        self.request.snapshot = snapshot;
        true
    }

    /// Asks for the test text.
    pub fn test(&mut self)
        ensures
            final(self).request.enabled == old(self).request.enabled,
            final(self).request.snapshot == old(self).request.snapshot,
            final(self).request.test_serial == (if old(self).request.test_serial == u64::MAX {
                0
            } else {
                (old(self).request.test_serial + 1) as u64
            }),
    {
        self.request.test_serial = self.request.test_serial.wrapping_add(1);
    }
}

/// A device that the Bluetooth service knows, as far as it says.
#[derive(Debug)]
pub struct BluezDevice {
    pub connected: Option<bool>,
    pub name: Option<String>,
    pub alias: Option<String>,
    pub adapter: Option<String>,
}

/// An object of the Bluetooth service.
#[derive(Debug)]
pub struct BluezObject {
    pub path: String,
    pub device: Option<BluezDevice>,
    /// The object takes media players.
    pub media: bool,
}

/// What `str::to_lowercase` makes of a text.
pub uninterp spec fn lowercase(text: Seq<char>) -> Seq<char>;

/// `str::to_lowercase`: the text with its letters in lower case, by Unicode's rules.
#[verifier::external_body]
fn to_lowercase(text: &str) -> (result: String)
    ensures
        result@ == lowercase(text@),
{
    text.to_lowercase()
}

pub open spec fn joint(c: char) -> bool {
    c == ' ' || c == '-' || c == '_'
}

/// `part` stands somewhere in `s`.
pub open spec fn holds_part(s: Seq<char>, part: Seq<char>) -> bool {
    exists|i: int|
        0 <= i && i + part.len() <= s.len() && #[trigger] s.subrange(i, i + part.len()) == part
}

/// A name in lower case that, without spaces, hyphens and underscores, holds the name
/// of the loudspeaker.
pub open spec fn pixelbar_name(lower: Seq<char>) -> bool {
    holds_part(lower.filter(|c: char| !joint(c)), "pixelbar"@)
}

/// Whether a name in lower case is that of the loudspeaker.
pub fn is_pixelbar_name(lower: &str) -> (result: bool)
    ensures
        result == pixelbar_name(lower@),
{
    let chars = to_chars(lower);
    let mut kept: Vec<char> = Vec::new();
    let mut i: usize = 0;
    proof {
        reveal(Seq::filter);
        assert(chars@.take(0) =~= Seq::empty());
        assert(kept@ =~= Seq::empty());
    }
    while i < chars.len()
        invariant
            i <= chars@.len(),
            kept@ == chars@.take(i as int).filter(|c: char| !joint(c)),
        decreases chars.len() - i,
    {
        proof {
            reveal(Seq::filter);
            assert(chars@.take(i + 1).drop_last() =~= chars@.take(i as int));
            assert(chars@.take(i + 1).last() == chars@[i as int]);
        }
        let c = chars[i];
        if !(c == ' ' || c == '-' || c == '_') {
            kept.push(c);
        }
        i += 1;
    }
    assert(chars@.take(chars@.len() as int) =~= chars@);
    let part = to_chars("pixelbar");
    let width: usize = part.len();
    proof {
        reveal_strlit("pixelbar");
    }
    let length: usize = kept.len();
    let mut at: usize = 0;
    while at < length && width <= length - at
        invariant
            at <= length,
            length == kept@.len(),
            width == part@.len(),
            width > 0,
            part@ == "pixelbar"@,
            kept@ == lower@.filter(|c: char| !joint(c)),
            forall|j: int|
                0 <= j < at && j + width <= length ==> #[trigger] kept@.subrange(j, j + width)
                    != part@,
        decreases length - at,
    {
        if same_chars(
            vstd::slice::slice_subrange(kept.as_slice(), at, at + width),
            part.as_slice(),
        ) {
            assert(kept@.subrange(at as int, at + width) == part@);
            assert(holds_part(kept@, part@));
            return true;
        }
        at += 1;
    }
    assert(!holds_part(kept@, part@));
    false
}

pub open spec fn named_pixelbar(name: Option<Seq<char>>) -> bool {
    match name {
        Some(name) => pixelbar_name(lowercase(name)),
        None => false,
    }
}

fn has_pixelbar_name(name: &Option<String>) -> (result: bool)
    ensures
        result == named_pixelbar(text_of(*name)),
{
    match name {
        Some(name) => {
            let lower = to_lowercase(name.as_str());
            is_pixelbar_name(lower.as_str())
        },
        None => false,
    }
}

impl BluezDevice {
    /// A connected loudspeaker, by its name or its alias.
    pub open spec fn wanted(self) -> bool {
        self.connected == Some(true) && (named_pixelbar(text_of(self.name)) || named_pixelbar(
            text_of(self.alias),
        ))
    }

    fn is_wanted(&self) -> (result: bool)
        ensures
            result == self.wanted(),
    {
        let connected: bool = match self.connected {
            Some(connected) => connected,
            None => false,
        };
        connected && (has_pixelbar_name(&self.name) || has_pixelbar_name(&self.alias))
    }
}

/// Some object has this path and takes media players.
pub open spec fn takes_media(objects: Seq<BluezObject>, path: Seq<char>) -> bool {
    exists|i: int|
        0 <= i < objects.len() && (#[trigger] objects[i]).path@ == path && objects[i].media
}

/// The adapter of the object at `i`, where that is a wanted device whose adapter
/// takes media players.
pub open spec fn wanted_adapter(objects: Seq<BluezObject>, i: int) -> Option<Seq<char>> {
    match objects[i].device {
        Some(device) if device.wanted() && device.adapter is Some && takes_media(
            objects,
            device.adapter.unwrap()@,
        ) => Some(device.adapter.unwrap()@),
        _ => None,
    }
}

/// The adapter is that of a wanted device.
pub open spec fn is_wanted_adapter(objects: Seq<BluezObject>, adapter: Seq<char>) -> bool {
    exists|i: int|
        0 <= i < objects.len() && #[trigger] wanted_adapter(objects, i) == Some(adapter)
}

/// `a` comes before `b` in the order of their characters.
pub open spec fn text_before(a: Seq<char>, b: Seq<char>) -> bool
    decreases a.len(),
{
    if b.len() == 0 {
        false
    } else if a.len() == 0 {
        true
    } else if a[0] != b[0] {
        (a[0] as u32) < (b[0] as u32)
    } else {
        text_before(a.drop_first(), b.drop_first())
    }
}

/// The texts ascend, so none occurs twice.
pub open spec fn ascending(list: Seq<Seq<char>>) -> bool {
    forall|i: int, j: int|
        0 <= i < j < list.len() ==> text_before(#[trigger] list[i], #[trigger] list[j])
}

proof fn text_before_transitive(a: Seq<char>, b: Seq<char>, c: Seq<char>)
    requires
        text_before(a, b),
        text_before(b, c),
    ensures
        text_before(a, c),
    decreases a.len(),
{
    if a.len() > 0 && a[0] == b[0] && b[0] == c[0] {
        text_before_transitive(a.drop_first(), b.drop_first(), c.drop_first());
    }
}

proof fn text_before_total(a: Seq<char>, b: Seq<char>)
    ensures
        text_before(a, b) || text_before(b, a) || a == b,
        !(text_before(a, b) && text_before(b, a)),
        !text_before(a, a),
    decreases a.len(),
{
    if a.len() == 0 {
        if b.len() == 0 {
            assert(a =~= b);
        }
    } else {
        text_before_total(a.drop_first(), a.drop_first());
        if b.len() > 0 {
            text_before_total(a.drop_first(), b.drop_first());
            if a[0] == b[0] && a.drop_first() == b.drop_first() {
                assert(a =~= seq![a[0]] + a.drop_first());
                assert(b =~= seq![b[0]] + b.drop_first());
            }
            vstd::utf8::char_u32_cast(a[0], a[0] as u32);
            vstd::utf8::char_u32_cast(b[0], b[0] as u32);
        }
    }
}

fn is_text_before(a: &String, b: &String) -> (result: bool)
    ensures
        result == text_before(a@, b@),
{
    let first = to_chars(a.as_str());
    let second = to_chars(b.as_str());
    let mut i: usize = 0;
    assert(first@.skip(0) =~= first@);
    assert(second@.skip(0) =~= second@);
    while i < first.len() && i < second.len()
        invariant
            i <= first@.len(),
            i <= second@.len(),
            first@ == a@,
            second@ == b@,
            text_before(a@, b@) == text_before(first@.skip(i as int), second@.skip(i as int)),
        decreases first.len() - i,
    {
        assert(first@.skip(i as int).drop_first() =~= first@.skip(i + 1));
        assert(second@.skip(i as int).drop_first() =~= second@.skip(i + 1));
        if first[i] != second[i] {
            return (first[i] as u32) < (second[i] as u32);
        }
        i += 1;
    }
    i < second.len()
}

/// Puts a text where it belongs in an ascending list that lacks it.
fn insert_ascending(list: &mut Vec<String>, text: String)
    requires
        ascending(texts(old(list)@)),
    ensures
        ascending(texts(final(list)@)),
        forall|other: Seq<char>| #[trigger]
            texts(final(list)@).contains(other) <==> texts(old(list)@).contains(other) || other
                == text@,
{
    let ghost before = texts(list@);
    let mut at: usize = 0;
    while at < list.len() && is_text_before(&list[at], &text)
        invariant
            at <= list@.len(),
            before == texts(list@),
            forall|j: int| 0 <= j < at ==> text_before(#[trigger] before[j], text@),
        decreases list.len() - at,
    {
        assert(before[at as int] == list@[at as int]@);
        at += 1;
    }
    if at < list.len() && list[at].eq(&text) {
        assert(before[at as int] == text@);
        return;
    }
    proof {
        assert forall|j: int| at <= j < before.len() implies text_before(
            text@,
            #[trigger] before[j],
        ) by {
            assert(before[at as int] == list@[at as int]@);
            text_before_total(before[at as int], text@);
            if j > at {
                text_before_transitive(text@, before[at as int], before[j]);
            }
        }
    }
    list.insert(at, text);
    proof {
        let after = texts(list@);
        assert(after =~= before.insert(at as int, text@));
        assert forall|i: int, j: int| 0 <= i < j < after.len() implies text_before(
            #[trigger] after[i],
            #[trigger] after[j],
        ) by {
            let a = if i < at {
                i
            } else {
                i - 1
            };
            let b = if j < at {
                j
            } else {
                j - 1
            };
            if i == at {
                assert(after[j] == before[b]);
            } else if j == at {
                assert(after[i] == before[a]);
            } else {
                assert(after[i] == before[a] && after[j] == before[b]);
            }
        }
        assert forall|other: Seq<char>| #[trigger] after.contains(other) <==> before.contains(other)
            || other == text@ by {
            if after.contains(other) {
                let i = choose|i: int| 0 <= i < after.len() && after[i] == other;
                if i < at {
                    assert(before[i] == other);
                } else if i > at {
                    assert(before[i - 1] == other);
                }
            }
            if before.contains(other) {
                let i = choose|i: int| 0 <= i < before.len() && before[i] == other;
                if i < at {
                    assert(after[i] == other);
                } else {
                    assert(after[i + 1] == other);
                }
            }
            if other == text@ {
                assert(after[at as int] == other);
            }
        }
    }
}

fn object_takes_media(objects: &Vec<BluezObject>, path: &String) -> (result: bool)
    ensures
        result == takes_media(objects@, path@),
{
    let mut i: usize = 0;
    while i < objects.len()
        invariant
            i <= objects@.len(),
            forall|j: int|
                0 <= j < i ==> !((#[trigger] objects@[j]).path@ == path@ && objects@[j].media),
        decreases objects.len() - i,
    {
        if objects[i].path.eq(path) && objects[i].media {
            assert(objects@[i as int].path@ == path@ && objects@[i as int].media);
            return true;
        }
        i += 1;
    }
    false
}

/// The adapters to register the player on: those of connected loudspeakers, in
/// ascending order.
pub fn pixelbar_adapters(objects: &Vec<BluezObject>) -> (adapters: Vec<String>)
    ensures
        ascending(texts(adapters@)),
        forall|adapter: Seq<char>| #[trigger]
            texts(adapters@).contains(adapter) <==> is_wanted_adapter(objects@, adapter),
{
    let mut adapters: Vec<String> = Vec::new();
    let mut i: usize = 0;
    assert(texts(adapters@) =~= Seq::empty());
    while i < objects.len()
        invariant
            i <= objects@.len(),
            ascending(texts(adapters@)),
            forall|adapter: Seq<char>| #[trigger]
                texts(adapters@).contains(adapter) <==> exists|j: int|
                    0 <= j < i && #[trigger] wanted_adapter(objects@, j) == Some(adapter),
        decreases objects.len() - i,
    {
        let ghost before = texts(adapters@);
        let ghost found = wanted_adapter(objects@, i as int);
        if let Some(device) = &objects[i].device {
            if device.is_wanted() {
                if let Some(adapter) = &device.adapter {
                    if object_takes_media(objects, adapter) {
                        insert_ascending(&mut adapters, adapter.clone());
                        assert(found == Some(adapter@));
                    }
                }
            }
        }
        proof {
            let now = texts(adapters@);
            assert forall|adapter: Seq<char>| #[trigger] now.contains(adapter) <==> exists|j: int|
                0 <= j < i + 1 && #[trigger] wanted_adapter(objects@, j) == Some(adapter) by {
                if before.contains(adapter) {
                    let j = choose|j: int|
                        0 <= j < i && #[trigger] wanted_adapter(objects@, j) == Some(adapter);
                    assert(wanted_adapter(objects@, j) == Some(adapter));
                }
                if found == Some(adapter) {
                    assert(wanted_adapter(objects@, i as int) == Some(adapter));
                }
            }
        }
        i += 1;
    }
    assert forall|adapter: Seq<char>| #[trigger] texts(adapters@).contains(
        adapter,
    ) <==> is_wanted_adapter(objects@, adapter) by {
        if is_wanted_adapter(objects@, adapter) {
            let j = choose|j: int|
                0 <= j < objects@.len() && #[trigger] wanted_adapter(objects@, j) == Some(adapter);
            assert(wanted_adapter(objects@, j) == Some(adapter));
        }
    }
    adapters
}

/// The text holds no whitespace, and something.
pub open spec fn is_word(s: Seq<char>) -> bool {
    s.len() > 0 && forall|i: int| 0 <= i < s.len() ==> !whitespace(#[trigger] s[i])
}

proof fn a_word_is_under_way(s: Seq<char>)
    requires
        s.len() > 0,
        !whitespace(s.last()),
    ensures
        words(s).len() > 0,
    decreases s.len(),
{
    if s.len() > 1 && !whitespace(s[s.len() - 2]) {
        assert(s.drop_last().last() == s[s.len() - 2]);
        a_word_is_under_way(s.drop_last());
    }
}

proof fn a_word_is_one_word(s: Seq<char>)
    requires
        is_word(s),
    ensures
        words(s) == seq![s],
    decreases s.len(),
{
    let rest = s.drop_last();
    assert(!whitespace(s[s.len() - 1]));
    if rest.len() > 0 {
        assert forall|i: int| 0 <= i < rest.len() implies !whitespace(#[trigger] rest[i]) by {
            assert(rest[i] == s[i]);
        }
        a_word_is_one_word(rest);
        assert(!whitespace(s[s.len() - 2]));
        assert(rest.push(s.last()) =~= s);
        assert(seq![rest].drop_last().push(s) =~= seq![s]);
    } else {
        assert(s =~= seq![s.last()]);
        assert(words(rest) =~= Seq::empty());
        assert(words(s) =~= seq![s]);
    }
}

proof fn whitespace_parts_words(a: Seq<char>, space: char, b: Seq<char>)
    requires
        whitespace(space),
    ensures
        words(a.push(space) + b) == words(a) + words(b),
    decreases b.len(),
{
    let s = a.push(space) + b;
    if b.len() == 0 {
        assert(s =~= a.push(space));
        assert(s.drop_last() =~= a);
        assert(words(b) =~= Seq::empty());
        assert(words(s) =~= words(a) + words(b));
    } else {
        let rest = b.drop_last();
        let c = b.last();
        whitespace_parts_words(a, space, rest);
        assert(s.drop_last() =~= a.push(space) + rest);
        assert(s.last() == c);
        if !whitespace(c) {
            if b.len() == 1 {
                assert(s[s.len() - 2] == space);
                assert(words(s) =~= words(a) + words(b));
            } else {
                assert(s[s.len() - 2] == b[b.len() - 2]);
                if whitespace(b[b.len() - 2]) {
                    assert(words(s) =~= words(a) + words(b));
                } else {
                    assert(rest.last() == b[b.len() - 2]);
                    a_word_is_under_way(rest);
                    assert(words(s) =~= words(a) + words(b));
                }
            }
        }
    }
}

/// Whitespace parts words, however much of it there is, and nothing else does: on each side
/// of it stand the words of that side, and a text without it is one word.
pub proof fn words_are_what_whitespace_parts(a: Seq<char>, space: char, b: Seq<char>, word: Seq<char>)
    requires
        whitespace(space),
        is_word(word),
    ensures
        words(a.push(space) + b) == words(a) + words(b),
        words(word) == seq![word],
        words(Seq::empty()) == Seq::<Seq<char>>::empty(),
{
    whitespace_parts_words(a, space, b);
    a_word_is_one_word(word);
}

/// Words are written with one space between each two.
pub proof fn words_are_written_with_single_spaces(list: Seq<Seq<char>>, word: Seq<char>)
    ensures
        spaced(Seq::empty()) == Seq::<char>::empty(),
        spaced(seq![word]) == word,
        list.len() > 0 ==> spaced(list.push(word)) == spaced(list) + seq![' '] + word,
{
    if list.len() > 0 {
        assert(list.push(word).drop_last() =~= list);
        assert(spaced(list).push(' ') + word =~= spaced(list) + seq![' '] + word);
    }
}

proof fn spaced_words_are_the_words(list: Seq<Seq<char>>)
    requires
        forall|i: int| 0 <= i < list.len() ==> is_word(#[trigger] list[i]),
    ensures
        words(spaced(list)) == list,
        list.len() > 0 ==> spaced(list).len() > 0,
    decreases list.len(),
{
    if list.len() == 0 {
        assert(words(spaced(list)) =~= list);
    } else if list.len() == 1 {
        assert(is_word(list[0]));
        a_word_is_one_word(list[0]);
        assert(seq![list[0]] =~= list);
    } else {
        let rest = list.drop_last();
        assert forall|i: int| 0 <= i < rest.len() implies is_word(#[trigger] rest[i]) by {
            assert(rest[i] == list[i]);
        }
        assert(is_word(list[list.len() - 1]));
        spaced_words_are_the_words(rest);
        whitespace_parts_words(spaced(rest), ' ', list.last());
        a_word_is_one_word(list.last());
        assert(rest + seq![list.last()] =~= list);
    }
}

proof fn filter_keeps_all(s: Seq<char>)
    requires
        forall|i: int| 0 <= i < s.len() ==> !control(#[trigger] s[i]),
    ensures
        s.filter(|c: char| !control(c)) == s,
    decreases s.len(),
{
    reveal(Seq::filter);
    if s.len() > 0 {
        let rest = s.drop_last();
        assert forall|i: int| 0 <= i < rest.len() implies !control(#[trigger] rest[i]) by {
            assert(rest[i] == s[i]);
        }
        filter_keeps_all(rest);
        assert(!control(s[s.len() - 1]));
        assert(rest.push(s.last()) =~= s);
    } else {
        assert(s.filter(|c: char| !control(c)) =~= s);
    }
}

/// Of a text of words with single spaces between them all but the control characters is
/// sent, up to 120 characters.
pub proof fn words_are_sent_without_control_characters(list: Seq<Seq<char>>)
    requires
        forall|i: int| 0 <= i < list.len() ==> is_word(#[trigger] list[i]),
    ensures
        ({
            let kept = spaced(list).filter(|c: char| !control(c));
            &&& kept.len() <= 120 ==> one_line(spaced(list)) == kept
            &&& kept.len() > 120 ==> one_line(spaced(list)) == kept.take(120)
        }),
{
    spaced_words_are_the_words(list);
}

/// A text of words with single spaces between them and without control characters is sent
/// as it is, up to 120 characters: one that is longer is cut there.
pub proof fn clean_text_is_sent_as_it_is(list: Seq<Seq<char>>)
    requires
        forall|i: int| 0 <= i < list.len() ==> is_word(#[trigger] list[i]),
        forall|i: int| 0 <= i < spaced(list).len() ==> !control(#[trigger] spaced(list)[i]),
    ensures
        spaced(list).len() <= 120 ==> one_line(spaced(list)) == spaced(list),
        spaced(list).len() > 120 ==> one_line(spaced(list)) == spaced(list).take(120),
{
    spaced_words_are_the_words(list);
    filter_keeps_all(spaced(list));
}

/// An offset shifts the lyrics by its milliseconds, up to three seconds either way: a
/// positive one delays them, and the position never falls below the start.
pub proof fn an_offset_shifts_by_milliseconds(position: nat, offset_ms: i32)
    requires
        position + 3_000_000_000 <= 18_446_744_073_709_551_615_999_999_999,
    ensures
        ({
            let shifted = offset_position(position, offset_ms);
            &&& 0 <= offset_ms <= 3_000 && position >= 1_000_000 * offset_ms ==> shifted
                == position - 1_000_000 * offset_ms
            &&& 0 <= offset_ms && position < 1_000_000 * offset_ms && offset_ms <= 3_000 ==> shifted
                == 0
            &&& -3_000 <= offset_ms <= 0 ==> shifted == position - 1_000_000 * offset_ms
            &&& offset_ms >= 3_000 ==> shifted == (if position >= 3_000_000_000 {
                position - 3_000_000_000
            } else {
                0
            })
            &&& offset_ms <= -3_000 ==> shifted == position + 3_000_000_000
        }),
{
}

/// A loudspeaker shows the line that is sung, and the title where that is blank or missing.
pub proof fn the_sung_line_is_shown(title: Seq<char>, text: Seq<char>)
    ensures
        trim(text).len() > 0 ==> shown_title(title, Some(text)) == text,
        trim(text).len() == 0 ==> shown_title(title, Some(text)) == title,
        shown_title(title, None) == title,
{
}

/// Each byte of an id is written with two digits in base sixteen that read as it, in small
/// letters.
pub proof fn bytes_are_two_digits(bytes: Seq<u8>, byte: u8)
    ensures
        hex_bytes(Seq::empty()).len() == 0,
        ({
            let all = hex_bytes(bytes.push(byte));
            let n = hex_bytes(bytes).len() as int;
            &&& all.len() == n + 2
            &&& all.take(n) == hex_bytes(bytes)
            &&& unsigned(all.skip(n), 16, 255) == Some(byte as nat)
            &&& forall|i: int|
                n <= i < n + 2 ==> '0' <= #[trigger] all[i] <= '9' || 'a' <= all[i] <= 'f'
        }),
{
    let all = hex_bytes(bytes.push(byte));
    let n = hex_bytes(bytes).len() as int;
    let digits = zero_padded(numeral(byte as nat, 16), 2);
    assert(bytes.push(byte).drop_last() =~= bytes);
    padded_number_reads_back(byte as nat, 16, 255, 2);
    numerals_are_small_letters(byte as nat);
    assert(all.take(n) =~= hex_bytes(bytes));
    assert(all.skip(n) =~= digits);
    assert forall|i: int| n <= i < n + 2 implies '0' <= #[trigger] all[i] <= '9' || 'a' <= all[i]
        <= 'f' by {
        assert(all[i] == digits[i - n]);
        let short = numeral(byte as nat, 16);
        if short.len() == 2 {
            assert(digits[i - n] == short[i - n]);
        } else if i == n + 1 {
            assert(digits[1] == short[0]);
        }
    }
}

/// What plays says so; else what was stopped says so, and the rest waits.
pub proof fn a_status_is_one_of_three(shown: Shown)
    ensures
        shown.playing ==> shown.status_text() == "Playing"@,
        !shown.playing && shown.stopped ==> shown.status_text() == "Stopped"@,
        !shown.playing && !shown.stopped ==> shown.status_text() == "Paused"@,
{
}

/// The order of texts is that of the first characters in which they differ, and a text
/// comes before what continues it.
pub proof fn texts_are_ordered(front: Seq<char>, a: char, b: char, rest: Seq<char>, other: Seq<char>)
    requires
        a < b,
    ensures
        text_before(front.push(a) + rest, front.push(b) + other),
        !text_before(front.push(b) + other, front.push(a) + rest),
        text_before(front, front.push(a) + rest),
        !text_before(front.push(a) + rest, front),
        !text_before(front, front),
    decreases front.len(),
{
    let x = front.push(a) + rest;
    let y = front.push(b) + other;
    if front.len() > 0 {
        let tail = front.drop_first();
        texts_are_ordered(tail, a, b, rest, other);
        assert(x.drop_first() =~= tail.push(a) + rest);
        assert(y.drop_first() =~= tail.push(b) + other);
        assert(x[0] == front[0] && y[0] == front[0]);
    } else {
        assert(x[0] == a && y[0] == b);
    }
}

proof fn joint_is_dropped(a: Seq<char>, joint_char: char, b: Seq<char>)
    requires
        joint(joint_char),
    ensures
        (a + seq![joint_char] + b).filter(|c: char| !joint(c)) == (a + b).filter(
            |c: char| !joint(c),
        ),
    decreases b.len(),
{
    reveal(Seq::filter);
    let with = a + seq![joint_char] + b;
    if b.len() == 0 {
        assert(with.drop_last() =~= a + b);
        assert(with.last() == joint_char);
    } else {
        joint_is_dropped(a, joint_char, b.drop_last());
        assert(with.drop_last() =~= a + seq![joint_char] + b.drop_last());
        assert((a + b).drop_last() =~= a + b.drop_last());
        assert(with.last() == b.last() && (a + b).last() == b.last());
    }
}

/// Spaces, hyphens and underscores in a name do not matter.
pub proof fn joints_in_a_name_do_not_matter(a: Seq<char>, joint_char: char, b: Seq<char>)
    requires
        joint_char == ' ' || joint_char == '-' || joint_char == '_',
    ensures
        pixelbar_name(a + seq![joint_char] + b) == pixelbar_name(a + b),
{
    joint_is_dropped(a, joint_char, b);
}

proof fn part_is_held(s: Seq<char>, at: int, part: Seq<char>)
    requires
        0 <= at,
        at + part.len() <= s.len(),
        s.subrange(at, at + part.len()) == part,
    ensures
        holds_part(s, part),
{
}

/// No character is one that joins the words of a name.
pub open spec fn unjoined(s: Seq<char>) -> bool {
    forall|i: int| 0 <= i < s.len() ==> !joint(#[trigger] s[i])
}

proof fn unjoined_parts(a: Seq<char>, b: Seq<char>)
    requires
        unjoined(a),
        unjoined(b),
    ensures
        unjoined(a + b),
{
}

proof fn middle_part(a: Seq<char>, name: Seq<char>, b: Seq<char>)
    ensures
        (a + name + b).subrange(a.len() as int, a.len() as int + name.len()) == name,
{
    assert((a + name + b).subrange(a.len() as int, a.len() as int + name.len()) =~= name);
}

/// What stands around the name of the loudspeaker does not matter.
pub proof fn a_loudspeaker_is_known_by_its_name(a: Seq<char>, b: Seq<char>)
    requires
        unjoined(a),
        unjoined(b),
    ensures
        pixelbar_name(a + "pixelbar"@ + b),
{
    name_has_no_joint();
    unjoined_parts(a, "pixelbar"@);
    unjoined_parts(a + "pixelbar"@, b);
    filter_keeps_all_letters(a + "pixelbar"@ + b);
    middle_part(a, "pixelbar"@, b);
    part_is_held(a + "pixelbar"@ + b, a.len() as int, "pixelbar"@);
}

proof fn name_has_no_joint()
    ensures
        unjoined("pixelbar"@),
{
    reveal_strlit("pixelbar");
}

proof fn filter_keeps_all_letters(s: Seq<char>)
    requires
        unjoined(s),
    ensures
        s.filter(|c: char| !joint(c)) == s,
    decreases s.len(),
{
    reveal(Seq::filter);
    if s.len() > 0 {
        let rest = s.drop_last();
        assert forall|i: int| 0 <= i < rest.len() implies !joint(#[trigger] rest[i]) by {
            assert(rest[i] == s[i]);
        }
        filter_keeps_all_letters(rest);
        assert(!joint(s[s.len() - 1]));
        assert(rest.push(s.last()) =~= s);
    } else {
        assert(s.filter(|c: char| !joint(c)) =~= s);
    }
}

/// Only a connected device with the name of the loudspeaker is wanted, and only its own
/// adapter, where that takes media players.
pub proof fn only_connected_loudspeakers_are_wanted(objects: Seq<BluezObject>, i: int)
    requires
        0 <= i < objects.len(),
    ensures
        wanted_adapter(objects, i) matches Some(adapter) ==> {
            &&& objects[i].device is Some
            &&& objects[i].device.unwrap().connected == Some(true)
            &&& objects[i].device.unwrap().adapter is Some
            &&& objects[i].device.unwrap().adapter.unwrap()@ == adapter
            &&& exists|k: int|
                0 <= k < objects.len() && (#[trigger] objects[k]).path@ == adapter
                    && objects[k].media
        },
        objects[i].device is None ==> wanted_adapter(objects, i) is None,
{
}

/// The line that is sung is the last that has started; for lines in order that is one line
/// at every position, and none exactly before the first.
pub proof fn the_last_line_that_started_is_sung(
    lines: Seq<Line>,
    position: nat,
    index: Option<int>,
)
    requires
        in_order(lines),
        sung_line(lines, position, index),
    ensures
        match index {
            Some(i) => 0 <= i < lines.len() && lines[i].start <= position && forall|j: int|
                i < j < lines.len() ==> (#[trigger] lines[j]).start > position,
            None => forall|j: int|
                0 <= j < lines.len() ==> (#[trigger] lines[j]).start > position,
        },
{
    match index {
        Some(i) => {
            assert forall|j: int| i < j < lines.len() implies (#[trigger] lines[j]).start
                > position by {
                if j > i + 1 {
                    assert(lines[i + 1].start <= lines[j].start);
                }
            }
        },
        None => {
            assert forall|j: int| 0 <= j < lines.len() implies (#[trigger] lines[j]).start
                > position by {
                if j > 0 {
                    assert(lines[0].start <= lines[j].start);
                }
            }
        },
    }
}

/// What is told of a track are its path, its title and artist on one line each, and its
/// length, which is never negative.
pub proof fn a_description_says_what_is_shown(metadata: Metadata, shown: Shown)
    requires
        metadata.describes(shown),
    ensures
        metadata.track_path@ == track_path(shown.track_id),
        metadata.title@ == one_line(shown.title) && metadata.artist@ == one_line(shown.artist),
        shown.length_micros >= 0 ==> metadata.length_micros == shown.length_micros,
        shown.length_micros < 0 ==> metadata.length_micros == 0,
        metadata.title@.len() <= 120 && metadata.artist@.len() <= 120,
{
    sent_text_is_safe(shown.title);
    sent_text_is_safe(shown.artist);
}

/// Two tracks have the same description exactly where all that is told of them is the same.
pub proof fn descriptions_tell_all(a: Shown, b: Shown)
    ensures
        a.described() == b.described() <==> a.track_id == b.track_id && a.title == b.title
            && a.artist == b.artist && a.length_micros == b.length_micros,
{
}

/// An ascending list holds each text once, and each before those that come behind it.
pub proof fn ascending_texts_differ(list: Seq<Seq<char>>, i: int, j: int)
    requires
        ascending(list),
        0 <= i < j < list.len(),
    ensures
        text_before(list[i], list[j]),
        list[i] != list[j],
{
    assert(text_before(list[i], list[j]));
    if list[i] == list[j] {
        texts_are_ordered(list[i], 'a', 'b', Seq::empty(), Seq::empty());
    }
}

} // verus!
