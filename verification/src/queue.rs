//! The tracks that play one after the other.

use crate::catalog::{
    find_track, share, track_place, track_place_is_first, PlaylistKey, Track, UserPlaylistId,
};
use crate::settings::PersistedQueueContinuation;
use std::sync::Arc;
use vstd::prelude::*;

verus! {

#[derive(Debug)]
pub struct PlaybackQueue {
    pub playlist_id: UserPlaylistId,
    pub tracks: Vec<Arc<Track>>,
    /// The tracks are no longer those of the playlist alone.
    pub modified: bool,
    pub continuation: Option<PersistedQueueContinuation>,
}

impl PersistedQueueContinuation {
    pub open spec fn has_next(self) -> bool {
        match self {
            PersistedQueueContinuation::Radar { has_more, .. } => has_more,
            PersistedQueueContinuation::Guess => true,
        }
    }

    pub fn can_load_more(self) -> (result: bool)
        ensures
            result == self.has_next(),
    {
        match self {
            PersistedQueueContinuation::Radar { has_more, .. } => has_more,
            PersistedQueueContinuation::Guess => true,
        }
    }
}

/// An index that a track stands at.
pub open spec fn valid_index(index: Option<usize>, len: int) -> Option<int> {
    match index {
        Some(i) if i < len => Some(i as int),
        _ => None,
    }
}

/// The tracks after `track` was put behind the current one, or behind all where none
/// is current, and where it stands. A track with the same id leaves its old place;
/// where it is the current one nothing changes.
pub open spec fn queued_next(
    tracks: Seq<Arc<Track>>,
    current: Option<usize>,
    track: Arc<Track>,
) -> (Seq<Arc<Track>>, int) {
    let at = valid_index(current, tracks.len() as int);
    match track_place(tracks, track.mid@) {
        Some(existing) => if at == Some(existing) {
            (tracks, existing)
        } else {
            let rest = tracks.remove(existing);
            let index = match at {
                Some(i) => if existing < i {
                    i
                } else {
                    i + 1
                },
                None => rest.len() as int,
            };
            (rest.insert(index, track), index)
        },
        None => {
            let index = match at {
                Some(i) => i + 1,
                None => tracks.len() as int,
            };
            (tracks.insert(index, track), index)
        },
    }
}

pub fn insert_track_after_current(
    tracks: &mut Vec<Arc<Track>>,
    current_index: Option<usize>,
    track: Arc<Track>,
) -> (index: usize)
    requires
        old(tracks)@.len() < usize::MAX,
    ensures
        (final(tracks)@, index as int) == queued_next(old(tracks)@, current_index, track),
        index < final(tracks)@.len(),
{
    let mut current: Option<usize> = match current_index {
        Some(i) => if i < tracks.len() {
            Some(i)
        } else {
            None
        },
        None => None,
    };
    proof {
        track_place_is_first(tracks@, track.mid@);
    }
    if let Some(existing) = find_track(tracks, &track.mid) {
        if let Some(i) = current {
            if i == existing {
                return existing;
            }
            if existing < i {
                current = Some(i - 1);
            }
        }
        let _ = tracks.remove(existing);
    }
    let index: usize = match current {
        Some(i) => i + 1,
        None => tracks.len(),
    };
    tracks.insert(index, track);
    index
}

/// No id occurs twice.
pub open spec fn distinct_tracks(tracks: Seq<Arc<Track>>) -> bool {
    forall|i: int, j: int|
        0 <= i < j < tracks.len() ==> (#[trigger] tracks[i]).mid@ != (#[trigger] tracks[j]).mid@
}

/// Queueing a track next puts it right behind the track that plays, which stays in
/// place before it, and never makes a track occur twice.
pub proof fn queueing_next_keeps_tracks_distinct(
    tracks: Seq<Arc<Track>>,
    current: Option<usize>,
    track: Arc<Track>,
)
    requires
        distinct_tracks(tracks),
    ensures
        ({
            let (after, index) = queued_next(tracks, current, track);
            &&& distinct_tracks(after)
            &&& 0 <= index < after.len()
            &&& after[index].mid@ == track.mid@
            &&& valid_index(current, tracks.len() as int) matches Some(i) ==> {
                if tracks[i].mid@ == track.mid@ {
                    after == tracks && index == i
                } else {
                    index > 0 && after[index - 1] == tracks[i]
                }
            }
        }),
{
    track_place_is_first(tracks, track.mid@);
    let (after, index) = queued_next(tracks, current, track);
    let at = valid_index(current, tracks.len() as int);
    if let Some(i) = at {
        if tracks[i].mid@ == track.mid@ {
            let existing = track_place(tracks, track.mid@).unwrap();
            assert(existing == i);
        }
    }
    match track_place(tracks, track.mid@) {
        Some(existing) => {
            let rest = tracks.remove(existing);
            assert forall|j: int| 0 <= j < rest.len() implies (#[trigger] rest[j]).mid@
                != track.mid@ by {
                if j < existing {
                    assert(rest[j] == tracks[j]);
                } else {
                    assert(rest[j] == tracks[j + 1]);
                    assert(tracks[existing].mid@ != tracks[j + 1].mid@);
                }
            }
            assert forall|j: int, k: int| 0 <= j < k < rest.len() implies (
            #[trigger] rest[j]).mid@ != (#[trigger] rest[k]).mid@ by {
                let a = if j < existing {
                    j
                } else {
                    j + 1
                };
                let b = if k < existing {
                    k
                } else {
                    k + 1
                };
                assert(tracks[a].mid@ != tracks[b].mid@);
            }
            if at != Some(existing) {
                inserted_distinct(rest, index, track);
            }
        },
        None => {
            inserted_distinct(tracks, index, track);
        },
    }
}

proof fn inserted_distinct(tracks: Seq<Arc<Track>>, index: int, track: Arc<Track>)
    requires
        distinct_tracks(tracks),
        0 <= index <= tracks.len(),
        forall|j: int| 0 <= j < tracks.len() ==> (#[trigger] tracks[j]).mid@ != track.mid@,
    ensures
        distinct_tracks(tracks.insert(index, track)),
{
    let after = tracks.insert(index, track);
    assert forall|j: int, k: int| 0 <= j < k < after.len() implies (#[trigger] after[j]).mid@ != (
    #[trigger] after[k]).mid@ by {
        if j == index {
            assert(after[k] == tracks[k - 1]);
        } else if k == index {
            assert(after[j] == tracks[j]);
        } else {
            let a = if j < index {
                j
            } else {
                j - 1
            };
            let b = if k < index {
                k
            } else {
                k - 1
            };
            assert(after[j] == tracks[a] && after[k] == tracks[b]);
        }
    }
}

/// Puts a track from outside the playlist behind the current one.
pub fn insert_external_track_after_current(
    queue: &mut PlaybackQueue,
    current_index: Option<usize>,
    track: Arc<Track>,
) -> (index: usize)
    requires
        old(queue).tracks@.len() < usize::MAX,
    ensures
        (final(queue).tracks@, index as int) == queued_next(
            old(queue).tracks@,
            current_index,
            track,
        ),
        final(queue).modified,
        final(queue).playlist_id == old(queue).playlist_id,
        final(queue).continuation == old(queue).continuation,
{
    let index = insert_track_after_current(&mut queue.tracks, current_index, track);
    queue.modified = true;
    index
}

impl PlaybackQueue {
    /// Where a track of a playlist stands in a queue that is still that playlist.
    pub open spec fn canonical_index(self, playlist: PlaylistKey, mid: Seq<char>) -> Option<int> {
        if !self.modified && self.playlist_id@ == playlist {
            track_place(self.tracks@, mid)
        } else {
            None
        }
    }
}

pub fn canonical_queue_track_index(
    queue: &PlaybackQueue,
    playlist_id: &UserPlaylistId,
    track_mid: &str,
) -> (index: Option<usize>)
    ensures
        match index {
            Some(i) => queue.canonical_index(playlist_id@, track_mid@) == Some(i as int),
            None => queue.canonical_index(playlist_id@, track_mid@) is None,
        },
{
    if !queue.modified && queue.playlist_id.same(playlist_id) {
        find_track(&queue.tracks, &track_mid.to_owned())
    } else {
        None
    }
}

/// How playback goes on behind the last track.
#[derive(Clone, Copy, Debug, PartialEq, Eq, Structural)]
pub enum RepeatMode {
    Off,
    All,
    One,
}

impl RepeatMode {
    pub open spec fn following(self) -> RepeatMode {
        match self {
            RepeatMode::Off => RepeatMode::All,
            RepeatMode::All => RepeatMode::One,
            RepeatMode::One => RepeatMode::Off,
        }
    }

    pub fn next(self) -> (mode: Self)
        ensures
            mode == self.following(),
    {
        match self {
            RepeatMode::Off => RepeatMode::All,
            RepeatMode::All => RepeatMode::One,
            RepeatMode::One => RepeatMode::Off,
        }
    }

    pub open spec fn label_text(self) -> Seq<char> {
        match self {
            RepeatMode::Off => "循环"@,
            RepeatMode::All => "列表循环"@,
            RepeatMode::One => "单曲循环"@,
        }
    }

    pub fn label(self) -> (label: &'static str)
        ensures
            label@ == self.label_text(),
    {
        match self {
            RepeatMode::Off => "循环",
            RepeatMode::All => "列表循环",
            RepeatMode::One => "单曲循环",
        }
    }
}

/// Three presses lead through all modes back to the first.
pub proof fn repeat_modes_cycle(mode: RepeatMode)
    ensures
        mode.following().following().following() == mode,
        mode.following() != mode,
        mode.following().following() != mode,
{
}

/// The tracks with those of `more` behind them that they lack.
pub open spec fn extended(tracks: Seq<Arc<Track>>, more: Seq<Arc<Track>>) -> Seq<Arc<Track>>
    decreases more.len(),
{
    if more.len() == 0 {
        tracks
    } else {
        let before = extended(tracks, more.drop_last());
        if track_place(before, more.last().mid@) is None {
            before.push(more.last())
        } else {
            before
        }
    }
}

/// Extending a queue keeps all its tracks in place, and no track occurs twice.
pub proof fn extending_keeps_tracks(tracks: Seq<Arc<Track>>, more: Seq<Arc<Track>>)
    ensures
        tracks.len() <= extended(tracks, more).len() <= tracks.len() + more.len(),
        extended(tracks, more).take(tracks.len() as int) == tracks,
        distinct_tracks(tracks) ==> distinct_tracks(extended(tracks, more)),
        forall|i: int|
            0 <= i < more.len() ==> track_place(
                extended(tracks, more),
                (#[trigger] more[i]).mid@,
            ) is Some,
    decreases more.len(),
{
    if more.len() == 0 {
        assert(tracks.take(tracks.len() as int) =~= tracks);
    } else {
        let rest = more.drop_last();
        let before = extended(tracks, rest);
        let after = extended(tracks, more);
        let track = more.last();
        extending_keeps_tracks(tracks, rest);
        track_place_is_first(before, track.mid@);
        assert(after.take(tracks.len() as int) =~= before.take(tracks.len() as int));
        if track_place(before, track.mid@) is None && distinct_tracks(tracks) {
            assert(before.insert(before.len() as int, track) =~= before.push(track));
            inserted_distinct(before, before.len() as int, track);
        }
        assert forall|i: int| 0 <= i < more.len() implies track_place(
            after,
            (#[trigger] more[i]).mid@,
        ) is Some by {
            track_place_is_first(after, more[i].mid@);
            if track_place(after, more[i].mid@) is None {
                if i < rest.len() {
                    assert(rest[i] == more[i]);
                    track_place_is_first(before, more[i].mid@);
                    let k = track_place(before, more[i].mid@).unwrap();
                    assert(after[k] == before[k]);
                    assert(after[k].mid@ != more[i].mid@);
                } else if track_place(before, track.mid@) is None {
                    assert(after[after.len() - 1] == track);
                    assert(after[after.len() - 1].mid@ != track.mid@);
                }
            }
        }
    }
}

/// Puts the tracks that a queue lacks behind it, and gives the place of the first.
pub fn extend_queue(tracks: &mut Vec<Arc<Track>>, more: &Vec<Arc<Track>>) -> (first_added: Option<
    usize,
>)
    ensures
        final(tracks)@ == extended(old(tracks)@, more@),
        match first_added {
            Some(i) => i == old(tracks)@.len() && final(tracks)@.len() > old(tracks)@.len(),
            None => final(tracks)@.len() == old(tracks)@.len(),
        },
{
    let ghost before = tracks@;
    let start: usize = tracks.len();
    let mut i: usize = 0;
    assert(more@.take(0) =~= Seq::empty());
    while i < more.len()
        invariant
            i <= more@.len(),
            start == before.len(),
            tracks@.len() >= start,
            tracks@ == extended(before, more@.take(i as int)),
        decreases more.len() - i,
    {
        assert(more@.take(i + 1).drop_last() =~= more@.take(i as int));
        assert(more@.take(i + 1).last() == more@[i as int]);
        if find_track(tracks, &more[i].mid).is_none() {
            tracks.push(share(&more[i]));
        }
        i += 1;
    }
    assert(more@.take(more@.len() as int) =~= more@);
    if tracks.len() > start {
        Some(start)
    } else {
        None
    }
}

/// A queue counts for a playlist only where it is that playlist's and unchanged, and then
/// it holds every track of it at its first place.
pub proof fn only_the_own_playlist_finds_its_tracks(
    queue: PlaybackQueue,
    playlist: PlaylistKey,
    mid: Seq<char>,
)
    ensures
        queue.playlist_id@ != playlist ==> queue.canonical_index(playlist, mid) is None,
        queue.modified ==> queue.canonical_index(playlist, mid) is None,
        !queue.modified && queue.playlist_id@ == playlist ==> match queue.canonical_index(
            playlist,
            mid,
        ) {
            None => forall|i: int|
                0 <= i < queue.tracks@.len() ==> (#[trigger] queue.tracks@[i]).mid@ != mid,
            Some(place) => 0 <= place < queue.tracks@.len() && queue.tracks@[place].mid@ == mid
                && forall|i: int|
                0 <= i < place ==> (#[trigger] queue.tracks@[i]).mid@ != mid,
        },
{
    track_place_is_first(queue.tracks@, mid);
}

/// The tracks with another id, in their order.
pub open spec fn others(tracks: Seq<Arc<Track>>, mid: Seq<char>) -> Seq<Arc<Track>> {
    tracks.filter(with_other_id(mid))
}

pub open spec fn with_other_id(mid: Seq<char>) -> spec_fn(Arc<Track>) -> bool {
    |track: Arc<Track>| track.mid@ != mid
}

proof fn others_without_one(tracks: Seq<Arc<Track>>, mid: Seq<char>, at: int)
    requires
        0 <= at < tracks.len(),
        tracks[at].mid@ == mid,
    ensures
        others(tracks.remove(at), mid) == others(tracks, mid),
{
    let differs = with_other_id(mid);
    let front = tracks.take(at);
    let one = seq![tracks[at]];
    let behind = tracks.skip(at + 1);
    assert(tracks =~= front + one + behind);
    assert(tracks.remove(at) =~= front + behind);
    Seq::filter_distributes_over_add(front + one, behind, differs);
    Seq::filter_distributes_over_add(front, one, differs);
    Seq::filter_distributes_over_add(front, behind, differs);
    assert(one.filter(differs) =~= Seq::empty()) by {
        reveal(Seq::filter);
        reveal_with_fuel(Seq::filter, 2);
        assert(one.drop_last() =~= Seq::empty());
    }
    assert(front.filter(differs) + Seq::empty() =~= front.filter(differs));
}

/// A track that is queued next comes right behind the current one, or last where none is
/// current, and leaves any place it had. All other tracks keep their order; only the
/// current track itself is not moved.
pub proof fn queueing_next_moves_one_track(
    tracks: Seq<Arc<Track>>,
    current: Option<usize>,
    track: Arc<Track>,
)
    ensures
        ({
            let (after, index) = queued_next(tracks, current, track);
            let known = exists|i: int|
                0 <= i < tracks.len() && (#[trigger] tracks[i]).mid@ == track.mid@;
            let plays = current is Some && current.unwrap() < tracks.len();
            let playing = tracks[current.unwrap() as int];
            &&& others(after, track.mid@) == others(tracks, track.mid@)
            &&& after.len() == tracks.len() + if known {
                0int
            } else {
                1int
            }
            &&& 0 <= index < after.len() && after[index].mid@ == track.mid@
            &&& plays && playing.mid@ != track.mid@ ==> index > 0 && after[index - 1] == playing
                && after[index] == track
            &&& !plays ==> index == after.len() - 1 && after[index] == track
            &&& plays && playing.mid@ == track.mid@ && (forall|i: int|
                0 <= i < current.unwrap() ==> (#[trigger] tracks[i]).mid@ != track.mid@)
                ==> after == tracks && index == current.unwrap()
        }),
{
    let mid = track.mid@;
    let (after, index) = queued_next(tracks, current, track);
    track_place_is_first(tracks, mid);
    if let Some(existing) = track_place(tracks, mid) {
        others_without_one(tracks, mid, existing);
        if valid_index(current, tracks.len() as int) != Some(existing) {
            let rest = tracks.remove(existing);
            assert(after.remove(index) =~= rest);
            others_without_one(after, mid, index);
        }
    } else {
        assert(after.remove(index) =~= tracks);
        others_without_one(after, mid, index);
    }
}

/// Further tracks come behind the others one by one, each unless its id is there already.
pub proof fn queues_grow_by_new_tracks(
    tracks: Seq<Arc<Track>>,
    more: Seq<Arc<Track>>,
    track: Arc<Track>,
)
    ensures
        extended(tracks, Seq::empty()) == tracks,
        ({
            let before = extended(tracks, more);
            let known = exists|i: int|
                0 <= i < before.len() && (#[trigger] before[i]).mid@ == track.mid@;
            &&& known ==> extended(tracks, more.push(track)) == before
            &&& !known ==> extended(tracks, more.push(track)) == before.push(track)
        }),
{
    assert(more.push(track).drop_last() =~= more);
    track_place_is_first(extended(tracks, more), track.mid@);
}

/// The button leads from off to all, from all to one, and from one to off.
pub proof fn repeating_goes_from_all_to_one()
    ensures
        RepeatMode::Off.following() == RepeatMode::All,
        RepeatMode::All.following() == RepeatMode::One,
        RepeatMode::One.following() == RepeatMode::Off,
{
}

} // verus!
