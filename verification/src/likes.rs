//! Which tracks the listener likes, as far as that is known.

use crate::catalog::{find_track, track_place, Track};
use crate::loading::{framed, labelled, StatusMessage};
use crate::resources::PlaylistResource;
use vstd::prelude::*;

verus! {

/// What is known of one track.
#[derive(Clone, Copy, Debug, PartialEq, Eq, Structural)]
pub struct LikeState {
    pub liked: Option<bool>,
    /// The service was asked whether it is liked.
    pub state_loading: bool,
    /// The service was asked to change that.
    pub toggle_loading: bool,
}

/// What a wish leads to.
#[derive(Debug)]
pub enum LikeRequest {
    Nothing,
    /// Ask the service whether the track is liked.
    AskState,
    /// Ask the service to like or unlike the track. `previous` is what was known
    /// before.
    AskChange { liked: bool, previous: Option<bool> },
    Refused(StatusMessage),
}

impl LikeRequest {
    pub open spec fn refuses(self, text: Seq<char>) -> bool {
        match self {
            LikeRequest::Refused(status) => status.says(text, true),
            _ => false,
        }
    }
}

/// Whether a track is liked by the loaded list of liked tracks: unknown where that is
/// stale, and where a track that is not in it may be on a later page.
pub open spec fn liked_by_list(list: PlaylistResource, mid: Seq<char>, now_secs: u64) -> Option<
    bool,
> {
    if !list.up_to_date(now_secs) || list.fetched_at_secs == 0 {
        None
    } else if track_place(list.tracks@, mid) is Some {
        Some(true)
    } else if list.has_more {
        None
    } else {
        Some(false)
    }
}

pub fn find_in_list(list: &PlaylistResource, mid: &String, now_secs: u64) -> (liked: Option<bool>)
    ensures
        liked == liked_by_list(*list, mid@, now_secs),
{
    if !list.is_fresh(now_secs) || list.fetched_at_secs == 0 {
        None
    } else if find_track(&list.tracks, mid).is_some() {
        Some(true)
    } else if list.has_more {
        None
    } else {
        Some(false)
    }
}

impl LikeState {
    pub fn new() -> (state: Self)
        ensures
            state == (LikeState { liked: None, state_loading: false, toggle_loading: false }),
    {
        LikeState { liked: None, state_loading: false, toggle_loading: false }
    }

    /// The state once it is to be known, and whether the service is asked. `listed`
    /// is what the loaded list says.
    pub open spec fn ensured(self, signed_in: bool, client: bool, listed: Option<bool>) -> (
        LikeState,
        bool,
    ) {
        if self.liked is Some || self.state_loading || !signed_in {
            (self, false)
        } else if listed is Some {
            (LikeState { liked: listed, ..self }, false)
        } else if !client {
            (self, false)
        } else {
            (LikeState { state_loading: true, ..self }, true)
        }
    }

    pub fn ensure_track_like_state(
        &mut self,
        signed_in: bool,
        client: bool,
        listed: Option<bool>,
    ) -> (ask: bool)
        ensures
            (*final(self), ask) == old(self).ensured(signed_in, client, listed),
    {
        if self.liked.is_some() || self.state_loading || !signed_in {
            return false;
        }
        if listed.is_some() {
            self.liked = listed;
            return false;
        }
        if !client {
            return false;
        }
        self.state_loading = true;
        true
    }

    /// Takes in whether the track is liked. An answer for another account counts for
    /// nothing; an error is told for the current track alone.
    pub fn on_state(
        &mut self,
        same_account: bool,
        is_current: bool,
        result: Result<bool, String>,
    ) -> (status: Option<StatusMessage>)
        ensures
            *final(self) == (LikeState {
                state_loading: false,
                liked: match result {
                    Ok(liked) if same_account => Some(liked),
                    _ => old(self).liked,
                },
                ..*old(self)
            }),
            match result {
                Err(error) if same_account && is_current => status is Some
                    && status.unwrap().says(
                    "读取当前歌曲的喜欢状态失败："@ + error@,
                    true,
                ),
                _ => status is None,
            },
    {
        self.state_loading = false;
        if !same_account {
            return None;
        }
        match result {
            Ok(liked) => {
                self.liked = Some(liked);
                None
            },
            Err(error) => if is_current {
                Some(
                    StatusMessage::error(
                        labelled("读取当前歌曲的喜欢状态失败：", error.as_str()),
                    ),
                )
            } else {
                None
            },
        }
    }

    /// What a wish to like or unlike a track leads to: it is shown at once and asked of
    /// the service, unless a change is on its way or something is missing for it.
    pub open spec fn changes(
        self,
        track: Track,
        liked: bool,
        signed_in: bool,
        client: bool,
        after: LikeState,
        request: LikeRequest,
    ) -> bool {
        if self.toggle_loading || !signed_in {
            request is Nothing && after == self
        } else if !client {
            request.refuses("QQ 音乐客户端不可用"@) && after == self
        } else if track.song_id is None {
            request.refuses(
                "歌曲“"@ + track.title@ + "”缺少数字 ID，暂时无法修改喜欢状态"@,
            ) && after == self
        } else {
            request == (LikeRequest::AskChange { liked, previous: self.liked }) && after == (
            LikeState { liked: Some(liked), toggle_loading: true, ..self })
        }
    }

    /// Begins to like or unlike a track: shown at once, and asked of the service.
    pub fn set_track_liked(
        &mut self,
        track: &Track,
        liked: bool,
        signed_in: bool,
        client: bool,
    ) -> (request: LikeRequest)
        ensures
            old(self).changes(*track, liked, signed_in, client, *final(self), request),
    {
        if self.toggle_loading || !signed_in {
            return LikeRequest::Nothing;
        }
        if !client {
            return LikeRequest::Refused(StatusMessage::error("QQ 音乐客户端不可用".to_owned()));
        }
        if track.song_id.is_none() {
            return LikeRequest::Refused(
                StatusMessage::error(
                    framed(
                        "歌曲“",
                        track.title.as_str(),
                        "”缺少数字 ID，暂时无法修改喜欢状态",
                    ),
                ),
            );
        }
        let previous = self.liked;
        self.liked = Some(liked);
        self.toggle_loading = true;
        LikeRequest::AskChange { liked, previous }
    }

    /// Likes the current track where it is not liked, and unlikes it where it is;
    /// asks first where that is not known.
    pub fn toggle(&mut self, track: &Track, signed_in: bool, client: bool, listed: Option<bool>) -> (request:
        LikeRequest)
        ensures
            old(self).liked is None ==> {
                let (state, ask) = old(self).ensured(signed_in, client, listed);
                *final(self) == state && (ask ==> request is AskState) && (!ask
                    ==> request is Nothing)
            },
            old(self).liked is Some ==> old(self).changes(
                *track,
                !old(self).liked.unwrap(),
                signed_in,
                client,
                *final(self),
                request,
            ),
    {
        match self.liked {
            None => if self.ensure_track_like_state(signed_in, client, listed) {
                LikeRequest::AskState
            } else {
                LikeRequest::Nothing
            },
            Some(liked) => self.set_track_liked(track, !liked, signed_in, client),
        }
    }

    /// Unlikes a track of the list of liked tracks.
    pub fn unlike(&mut self, track: &Track, signed_in: bool, client: bool) -> (request: LikeRequest)
        ensures
            old(self).toggle_loading ==> request is Nothing && *final(self) == *old(self),
            !old(self).toggle_loading ==> (LikeState { liked: Some(true), ..*old(self) }).changes(
                *track,
                false,
                signed_in,
                client,
                *final(self),
                request,
            ),
    {
        if self.toggle_loading {
            return LikeRequest::Nothing;
        }
        self.liked = Some(true);
        self.set_track_liked(track, false, signed_in, client)
    }

    /// The state once the service answered a change: a failure takes back what was
    /// shown, unless something else is known by now.
    pub open spec fn answered(
        self,
        same_account: bool,
        liked: bool,
        previous: Option<bool>,
        ok: bool,
    ) -> LikeState {
        LikeState {
            toggle_loading: false,
            liked: if same_account && !ok && self.liked == Some(liked) {
                previous
            } else {
                self.liked
            },
            ..self
        }
    }

    /// Takes in the answer to a change. Says whether the lists are to be changed.
    pub fn on_changed(
        &mut self,
        same_account: bool,
        liked: bool,
        previous: Option<bool>,
        title: &str,
        result: Result<(), String>,
    ) -> (outcome: (bool, Option<StatusMessage>))
        ensures
            *final(self) == old(self).answered(same_account, liked, previous, result is Ok),
            outcome.0 == (same_account && result is Ok),
            outcome.1 is Some <==> same_account,
            same_account ==> match result {
                Ok(_) => outcome.1.unwrap().says(
                    if liked {
                        "已喜欢“"@ + title@ + "”"@
                    } else {
                        "已取消喜欢“"@ + title@ + "”"@
                    },
                    false,
                ),
                Err(error) => outcome.1.unwrap().says(
                    if liked {
                        "喜欢歌曲失败："@ + error@
                    } else {
                        "取消喜欢失败："@ + error@
                    },
                    true,
                ),
            },
    {
        self.toggle_loading = false;
        if !same_account {
            return (false, None);
        }
        match result {
            Ok(_) => (
                true,
                Some(
                    StatusMessage::info(
                        if liked {
                            framed("已喜欢“", title, "”")
                        } else {
                            framed("已取消喜欢“", title, "”")
                        },
                    ),
                ),
            ),
            Err(error) => {
                let shown: bool = match self.liked {
                    Some(now) => now == liked,
                    None => false,
                };
                if shown {
                    self.liked = previous;
                }
                (
                    false,
                    Some(
                        StatusMessage::error(
                            if liked {
                                labelled("喜欢歌曲失败：", error.as_str())
                            } else {
                                labelled("取消喜欢失败：", error.as_str())
                            },
                        ),
                    ),
                )
            },
        }
    }
}

/// A change that fails leaves the track as it was known before.
pub proof fn failed_change_is_taken_back(before: LikeState, liked: bool)
    requires
        !before.toggle_loading,
    ensures
        ({
            let shown = LikeState { liked: Some(liked), toggle_loading: true, ..before };
            shown.answered(true, liked, before.liked, false) == before
        }),
{
}

/// Where the first entry for a track stands, from `from` on.
pub open spec fn entry_place(entries: Seq<(String, LikeState)>, mid: Seq<char>, from: int) -> Option<
    int,
>
    decreases entries.len() - from,
{
    if from < 0 || from >= entries.len() {
        None
    } else if entries[from].0@ == mid {
        Some(from)
    } else {
        entry_place(entries, mid, from + 1)
    }
}

proof fn entry_place_is_first(entries: Seq<(String, LikeState)>, mid: Seq<char>, from: int)
    requires
        0 <= from,
    ensures
        match entry_place(entries, mid, from) {
            Some(i) => from <= i < entries.len() && entries[i].0@ == mid && forall|j: int|
                from <= j < i ==> (#[trigger] entries[j]).0@ != mid,
            None => forall|j: int|
                from <= j < entries.len() ==> (#[trigger] entries[j]).0@ != mid,
        },
    decreases entries.len() - from,
{
    if from < entries.len() && entries[from].0@ != mid {
        entry_place_is_first(entries, mid, from + 1);
    }
}

/// An entry that takes the place of the first one for its track, or follows all where
/// there is none, is found, and no other is found elsewhere.
proof fn entry_is_taken_in(
    before: Seq<(String, LikeState)>,
    after: Seq<(String, LikeState)>,
    at: int,
    entry: (String, LikeState),
)
    requires
        match entry_place(before, entry.0@, 0) {
            Some(i) => at == i && after == before.update(at, entry),
            None => at == before.len() && after == before.push(entry),
        },
    ensures
        entry_place(after, entry.0@, 0) == Some(at),
        forall|other: Seq<char>|
            other != entry.0@ ==> #[trigger] entry_place(after, other, 0) == entry_place(
                before,
                other,
                0,
            ),
        forall|i: int| 0 <= i < before.len() && i != at ==> #[trigger] after[i] == before[i],
{
    entry_place_is_first(before, entry.0@, 0);
    entry_place_is_first(after, entry.0@, 0);
    assert(after[at] == entry);
    if let Some(i) = entry_place(after, entry.0@, 0) {
        if i < at {
            assert(after[i] == before[i]);
        }
    }
    assert forall|other: Seq<char>| other != entry.0@ implies #[trigger] entry_place(
        after,
        other,
        0,
    ) == entry_place(before, other, 0) by {
        entry_place_is_first(before, other, 0);
        entry_place_is_first(after, other, 0);
        if let Some(i) = entry_place(after, other, 0) {
            assert(after[i] == before[i]);
        }
        if let Some(k) = entry_place(before, other, 0) {
            assert(after[k] == before[k]);
        }
    }
}

/// What is known of all tracks, each by its id.
#[derive(Debug)]
pub struct TrackLikes {
    pub entries: Vec<(String, LikeState)>,
}

impl TrackLikes {
    /// What is known of a track; nothing of one without an entry.
    pub open spec fn of(self, mid: Seq<char>) -> LikeState {
        match entry_place(self.entries@, mid, 0) {
            Some(i) => self.entries@[i].1,
            None => LikeState { liked: None, state_loading: false, toggle_loading: false },
        }
    }

    pub fn new() -> (likes: Self)
        ensures
            forall|mid: Seq<char>| #[trigger] likes.of(mid) == (LikeState {
                liked: None,
                state_loading: false,
                toggle_loading: false,
            }),
    {
        TrackLikes { entries: Vec::new() }
    }

    fn find(&self, mid: &String) -> (place: Option<usize>)
        ensures
            match place {
                Some(i) => entry_place(self.entries@, mid@, 0) == Some(i as int),
                None => entry_place(self.entries@, mid@, 0) is None,
            },
    {
        let mut i: usize = 0;
        while i < self.entries.len()
            invariant
                i <= self.entries@.len(),
                entry_place(self.entries@, mid@, 0) == entry_place(
                    self.entries@,
                    mid@,
                    i as int,
                ),
            decreases self.entries.len() - i,
        {
            if self.entries[i].0.eq(mid) {
                return Some(i);
            }
            i += 1;
        }
        None
    }

    pub fn get(&self, mid: &String) -> (state: LikeState)
        ensures
            state == self.of(mid@),
    {
        proof {
            entry_place_is_first(self.entries@, mid@, 0);
        }
        match self.find(mid) {
            Some(i) => self.entries[i].1,
            None => LikeState::new(),
        }
    }

    /// Takes in what is known of a track; what is known of any other stays.
    pub fn set(&mut self, mid: &String, state: LikeState)
        ensures
            final(self).of(mid@) == state,
            forall|other: Seq<char>| other != mid@ ==> #[trigger] final(self).of(other) == old(
                self,
            ).of(other),
    {
        proof {
            entry_place_is_first(self.entries@, mid@, 0);
        }
        let entry = (mid.clone(), state);
        let ghost before = self.entries@;
        match self.find(mid) {
            Some(i) => {
                self.entries.set(i, entry);
                proof {
                    entry_is_taken_in(before, self.entries@, i as int, entry);
                }
            },
            None => {
                self.entries.push(entry);
                proof {
                    entry_is_taken_in(before, self.entries@, before.len() as int, entry);
                }
            },
        }
        proof {
            assert forall|other: Seq<char>| other != mid@ implies #[trigger] self.of(other) == old(
                self,
            ).of(other) by {
                entry_place_is_first(before, other, 0);
            }
        }
    }

    /// Forgets all tracks, as when the listener signs out.
    pub fn clear(&mut self)
        ensures
            forall|mid: Seq<char>| #[trigger] final(self).of(mid) == (LikeState {
                liked: None,
                state_loading: false,
                toggle_loading: false,
            }),
    {
        self.entries.clear();
    }
}

/// A loaded list of liked tracks answers for a track that it holds, and for any other
/// where it is complete; a stale one, and one that was never loaded, answers nothing.
pub proof fn a_list_answers_for_what_it_holds(
    list: PlaylistResource,
    mid: Seq<char>,
    now_secs: u64,
)
    ensures
        ({
            let answer = liked_by_list(list, mid, now_secs);
            let holds = exists|i: int|
                0 <= i < list.tracks@.len() && (#[trigger] list.tracks@[i]).mid@ == mid;
            let counts = list.up_to_date(now_secs) && list.fetched_at_secs != 0;
            &&& !counts ==> answer is None
            &&& counts && holds ==> answer == Some(true)
            &&& counts && !holds && !list.has_more ==> answer == Some(false)
            &&& counts && !holds && list.has_more ==> answer is None
        }),
{
    crate::catalog::track_place_is_first(list.tracks@, mid);
}

/// What is known of a track is not asked for, nor what is being asked; what the loaded list
/// answers is taken from it; and only what is left is asked of the service.
pub proof fn only_unknown_likes_are_asked_for(
    state: LikeState,
    signed_in: bool,
    client: bool,
    listed: Option<bool>,
)
    ensures
        ({
            let (after, ask) = state.ensured(signed_in, client, listed);
            &&& ask <==> state.liked is None && !state.state_loading && signed_in && listed is None
                && client
            &&& ask ==> after.state_loading && after.liked is None
            &&& !ask ==> after.state_loading == state.state_loading
            &&& state.liked is Some ==> after.liked == state.liked
            &&& state.liked is None && !state.state_loading && signed_in ==> after.liked == listed
            &&& state.state_loading || !signed_in ==> after == state
            &&& after.toggle_loading == state.toggle_loading
        }),
{
}

/// A change that the service took stays as it is shown, and an answer for another account
/// changes nothing that is shown. In any case the next change may follow.
pub proof fn an_answer_frees_the_button(
    state: LikeState,
    same_account: bool,
    liked: bool,
    previous: Option<bool>,
    ok: bool,
)
    ensures
        ({
            let after = state.answered(same_account, liked, previous, ok);
            &&& !after.toggle_loading && after.state_loading == state.state_loading
            &&& ok || !same_account ==> after.liked == state.liked
            &&& state.liked != Some(liked) ==> after.liked == state.liked
            &&& !ok && same_account && state.liked == Some(liked) ==> after.liked == previous
        }),
{
}

/// A wish to like or unlike is shown at once and asked of the service with what was known
/// before; without an account, or while another is on its way, it is passed over, and
/// without a client or a number for the track it is refused.
pub proof fn a_wish_is_shown_at_once(
    before: LikeState,
    track: Track,
    liked: bool,
    signed_in: bool,
    client: bool,
    after: LikeState,
    request: LikeRequest,
)
    requires
        before.changes(track, liked, signed_in, client, after, request),
    ensures
        request is AskChange <==> !before.toggle_loading && signed_in && client && track.song_id
            is Some,
        request is Nothing <==> before.toggle_loading || !signed_in,
        request is AskChange ==> after.liked == Some(liked) && after.toggle_loading
            && after.state_loading == before.state_loading,
        request matches LikeRequest::AskChange { liked: wished, previous } ==> wished == liked
            && previous == before.liked,
        !(request is AskChange) ==> after == before,
{
}

/// What is known of a track is what its first entry says.
pub proof fn the_first_entry_counts(
    before: Seq<(String, LikeState)>,
    entry: (String, LikeState),
    behind: Seq<(String, LikeState)>,
)
    requires
        forall|i: int| 0 <= i < before.len() ==> (#[trigger] before[i]).0@ != entry.0@,
    ensures
        entry_place(before + seq![entry] + behind, entry.0@, 0) == Some(before.len() as int),
        entry_place(before, entry.0@, 0) is None,
{
    entry_is_found(before, entry, behind, 0);
    entry_is_missed(before, entry.0@, 0);
}

proof fn entry_is_found(
    before: Seq<(String, LikeState)>,
    entry: (String, LikeState),
    behind: Seq<(String, LikeState)>,
    from: int,
)
    requires
        forall|i: int| 0 <= i < before.len() ==> (#[trigger] before[i]).0@ != entry.0@,
        0 <= from <= before.len(),
    ensures
        entry_place(before + seq![entry] + behind, entry.0@, from) == Some(before.len() as int),
    decreases before.len() - from,
{
    let all = before + seq![entry] + behind;
    if from < before.len() {
        assert(all[from] == before[from]);
        entry_is_found(before, entry, behind, from + 1);
    } else {
        assert(all[from] == entry);
    }
}

proof fn entry_is_missed(entries: Seq<(String, LikeState)>, mid: Seq<char>, from: int)
    requires
        forall|i: int| 0 <= i < entries.len() ==> (#[trigger] entries[i]).0@ != mid,
        0 <= from <= entries.len(),
    ensures
        entry_place(entries, mid, from) is None,
    decreases entries.len() - from,
{
    if from < entries.len() {
        entry_is_missed(entries, mid, from + 1);
    }
}

/// What is known of a track is what its entry says, and nothing of one without an entry.
pub proof fn tracks_without_an_entry_are_unknown(likes: TrackLikes, mid: Seq<char>)
    ensures
        (forall|i: int| 0 <= i < likes.entries@.len() ==> (#[trigger] likes.entries@[i]).0@ != mid)
            ==> likes.of(mid).liked is None && !likes.of(mid).state_loading && !likes.of(
            mid,
        ).toggle_loading,
        likes.entries@.len() > 0 && likes.entries@[0].0@ == mid ==> likes.of(mid)
            == likes.entries@[0].1,
{
    if forall|i: int| 0 <= i < likes.entries@.len() ==> (#[trigger] likes.entries@[i]).0@ != mid {
        entry_is_missed(likes.entries@, mid, 0);
    }
}

/// What is refused is told as an error, in these words.
pub proof fn refusals_are_told_as_errors(request: LikeRequest, text: Seq<char>)
    requires
        request.refuses(text),
    ensures
        request matches LikeRequest::Refused(status) ==> status.is_error && status.text@ == text,
        request is Refused,
{
}

} // verus!
