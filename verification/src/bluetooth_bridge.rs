//! What the worker for Bluetooth lyrics does next: when it connects, where it
//! registers the player, and which changes it sends.

use crate::bluetooth_lyrics::{not_negative, Properties, Request, Shown, Snapshot};
use crate::lyrics::line::text_of;
use crate::text::{push_text, texts};
use crate::time::Instant;
use vstd::prelude::*;

verus! {

pub const RETRY_NANOS: u128 = 2_000_000_000;

pub const TEST_NANOS: u128 = 5_000_000_000;

/// What is registered with the Bluetooth service.
#[derive(Debug)]
pub struct BridgeState {
    /// The bus name of the service that it is registered with.
    pub owner: String,
    pub adapters: Vec<String>,
    /// What was sent last.
    pub published: Option<Snapshot>,
}

/// What a `BridgeState` says.
pub struct Bridge {
    pub owner: Seq<char>,
    pub adapters: Seq<Seq<char>>,
    pub published: Option<Shown>,
}

pub open spec fn shown_of(snapshot: Option<Snapshot>) -> Option<Shown> {
    match snapshot {
        Some(snapshot) => Some(snapshot@),
        None => None,
    }
}

impl View for BridgeState {
    type V = Bridge;

    open spec fn view(&self) -> Bridge {
        Bridge {
            owner: self.owner@,
            adapters: texts(self.adapters@),
            published: shown_of(self.published),
        }
    }
}

/// The texts of `list` that `other` lacks, in their order.
pub open spec fn without(list: Seq<Seq<char>>, other: Seq<Seq<char>>) -> Seq<Seq<char>> {
    list.filter(|text: Seq<char>| !other.contains(text))
}

impl Bridge {
    /// What is known to be registered once the service is seen under `owner`: nothing
    /// where it was restarted.
    pub open spec fn seen(self, owner: Seq<char>) -> Bridge {
        if self.owner == owner {
            self
        } else {
            Bridge { owner, adapters: Seq::empty(), published: None }
        }
    }

    /// The state once the player is registered on `desired` and nowhere else.
    pub open spec fn registered(self, owner: Seq<char>, desired: Seq<Seq<char>>) -> Bridge {
        let seen = self.seen(owner);
        Bridge {
            owner,
            adapters: desired,
            published: if without(desired, seen.adapters).len() > 0 {
                None
            } else {
                seen.published
            },
        }
    }
}

fn contains_text(list: &Vec<String>, text: &String) -> (result: bool)
    ensures
        result == texts(list@).contains(text@),
{
    let ghost all = texts(list@);
    let mut i: usize = 0;
    while i < list.len()
        invariant
            i <= list@.len(),
            all == texts(list@),
            forall|j: int| 0 <= j < i ==> #[trigger] all[j] != text@,
        decreases list.len() - i,
    {
        assert(all[i as int] == list@[i as int]@);
        if list[i].eq(text) {
            return true;
        }
        i += 1;
    }
    false
}

fn missing_from(list: &Vec<String>, other: &Vec<String>) -> (rest: Vec<String>)
    ensures
        texts(rest@) == without(texts(list@), texts(other@)),
{
    let ghost all = texts(list@);
    let ghost others = texts(other@);
    let mut rest: Vec<String> = Vec::new();
    let mut i: usize = 0;
    proof {
        reveal(Seq::filter);
        assert(all.take(0) =~= Seq::empty());
        assert(texts(rest@) =~= Seq::empty());
    }
    while i < list.len()
        invariant
            i <= list@.len(),
            all == texts(list@),
            others == texts(other@),
            texts(rest@) == without(all.take(i as int), others),
        decreases list.len() - i,
    {
        proof {
            reveal(Seq::filter);
            assert(all.take(i + 1).drop_last() =~= all.take(i as int));
            assert(all.take(i + 1).last() == list@[i as int]@);
        }
        if !contains_text(other, &list[i]) {
            let ghost before = rest@;
            let text = list[i].clone();
            rest.push(text);
            assert(texts(rest@) =~= texts(before).push(text@));
        }
        i += 1;
    }
    assert(all.take(all.len() as int) =~= all);
    rest
}

/// Where the player is to be taken off and where it is to be put on.
#[derive(Debug)]
pub struct Registration {
    pub leave: Vec<String>,
    pub join: Vec<String>,
}

impl BridgeState {
    /// Nothing is registered yet.
    pub fn new() -> (state: Self)
        ensures
            state@ == (Bridge {
                owner: Seq::empty(),
                adapters: Seq::empty(),
                published: None,
            }),
    {
        let state = BridgeState { owner: String::new(), adapters: Vec::new(), published: None };
        assert(state.owner@ =~= Seq::empty());
        assert(texts(state.adapters@) =~= Seq::empty());
        state
    }

    /// Takes the player off the adapters that are no longer desired and puts it on
    /// those that are new.
    pub fn reconcile(&mut self, owner: String, desired: Vec<String>) -> (registration: Registration)
        ensures
            final(self)@ == old(self)@.registered(owner@, texts(desired@)),
            texts(registration.leave@) == without(
                old(self)@.seen(owner@).adapters,
                texts(desired@),
            ),
            texts(registration.join@) == without(
                texts(desired@),
                old(self)@.seen(owner@).adapters,
            ),
    {
        if !self.owner.eq(&owner) {
            self.owner = owner;
            self.adapters.clear();
            self.published = None;
            assert(texts(self.adapters@) =~= Seq::empty());
        }
        let leave = missing_from(&self.adapters, &desired);
        let join = missing_from(&desired, &self.adapters);
        if join.len() > 0 {
            self.published = None;
        }
        assert(join@.len() == texts(join@).len());
        self.adapters = desired;
        Registration { leave, join }
    }

    /// Whether the player is registered anywhere.
    pub fn is_registered(&self) -> (result: bool)
        ensures
            result == (self@.adapters.len() > 0),
    {
        self.adapters.len() > 0
    }
}

/// After reconciling, the player is registered exactly where it is desired: what it
/// left is not desired, and what it joined is new. A restarted service is joined
/// everywhere anew.
pub proof fn reconciling_reaches_desired(
    bridge: Bridge,
    owner: Seq<char>,
    desired: Seq<Seq<char>>,
    text: Seq<char>,
)
    ensures
        bridge.registered(owner, desired).adapters.contains(text) <==> (bridge.seen(
            owner,
        ).adapters.contains(text) && !without(bridge.seen(owner).adapters, desired).contains(
            text,
        )) || without(desired, bridge.seen(owner).adapters).contains(text),
        bridge.owner != owner ==> without(bridge.seen(owner).adapters, desired).len() == 0
            && without(desired, bridge.seen(owner).adapters) == desired,
{
    let held = bridge.seen(owner).adapters;
    without_contains(held, desired, text);
    without_contains(desired, held, text);
    if bridge.owner != owner {
        reveal(Seq::filter);
        assert(held =~= Seq::empty());
        without_nothing(desired);
    }
}

proof fn without_contains(list: Seq<Seq<char>>, other: Seq<Seq<char>>, text: Seq<char>)
    ensures
        without(list, other).contains(text) <==> list.contains(text) && !other.contains(text),
    decreases list.len(),
{
    reveal(Seq::filter);
    let all = without(list, other);
    if list.len() > 0 {
        let rest = list.drop_last();
        without_contains(rest, other, text);
        let before = without(rest, other);
        assert(list =~= rest.push(list.last()));
        assert(list.contains(text) <==> rest.contains(text) || list.last() == text) by {
            if list.contains(text) {
                let i = choose|i: int| 0 <= i < list.len() && list[i] == text;
                if i < rest.len() {
                    assert(rest[i] == text);
                }
            }
            if rest.contains(text) {
                let i = choose|i: int| 0 <= i < rest.len() && rest[i] == text;
                assert(list[i] == text);
            }
            if list.last() == text {
                assert(list[list.len() - 1] == text);
            }
        }
        if !other.contains(list.last()) {
            assert(all == before.push(list.last()));
            assert(all.contains(text) <==> before.contains(text) || list.last() == text) by {
                if all.contains(text) {
                    let i = choose|i: int| 0 <= i < all.len() && all[i] == text;
                    if i < before.len() {
                        assert(before[i] == text);
                    }
                }
                if before.contains(text) {
                    let i = choose|i: int| 0 <= i < before.len() && before[i] == text;
                    assert(all[i] == text);
                }
                if list.last() == text {
                    assert(all[all.len() - 1] == text);
                }
            }
        } else {
            assert(all == before);
        }
    }
}

proof fn without_nothing(list: Seq<Seq<char>>)
    ensures
        without(list, Seq::empty()) == list,
    decreases list.len(),
{
    reveal(Seq::filter);
    if list.len() > 0 {
        without_nothing(list.drop_last());
        assert(list =~= list.drop_last().push(list.last()));
    } else {
        assert(without(list, Seq::empty()) =~= list);
    }
}

/// What is sent for a snapshot: properties that changed, and then the position by
/// itself, which a change of the track would reset.
#[derive(Debug)]
pub struct Publication {
    pub changes: Option<Properties>,
    pub position: Properties,
}

impl Publication {
    /// The publication tells a listener that knows `before` all of `now`.
    pub open spec fn tells(self, before: Option<Shown>, now: Shown) -> bool {
        let track_changed = before is None || before.unwrap().described() != now.described();
        let status_changed = before is None || before.unwrap().status_text() != now.status_text();
        &&& self.position.position == Some(not_negative(now.position_micros))
        &&& self.position.identity is None && self.position.metadata is None
        &&& self.position.playback_status is None && self.position.can_control is None
        &&& self.changes is Some <==> track_changed || status_changed
        &&& match self.changes {
            None => true,
            Some(changes) => {
                &&& changes.identity is None && changes.position is None
                &&& text_of(changes.playback_status) == Some(now.status_text())
                &&& changes.can_control == Some(now.track_id.len() > 0)
                &&& changes.metadata is Some <==> track_changed
                &&& match changes.metadata {
                    Some(metadata) => metadata.describes(now),
                    None => true,
                }
            },
        }
    }
}

fn same_text(a: &'static str, b: &'static str) -> (result: bool)
    ensures
        result == (a@ == b@),
{
    let first = crate::text::to_chars(a);
    let second = crate::text::to_chars(b);
    crate::lyrics::relaxed::same_chars(first.as_slice(), second.as_slice())
}

impl BridgeState {
    /// Sends what changed; nothing where the player is registered nowhere.
    pub fn publish(&mut self, snapshot: &Snapshot) -> (publication: Option<Publication>)
        ensures
            final(self)@.owner == old(self)@.owner,
            final(self)@.adapters == old(self)@.adapters,
            match publication {
                None => old(self)@.adapters.len() == 0 && final(self)@.published
                    == old(self)@.published,
                Some(publication) => old(self)@.adapters.len() > 0 && publication.tells(
                    old(self)@.published,
                    snapshot@,
                ) && final(self)@.published == Some(snapshot@),
            },
    {
        if self.adapters.len() == 0 {
            return None;
        }
        let changed: bool = match &self.published {
            None => true,
            Some(before) => !before.same_metadata(snapshot),
        };
        let status_changed: bool = match &self.published {
            None => true,
            Some(before) => !same_text(before.status(), snapshot.status()),
        };
        let all = snapshot.properties();
        let changes = if changed || status_changed {
            Some(
                Properties {
                    identity: None,
                    metadata: if changed {
                        all.metadata
                    } else {
                        None
                    },
                    playback_status: all.playback_status,
                    position: None,
                    can_control: all.can_control,
                },
            )
        } else {
            None
        };
        let position = Properties {
            identity: None,
            metadata: None,
            playback_status: None,
            position: all.position,
            can_control: None,
        };
        self.published = Some(snapshot.clone());
        Some(Publication { changes, position })
    }
}

/// What the worker remembers between two rounds.
#[derive(Debug)]
pub struct WorkerState {
    pub connected: bool,
    pub last_status: String,
    pub next_check: Instant,
    pub test_serial: u64,
    pub test_until: Option<Instant>,
}

/// What a round consists of.
#[derive(Debug)]
pub enum Round {
    /// The player is switched off: the connection is dropped.
    Off,
    /// It is too early to connect again.
    Wait,
    Work {
        snapshot: Snapshot,
        testing: bool,
        connect: bool,
        reconcile: bool,
    },
}

/// What came of a round.
#[derive(Debug)]
pub enum Outcome {
    Registered,
    NotRegistered,
    Failed(String),
    TimedOut,
}

pub open spec fn until_nanos(until: Option<Instant>) -> Option<int> {
    match until {
        Some(until) => Some(until.nanos as int),
        None => None,
    }
}

impl WorkerState {
    pub fn new(now: Instant) -> (state: Self)
        ensures
            !state.connected,
            state.last_status@.len() == 0,
            state.next_check == now,
            state.test_serial == 0,
            state.test_until is None,
    {
        WorkerState {
            connected: false,
            last_status: String::new(),
            next_check: now,
            test_serial: 0,
            test_until: None,
        }
    }

    /// Until when the test text is shown, once `request` is seen at `now`.
    pub open spec fn test_end(self, request: Request, now: int) -> Option<int> {
        if request.test_serial != self.test_serial {
            Some(now + TEST_NANOS)
        } else {
            until_nanos(self.test_until)
        }
    }

    pub open spec fn is_testing(self, request: Request, now: int) -> bool {
        match self.test_end(request, now) {
            Some(until) => now < until,
            None => false,
        }
    }

    /// Begins a round.
    pub fn begin(&mut self, request: &Request, now: Instant) -> (round: Round)
        requires
            now.nanos + TEST_NANOS <= u128::MAX,
        ensures
            final(self).last_status == old(self).last_status,
            final(self).test_serial == request.test_serial,
            !request.enabled ==> round is Off && !final(self).connected
                && final(self).test_until is None && final(self).next_check == now,
            request.enabled ==> {
                &&& final(self).connected == old(self).connected
                &&& final(self).next_check == old(self).next_check
                &&& until_nanos(final(self).test_until) == old(self).test_end(
                    *request,
                    now.nanos as int,
                )
                &&& round is Wait <==> !old(self).connected && now.nanos
                    < old(self).next_check.nanos
                &&& !(round is Off)
                &&& match round {
                    Round::Work { snapshot, testing, connect, reconcile } => {
                        &&& testing == old(self).is_testing(*request, now.nanos as int)
                        &&& connect == !old(self).connected
                        &&& reconcile == (now.nanos >= old(self).next_check.nanos)
                        &&& snapshot@ == tested(request.snapshot@, testing)
                    },
                    _ => true,
                }
            },
    {
        if !request.enabled {
            self.connected = false;
            self.test_until = None;
            self.test_serial = request.test_serial;
            self.next_check = now;
            return Round::Off;
        }
        if request.test_serial != self.test_serial {
            self.test_serial = request.test_serial;
            self.test_until = Some(Instant { nanos: now.nanos + TEST_NANOS });
        }
        let mut snapshot = request.snapshot.clone();
        let testing: bool = match self.test_until {
            Some(until) => now.nanos < until.nanos,
            None => false,
        };
        if testing {
            snapshot.title = "PixelBar 蓝牙歌词测试".to_owned();
            snapshot.playing = true;
            snapshot.stopped = false;
        }
        if !self.connected && now.nanos < self.next_check.nanos {
            return Round::Wait;
        }
        Round::Work {
            snapshot,
            testing,
            connect: !self.connected,
            reconcile: now.nanos >= self.next_check.nanos,
        }
    }

    /// The text for what came of a round.
    pub open spec fn outcome_text(outcome: Outcome, testing: bool) -> Seq<char> {
        match outcome {
            Outcome::Registered => if testing {
                "测试文字已发布，请查看音响屏幕"@
            } else {
                "PixelBar 已连接，蓝牙歌词输出中"@
            },
            Outcome::NotRegistered => "等待连接 PixelBar，请选择蓝牙输入并开启音乐可视化"@,
            Outcome::Failed(error) => "蓝牙歌词暂不可用，将自动重试："@ + error@,
            Outcome::TimedOut => "蓝牙服务响应超时，将自动重试"@,
        }
    }

    /// Ends a round that worked: a failure drops the connection until it is time to
    /// try again.
    pub fn finish(&mut self, outcome: Outcome, testing: bool, reconciled: bool, now: Instant) -> (status:
        String)
        requires
            now.nanos + RETRY_NANOS <= u128::MAX,
        ensures
            status@ == Self::outcome_text(outcome, testing),
            final(self).last_status == old(self).last_status,
            final(self).test_serial == old(self).test_serial,
            final(self).test_until == old(self).test_until,
            match outcome {
                Outcome::Registered | Outcome::NotRegistered => final(self).connected
                    && final(self).next_check.nanos == (if reconciled {
                    now.nanos + RETRY_NANOS
                } else {
                    old(self).next_check.nanos as int
                }),
                Outcome::Failed(_) | Outcome::TimedOut => !final(self).connected
                    && final(self).next_check.nanos == now.nanos + RETRY_NANOS,
            },
    {
        let later = Instant { nanos: now.nanos + RETRY_NANOS };
        match outcome {
            Outcome::Registered => {
                self.connected = true;
                if reconciled {
                    self.next_check = later;
                }
                if testing {
                    "测试文字已发布，请查看音响屏幕".to_owned()
                } else {
                    "PixelBar 已连接，蓝牙歌词输出中".to_owned()
                }
            },
            Outcome::NotRegistered => {
                self.connected = true;
                if reconciled {
                    self.next_check = later;
                }
                "等待连接 PixelBar，请选择蓝牙输入并开启音乐可视化".to_owned()
            },
            Outcome::Failed(error) => {
                self.connected = false;
                self.next_check = later;
                let mut status = "蓝牙歌词暂不可用，将自动重试：".to_owned();
                push_text(&mut status, error.as_str());
                status
            },
            Outcome::TimedOut => {
                self.connected = false;
                self.next_check = later;
                "蓝牙服务响应超时，将自动重试".to_owned()
            },
        }
    }

    /// The status to report: only one that differs from the last.
    pub fn report(&mut self, status: String) -> (news: Option<String>)
        ensures
            final(self).last_status@ == status@,
            final(self).connected == old(self).connected,
            final(self).next_check == old(self).next_check,
            final(self).test_serial == old(self).test_serial,
            final(self).test_until == old(self).test_until,
            text_of(news) == (if old(self).last_status@ == status@ {
                None
            } else {
                Some(status@)
            }),
    {
        if self.last_status.eq(&status) {
            return None;
        }
        self.last_status = status.clone();
        Some(status)
    }
}

pub fn off_status() -> (status: &'static str)
    ensures
        status@ == "蓝牙歌词已关闭"@,
{
    "蓝牙歌词已关闭"
}

/// What is shown while the test text is: its title, as if a track played.
pub open spec fn tested(shown: Shown, testing: bool) -> Shown {
    if testing {
        Shown { title: "PixelBar 蓝牙歌词测试"@, playing: true, stopped: false, ..shown }
    } else {
        shown
    }
}

/// The test text shows for five seconds after it was asked for, and no longer.
pub proof fn test_text_lasts_five_seconds(
    before: WorkerState,
    after: WorkerState,
    request: Request,
    asked: int,
    later: int,
)
    requires
        request.test_serial != before.test_serial,
        after.test_serial == request.test_serial,
        until_nanos(after.test_until) == before.test_end(request, asked),
        asked <= later,
    ensures
        before.is_testing(request, asked),
        after.is_testing(request, later) <==> later < asked + TEST_NANOS,
{
}

/// A service that was restarted knows nothing of the player; one that was not is known to
/// have what it had.
pub proof fn a_restarted_service_is_joined_anew(bridge: Bridge, owner: Seq<char>)
    ensures
        bridge.owner == owner ==> bridge.seen(owner) == bridge,
        bridge.owner != owner ==> bridge.seen(owner).adapters.len() == 0 && bridge.seen(
            owner,
        ).published is None && bridge.seen(owner).owner == owner,
{
}

/// Once the player is registered it is where it is desired, under the present owner; where
/// it joined an adapter all is told anew, and else what was told still counts.
pub proof fn a_new_adapter_is_told_everything(
    bridge: Bridge,
    owner: Seq<char>,
    desired: Seq<Seq<char>>,
    text: Seq<char>,
)
    ensures
        bridge.registered(owner, desired).adapters == desired,
        bridge.registered(owner, desired).owner == owner,
        desired.contains(text) && !bridge.adapters.contains(text) ==> bridge.registered(
            owner,
            desired,
        ).published is None,
        bridge.owner != owner && desired.contains(text) ==> bridge.registered(
            owner,
            desired,
        ).published is None,
        bridge.owner == owner && (forall|i: int|
            0 <= i < desired.len() ==> bridge.adapters.contains(#[trigger] desired[i]))
            ==> bridge.registered(owner, desired).published == bridge.published,
{
    let seen = bridge.seen(owner);
    if desired.contains(text) && !seen.adapters.contains(text) {
        missing_is_left(desired, seen.adapters, text);
    }
    if bridge.owner == owner && (forall|i: int|
        0 <= i < desired.len() ==> bridge.adapters.contains(#[trigger] desired[i])) {
        nothing_is_missing(desired, bridge.adapters);
    }
}

proof fn missing_is_left(list: Seq<Seq<char>>, other: Seq<Seq<char>>, text: Seq<char>)
    requires
        list.contains(text),
        !other.contains(text),
    ensures
        without(list, other).len() > 0,
    decreases list.len(),
{
    reveal(Seq::filter);
    let at = choose|i: int| 0 <= i < list.len() && list[i] == text;
    if at < list.len() - 1 {
        assert(list.drop_last()[at] == text);
        missing_is_left(list.drop_last(), other, text);
    }
}

proof fn nothing_is_missing(list: Seq<Seq<char>>, other: Seq<Seq<char>>)
    requires
        forall|i: int| 0 <= i < list.len() ==> other.contains(#[trigger] list[i]),
    ensures
        without(list, other).len() == 0,
    decreases list.len(),
{
    reveal(Seq::filter);
    if list.len() > 0 {
        let rest = list.drop_last();
        assert forall|i: int| 0 <= i < rest.len() implies other.contains(#[trigger] rest[i]) by {
            assert(rest[i] == list[i]);
        }
        nothing_is_missing(rest, other);
        assert(other.contains(list[list.len() - 1]));
    }
}

/// The test text shows for five seconds from when it is first asked for; a request that was
/// seen before does not prolong it.
pub proof fn a_test_is_shown_for_five_seconds(state: WorkerState, request: Request, now: int)
    ensures
        request.test_serial != state.test_serial ==> state.test_end(request, now) == Some(
            now + 5_000_000_000,
        ),
        request.test_serial == state.test_serial ==> state.test_end(request, now) == until_nanos(
            state.test_until,
        ),
        state.is_testing(request, now) <==> state.test_end(request, now) is Some && now
            < state.test_end(request, now).unwrap(),
{
}

/// While the test text shows it takes the place of the title as if it played, and changes
/// nothing else; without a test nothing changes.
pub proof fn a_test_changes_the_title_alone(shown: Shown)
    ensures
        tested(shown, false) == shown,
        tested(shown, true).title == "PixelBar 蓝牙歌词测试"@,
        tested(shown, true).playing && !tested(shown, true).stopped,
        tested(shown, true).track_id == shown.track_id && tested(shown, true).artist
            == shown.artist && tested(shown, true).length_micros == shown.length_micros
            && tested(shown, true).position_micros == shown.position_micros,
{
}

/// A listener is always told the position; of the track and of whether it plays they are
/// told where that changed, or where they know nothing yet, and of the track only where it
/// changed itself.
pub proof fn changes_are_told(publication: Publication, before: Option<Shown>, now: Shown)
    requires
        publication.tells(before, now),
    ensures
        publication.position.position == Some(
            if now.position_micros < 0 {
                0i64
            } else {
                now.position_micros
            },
        ),
        before is None ==> publication.changes is Some && publication.changes.unwrap().metadata
            is Some,
        before matches Some(known) ==> {
            let track = known.track_id != now.track_id || known.title != now.title || known.artist
                != now.artist || known.length_micros != now.length_micros;
            let status = known.status_text() != now.status_text();
            &&& publication.changes is Some <==> track || status
            &&& publication.changes is Some ==> (publication.changes.unwrap().metadata is Some
                <==> track)
        },
        publication.changes matches Some(changes) ==> {
            &&& text_of(changes.playback_status) == Some(now.status_text())
            &&& changes.can_control == Some(now.track_id.len() > 0)
            &&& changes.metadata matches Some(metadata) ==> metadata.describes(now)
            &&& changes.identity is None && changes.position is None
        },
        publication.position.identity is None && publication.position.metadata is None
            && publication.position.playback_status is None && publication.position.can_control
            is None,
{
}

} // verus!
