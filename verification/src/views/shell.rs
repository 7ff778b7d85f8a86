//! The window around the pages, and what it says first.

use crate::account::AccountState;
use crate::browser::{Browser, MainContent};
use crate::catalog::UserProfile;
use crate::loading::StatusMessage;
use crate::lyrics::line::text_of;
use crate::playback::{AudioStatus, Playback, PlaybackView};
use crate::text::push_text;
use crate::views::layout::{pick, Layout};
use vstd::prelude::*;

verus! {

/// What stands in the place of the code to sign in with.
pub open spec fn login_hint(state: AccountState) -> Seq<char> {
    match state {
        AccountState::Restoring => "正在恢复登录…"@,
        AccountState::SigningIn => "正在生成二维码…"@,
        _ => "使用 QQ 音乐 App 扫码登录"@,
    }
}

pub fn login_label(state: AccountState) -> (text: &'static str)
    ensures
        text@ == login_hint(state),
{
    match state {
        AccountState::Restoring => "正在恢复登录…",
        AccountState::SigningIn => "正在生成二维码…",
        AccountState::SignedOut => "使用 QQ 音乐 App 扫码登录",
        AccountState::SignedIn => "使用 QQ 音乐 App 扫码登录",
    }
}

/// The name of the listener.
pub fn account_name(profile: &Option<UserProfile>) -> (name: String)
    ensures
        name@ == (match *profile {
            Some(profile) => profile@.nickname,
            None => "QQ 音乐用户"@,
        }),
{
    match profile {
        Some(profile) => profile.nickname.clone(),
        None => "QQ 音乐用户".to_owned(),
    }
}

/// The line in the sidebar: errors alone are shown there.
pub fn sidebar_status(status: &StatusMessage) -> (text: Option<String>)
    ensures
        text_of(text) == (if status.is_error {
            Some(status.text@)
        } else {
            None
        }),
{
    if status.is_error {
        Some(status.text.clone())
    } else {
        None
    }
}

/// The frame of the window.
#[derive(Clone, Copy, Debug, PartialEq, Eq, Structural)]
pub struct Shell {
    pub page: MainContent,
    pub home_selected: bool,
    pub can_go_back: bool,
    pub can_go_forward: bool,
    pub search_width: u32,
}

pub fn shell(browser: &Browser, layout: Layout) -> (shell: Shell)
    ensures
        shell == (Shell {
            page: browser@.main_content,
            home_selected: browser@.main_content == MainContent::Home,
            can_go_back: browser.navigation_history@.back.len() > 0,
            can_go_forward: browser.navigation_history@.forward.len() > 0,
            search_width: pick(layout, 268, 376, 480),
        }),
{
    Shell {
        page: browser.main_content,
        home_selected: browser.main_content == MainContent::Home,
        can_go_back: browser.navigation_history.back.len() > 0,
        can_go_forward: browser.navigation_history.forward.len() > 0,
        search_width: layout.pick(268, 376, 480),
    }
}

/// Before the window is drawn with lyrics that move, the position follows the audio
/// output. Says whether frames are to be asked for.
pub fn follow_lyrics(playback: &mut Playback, expanded: bool, audio: Option<AudioStatus>) -> (moving:
    bool)
    ensures
        moving == (expanded && old(playback)@.advancing(audio)),
        final(playback)@ == (if moving && old(playback)@.seek_preview is None {
            PlaybackView { position: audio.unwrap().position@, ..old(playback)@ }
        } else {
            old(playback)@
        }),
{
    if expanded && playback.playback_is_advancing(audio) {
        if playback.seek_preview.is_none() {
            if let Some(audio) = audio {
                playback.position = audio.position;
            }
        }
        true
    } else {
        false
    }
}

/// What went wrong when the player started.
#[derive(Debug)]
pub struct StartupErrors {
    pub audio: Option<String>,
    pub audio_cache: Option<String>,
    pub cdn_cache: Option<String>,
    pub client: Option<String>,
}

pub open spec fn with_error(text: Seq<char>, label: Seq<char>, error: Option<Seq<char>>) -> Seq<char> {
    match error {
        Some(error) => text + label + error,
        None => text,
    }
}

/// The first line that the player shows: what it does, or what went wrong.
pub open spec fn startup_text(errors: StartupErrors) -> Seq<char> {
    let first = match errors.audio {
        Some(error) => "音频设备初始化失败："@ + error@ + "；仍可浏览 QQ 音乐歌单"@,
        None => "正在读取已保存的登录状态…"@,
    };
    let second = with_error(
        first,
        "；音频缓存初始化失败："@,
        text_of(errors.audio_cache),
    );
    let third = with_error(second, "；CDN 缓存读取失败："@, text_of(errors.cdn_cache));
    with_error(third, "；QQ 音乐客户端初始化失败："@, text_of(errors.client))
}

fn append_error(text: &mut String, label: &str, error: &Option<String>)
    ensures
        final(text)@ == with_error(old(text)@, label@, text_of(*error)),
{
    if let Some(error) = error {
        push_text(text, label);
        push_text(text, error.as_str());
    }
}

pub fn startup_status(errors: &StartupErrors) -> (status: StatusMessage)
    ensures
        status.says(
            startup_text(*errors),
            errors.audio is Some || errors.audio_cache is Some || errors.cdn_cache is Some
                || errors.client is Some,
        ),
{
    let mut text = match &errors.audio {
        Some(error) => crate::loading::framed(
            "音频设备初始化失败：",
            error.as_str(),
            "；仍可浏览 QQ 音乐歌单",
        ),
        None => "正在读取已保存的登录状态…".to_owned(),
    };
    append_error(&mut text, "；音频缓存初始化失败：", &errors.audio_cache);
    append_error(&mut text, "；CDN 缓存读取失败：", &errors.cdn_cache);
    append_error(&mut text, "；QQ 音乐客户端初始化失败：", &errors.client);
    StatusMessage {
        text,
        is_error: errors.audio.is_some() || errors.audio_cache.is_some()
            || errors.cdn_cache.is_some() || errors.client.is_some(),
    }
}

/// What went wrong at the start is said one behind the other, and a start without a fault
/// says that the account is being read.
pub proof fn faults_at_the_start_are_said(text: Seq<char>, label: Seq<char>, error: Seq<char>, errors: StartupErrors)
    ensures
        with_error(text, label, Some(error)) == text + label + error,
        with_error(text, label, None) == text,
        errors.audio is None && errors.audio_cache is None && errors.cdn_cache is None
            && errors.client is None ==> startup_text(errors) == "正在读取已保存的登录状态…"@,
        errors.client matches Some(error) ==> startup_text(errors).len() >= error@.len()
            && startup_text(errors).skip(startup_text(errors).len() - error@.len()) == error@,
{
    if let Some(error) = errors.client {
        let all = startup_text(errors);
        assert(all.skip(all.len() - error@.len()) =~= error@);
    }
}

} // verus!
