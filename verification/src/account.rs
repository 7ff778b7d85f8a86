//! Signing in and out.

use crate::loading::{framed, StatusMessage};
use crate::playback::next_count;
use vstd::prelude::*;

verus! {

#[derive(Clone, Copy, Debug, PartialEq, Eq, Structural)]
pub enum AccountState {
    Restoring,
    SignedOut,
    SigningIn,
    SignedIn,
}

/// What a sign-in by a code reports.
#[derive(Debug)]
pub enum LoginEvent {
    QrReady,
    WaitingScan,
    WaitingConfirm,
    Succeeded,
    Expired,
    Failed(String),
}

/// What came of looking for a stored sign-in.
#[derive(Debug)]
pub enum RestoreResult {
    Found,
    Missing,
    Failed(String),
}

/// What follows.
#[derive(Clone, Copy, Debug, PartialEq, Eq, Structural)]
pub enum AccountAction {
    Nothing,
    /// Show the code that was received.
    ShowCode,
    /// Take the sign-in, and load the home page and the library.
    Enter,
    /// Begin another sign-in.
    BeginLogin,
}

/// The sign-in of the listener.
#[derive(Clone, Copy, Debug, PartialEq, Eq, Structural)]
pub struct Account {
    pub state: AccountState,
    /// Counts the sign-ins; reports of an earlier one come too late.
    pub login_generation: u64,
    /// A code is on show.
    pub code_shown: bool,
}

impl Account {
    pub fn new() -> (account: Self)
        ensures
            account == (Account {
                state: AccountState::Restoring,
                login_generation: 0,
                code_shown: false,
            }),
    {
        Account { state: AccountState::Restoring, login_generation: 0, code_shown: false }
    }

    /// Takes in what came of looking for a stored sign-in. Without one, the listener
    /// signs in.
    pub fn on_restored(&mut self, result: RestoreResult) -> (next: (
        AccountAction,
        Option<StatusMessage>,
    ))
        ensures
            final(self).login_generation == old(self).login_generation,
            final(self).code_shown == old(self).code_shown,
            match result {
                RestoreResult::Found => final(self).state == AccountState::SignedIn && next.0
                    == AccountAction::Enter && next.1 is Some && next.1.unwrap().says(
                    "已恢复 QQ 音乐登录，正在加载音乐库…"@,
                    false,
                ),
                RestoreResult::Missing => final(self).state == AccountState::SignedOut && next.0
                    == AccountAction::BeginLogin && next.1 is None,
                RestoreResult::Failed(error) => final(self).state == AccountState::SignedOut
                    && next.0 == AccountAction::BeginLogin && next.1 is Some
                    && next.1.unwrap().says(
                    "无法恢复登录："@ + error@ + "；正在加载登录二维码…"@,
                    true,
                ),
            },
    {
        match result {
            RestoreResult::Found => {
                self.state = AccountState::SignedIn;
                (
                    AccountAction::Enter,
                    Some(
                        StatusMessage::info(
                            "已恢复 QQ 音乐登录，正在加载音乐库…".to_owned(),
                        ),
                    ),
                )
            },
            RestoreResult::Missing => {
                self.state = AccountState::SignedOut;
                (AccountAction::BeginLogin, None)
            },
            RestoreResult::Failed(error) => {
                self.state = AccountState::SignedOut;
                (
                    AccountAction::BeginLogin,
                    Some(
                        StatusMessage::error(
                            framed(
                                "无法恢复登录：",
                                error.as_str(),
                                "；正在加载登录二维码…",
                            ),
                        ),
                    ),
                )
            },
        }
    }

    /// A sign-in may begin: none is under way, and none is being restored.
    pub open spec fn may_begin(self) -> bool {
        self.state != AccountState::Restoring && self.state != AccountState::SigningIn
    }

    /// The state once a sign-in has begun.
    pub open spec fn begun(self) -> Account {
        if self.may_begin() {
            Account {
                state: AccountState::SigningIn,
                login_generation: next_count(self.login_generation),
                code_shown: false,
            }
        } else {
            self
        }
    }

    /// Begins a sign-in, and gives its number.
    pub fn begin_login(&mut self) -> (begun: Option<(u64, StatusMessage)>)
        ensures
            *final(self) == old(self).begun(),
            begun is Some <==> old(self).may_begin(),
            begun is Some ==> begun.unwrap().0 == final(self).login_generation
                && begun.unwrap().1.says("正在向 QQ 音乐申请二维码…"@, false),
    {
        if self.state == AccountState::Restoring || self.state == AccountState::SigningIn {
            return None;
        }
        self.login_generation = self.login_generation.wrapping_add(1);
        self.state = AccountState::SigningIn;
        self.code_shown = false;
        Some(
            (
                self.login_generation,
                StatusMessage::info("正在向 QQ 音乐申请二维码…".to_owned()),
            ),
        )
    }

    /// The state once a sign-in reported `event`.
    pub open spec fn after(self, event: LoginEvent) -> Account {
        match event {
            LoginEvent::QrReady => Account { code_shown: true, ..self },
            LoginEvent::WaitingScan | LoginEvent::WaitingConfirm => self,
            LoginEvent::Succeeded => Account {
                state: AccountState::SignedIn,
                code_shown: false,
                ..self
            },
            LoginEvent::Expired | LoginEvent::Failed(_) => Account {
                state: AccountState::SignedOut,
                code_shown: false,
                ..self
            },
        }
    }

    pub open spec fn login_action(event: LoginEvent) -> AccountAction {
        match event {
            LoginEvent::QrReady => AccountAction::ShowCode,
            LoginEvent::Succeeded => AccountAction::Enter,
            LoginEvent::Expired => AccountAction::BeginLogin,
            _ => AccountAction::Nothing,
        }
    }

    /// What the listener is told of a report, and whether as an error.
    pub open spec fn login_text(event: LoginEvent) -> Option<(Seq<char>, bool)> {
        match event {
            LoginEvent::QrReady => Some(("请使用 QQ 音乐 App 扫描二维码"@, false)),
            LoginEvent::WaitingScan => Some(("等待扫码…"@, false)),
            LoginEvent::WaitingConfirm => Some(("已扫码，请在手机上确认登录"@, false)),
            LoginEvent::Succeeded => Some(("登录成功，正在加载音乐库…"@, false)),
            LoginEvent::Expired => None,
            LoginEvent::Failed(error) => Some(
                ("扫码登录失败："@ + error@ + "；点击二维码区域重试"@, true),
            ),
        }
    }

    /// Takes in a report of a sign-in; one of an earlier sign-in changes nothing.
    pub fn handle_login_event(&mut self, generation: u64, event: LoginEvent) -> (next: (
        AccountAction,
        Option<StatusMessage>,
    ))
        ensures
            generation != old(self).login_generation ==> *final(self) == *old(self) && next.0
                == AccountAction::Nothing && next.1 is None,
            generation == old(self).login_generation ==> {
                &&& *final(self) == old(self).after(event)
                &&& next.0 == Self::login_action(event)
                &&& match Self::login_text(event) {
                    Some((text, is_error)) => next.1 is Some && next.1.unwrap().says(
                        text,
                        is_error,
                    ),
                    None => next.1 is None,
                }
            },
    {
        if self.login_generation != generation {
            return (AccountAction::Nothing, None);
        }
        match event {
            LoginEvent::QrReady => {
                self.code_shown = true;
                (
                    AccountAction::ShowCode,
                    Some(StatusMessage::info("请使用 QQ 音乐 App 扫描二维码".to_owned())),
                )
            },
            LoginEvent::WaitingScan => (
                AccountAction::Nothing,
                Some(StatusMessage::info("等待扫码…".to_owned())),
            ),
            LoginEvent::WaitingConfirm => (
                AccountAction::Nothing,
                Some(StatusMessage::info("已扫码，请在手机上确认登录".to_owned())),
            ),
            LoginEvent::Succeeded => {
                self.state = AccountState::SignedIn;
                self.code_shown = false;
                (
                    AccountAction::Enter,
                    Some(StatusMessage::info("登录成功，正在加载音乐库…".to_owned())),
                )
            },
            LoginEvent::Expired => {
                self.state = AccountState::SignedOut;
                self.code_shown = false;
                (AccountAction::BeginLogin, None)
            },
            LoginEvent::Failed(error) => {
                self.state = AccountState::SignedOut;
                self.code_shown = false;
                (
                    AccountAction::Nothing,
                    Some(
                        StatusMessage::error(
                            framed(
                                "扫码登录失败：",
                                error.as_str(),
                                "；点击二维码区域重试",
                            ),
                        ),
                    ),
                )
            },
        }
    }

    /// Signs out.
    pub fn logout(&mut self)
        ensures
            *final(self) == (Account {
                state: AccountState::SignedOut,
                login_generation: next_count(old(self).login_generation),
                code_shown: false,
            }),
    {
        self.login_generation = self.login_generation.wrapping_add(1);
        self.state = AccountState::SignedOut;
        self.code_shown = false;
    }
}

/// Whether a report ends its sign-in.
pub fn ends_login(event: &LoginEvent) -> (result: bool)
    ensures
        result == (event is Succeeded || event is Expired || event is Failed),
{
    match event {
        LoginEvent::Succeeded => true,
        LoginEvent::Expired => true,
        LoginEvent::Failed(_) => true,
        _ => false,
    }
}

/// A code that ran out is followed by a new one, and signing out by a new sign-in:
/// the listener is never left without a way in.
pub proof fn sign_in_can_always_begin(account: Account)
    ensures
        account.after(LoginEvent::Expired).may_begin(),
        account.after(LoginEvent::Expired).begun().state == AccountState::SigningIn,
        account.begun().state == AccountState::SigningIn || account.state
            == AccountState::Restoring,
{
}

/// A sign-in goes from a code that is shown to success or failure: success signs in,
/// failure and a code that ran out sign out, and neither leaves a code on show. While one
/// is under way, or an earlier one is being restored, no other begins; one that begins makes
/// reports of earlier ones come too late.
pub proof fn sign_in_goes_step_by_step(account: Account, event: LoginEvent)
    ensures
        ({
            let after = account.after(event);
            &&& event is QrReady ==> after.code_shown && after.state == account.state
            &&& event is WaitingScan || event is WaitingConfirm ==> after == account
            &&& event is Succeeded ==> after.state == AccountState::SignedIn && !after.code_shown
            &&& event is Expired || event is Failed ==> after.state == AccountState::SignedOut
                && !after.code_shown
            &&& after.login_generation == account.login_generation
        }),
        account.state == AccountState::Restoring || account.state == AccountState::SigningIn
            ==> account.begun() == account,
        account.state != AccountState::Restoring && account.state != AccountState::SigningIn ==> {
            let begun = account.begun();
            &&& begun.state == AccountState::SigningIn && !begun.code_shown
            &&& begun.login_generation != account.login_generation
        },
        Account::login_action(LoginEvent::QrReady) == AccountAction::ShowCode,
        Account::login_action(LoginEvent::Succeeded) == AccountAction::Enter,
        Account::login_action(LoginEvent::Expired) == AccountAction::BeginLogin,
        event is WaitingScan || event is WaitingConfirm || event is Failed
            ==> Account::login_action(event) == AccountAction::Nothing,
{
}

/// Each step of a sign-in is told, a failure alone as an error, with what went wrong; of a
/// code that ran out nothing is told, as a new one follows.
pub proof fn only_a_failure_is_an_error(event: LoginEvent)
    ensures
        Account::login_text(event) is None <==> event is Expired,
        Account::login_text(event) matches Some((text, is_error)) ==> (is_error <==> event is Failed),
{
}

} // verus!
