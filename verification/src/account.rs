//! The acquisition of the connection settings: which value comes from
//! the store, which is asked of the operator, which is checked, and
//! whether the store is written afterwards.
//!
//! The caller owns the console and the identity provider. It performs
//! the request that [`Acquisition::pending`] names, hands the reply to
//! [`Acquisition::step`], and goes on until the request is
//! [`Request::Finish`].

use crate::store::{lookup_in, store_contents, store_get, StoreValue, StoreView};
use crate::text::{trim, Line};
use vstd::prelude::*;
use vstd::string::*;

verus! {

/// The settings of a connection.
#[derive(Debug)]
pub struct Settings {
    pub nickname: String,
    pub token: String,
    pub url: String,
}

impl Clone for Settings {
    fn clone(&self) -> (copy: Self)
        ensures
            copy@ == self@,
    {
        Settings {
            nickname: self.nickname.clone(),
            token: self.token.clone(),
            url: self.url.clone(),
        }
    }
}

/// Settings as mathematical values.
pub struct SettingsView {
    pub nickname: Seq<char>,
    pub token: Seq<char>,
    pub url: Seq<char>,
}

impl View for Settings {
    type V = SettingsView;

    open spec fn view(&self) -> SettingsView {
        SettingsView { nickname: self.nickname@, token: self.token@, url: self.url@ }
    }
}

/// The endpoint that is used when the store names none.
pub open spec fn default_url() -> Seq<char> {
    "wss://irc-ws.chat.twitch.tv:443"@
}

/// The key of the endpoint.
pub open spec fn url_key() -> Seq<char> {
    "url"@
}

/// The key of the nickname.
pub open spec fn nickname_key() -> Seq<char> {
    "nickname"@
}

/// The key of the credential.
pub open spec fn token_key() -> Seq<char> {
    "token"@
}

/// The values that the operator may be asked for.
#[derive(Debug, Clone, Copy, PartialEq, Eq, Structural)]
pub enum Field {
    Nickname,
    Token,
}

/// Why the operator is asked for a value.
#[derive(Debug, Clone, Copy, PartialEq, Eq, Structural)]
pub enum Notice {
    /// The store holds an empty value.
    Empty,
    /// The store holds no value.
    Missing,
    /// The operator's last answer was blank.
    Blank,
    /// The identity provider rejected the credential.
    Rejected,
}

/// What the caller hands back after it has performed a request.
#[derive(Debug)]
pub enum Reply {
    /// The line that the operator typed.
    Typed(String),
    /// Whether the identity provider accepted the credential.
    Checked(bool),
}

/// Where the acquisition stands.
#[derive(Debug, Clone, Copy, PartialEq, Eq, Structural)]
pub enum Stage {
    /// The operator is asked for a nickname.
    AskNickname(Notice),
    /// The operator is asked for a credential, for want of a stored one.
    AskToken(Notice),
    /// The credential is with the identity provider.
    CheckToken,
    /// The operator is asked for a credential in place of a rejected one.
    AskOtherToken,
    /// The settings are complete.
    Finished,
}

/// What the caller is to do next.
#[derive(Debug)]
pub enum Request {
    /// Show this notice and read a line from the operator.
    Ask(Field, Notice),
    /// Have this credential checked by the identity provider.
    Check(String),
    /// Nothing more: these are the settings, to be written to the store
    /// first where `save` is set.
    Finish { settings: Settings, save: bool },
}

/// A request as mathematical values.
pub enum RequestView {
    Ask(Field, Notice),
    Check(Seq<char>),
    Finish { settings: SettingsView, save: bool },
}

impl View for Request {
    type V = RequestView;

    open spec fn view(&self) -> RequestView {
        match self {
            Request::Ask(field, notice) => RequestView::Ask(*field, *notice),
            Request::Check(token) => RequestView::Check(token@),
            Request::Finish { settings, save } => RequestView::Finish {
                settings: settings@,
                save: *save,
            },
        }
    }
}

/// An acquisition as mathematical values. `stored_token` is what the
/// store gave for the credential; it counts when the nickname is known.
pub struct AcquisitionView {
    pub stage: Stage,
    pub settings: SettingsView,
    pub save: bool,
    pub stored_token: StoreView,
}

/// The request that a state asks the caller to perform.
pub open spec fn request_of(state: AcquisitionView) -> RequestView {
    match state.stage {
        Stage::AskNickname(notice) => RequestView::Ask(Field::Nickname, notice),
        Stage::AskToken(notice) => RequestView::Ask(Field::Token, notice),
        Stage::CheckToken => RequestView::Check(state.settings.token),
        Stage::AskOtherToken => RequestView::Ask(Field::Token, Notice::Rejected),
        Stage::Finished => RequestView::Finish { settings: state.settings, save: state.save },
    }
}

/// The endpoint for what the store gave: a stored endpoint as it is,
/// else the default.
pub open spec fn url_from(url: StoreView) -> Seq<char> {
    match url {
        StoreView::Found(text) => text,
        _ => default_url(),
    }
}

/// The state once the nickname is known: the credential that the store
/// gave is taken up. One that is not empty is checked; for an empty or
/// a missing one the operator is asked; after a failed lookup the
/// credential stays empty and the acquisition ends.
pub open spec fn with_token(state: AcquisitionView) -> AcquisitionView {
    match state.stored_token {
        StoreView::Found(token) => if token.len() == 0 {
            AcquisitionView { stage: Stage::AskToken(Notice::Empty), ..state }
        } else {
            AcquisitionView {
                stage: Stage::CheckToken,
                settings: SettingsView { token, ..state.settings },
                ..state
            }
        },
        StoreView::NotFound => AcquisitionView { stage: Stage::AskToken(Notice::Missing), ..state },
        StoreView::Failed => AcquisitionView {
            stage: Stage::Finished,
            settings: SettingsView { token: Seq::empty(), ..state.settings },
            ..state
        },
    }
}

/// The state in which an acquisition begins, from what the store gave
/// for the three keys. Without a stored endpoint the default is taken,
/// and it is saved only where the store simply lacked the key. A stored
/// nickname that is not empty is taken; for an empty or a missing one
/// the operator is asked; after a failed lookup the nickname stays
/// empty.
pub open spec fn start_from(
    url: StoreView,
    nickname: StoreView,
    token: StoreView,
) -> AcquisitionView {
    let base = AcquisitionView {
        stage: Stage::Finished,
        settings: SettingsView { nickname: Seq::empty(), token: Seq::empty(), url: url_from(url) },
        save: url is NotFound,
        stored_token: token,
    };
    match nickname {
        StoreView::Found(name) => if name.len() == 0 {
            AcquisitionView { stage: Stage::AskNickname(Notice::Empty), ..base }
        } else {
            with_token(
                AcquisitionView {
                    settings: SettingsView { nickname: name, ..base.settings },
                    ..base
                },
            )
        },
        StoreView::NotFound => AcquisitionView {
            stage: Stage::AskNickname(Notice::Missing),
            ..base
        },
        StoreView::Failed => with_token(base),
    }
}

/// The state in which an acquisition begins with a store of these
/// contents.
pub open spec fn start_of(contents: Map<Seq<char>, Option<Seq<char>>>) -> AcquisitionView {
    start_from(
        lookup_in(contents, url_key()),
        lookup_in(contents, nickname_key()),
        lookup_in(contents, token_key()),
    )
}

/// The state after the operator typed a nickname. An answer that is not
/// blank is taken without the whitespace around it, and is saved; after
/// a blank one the operator is asked again.
pub open spec fn after_typed_nickname(state: AcquisitionView, line: Seq<char>) -> AcquisitionView {
    if trim(line).len() == 0 {
        AcquisitionView { stage: Stage::AskNickname(Notice::Blank), ..state }
    } else {
        with_token(
            AcquisitionView {
                settings: SettingsView { nickname: trim(line), ..state.settings },
                save: true,
                ..state
            },
        )
    }
}

/// The state after the operator typed a credential for an empty or a
/// missing one. An answer that is not blank is taken without the
/// whitespace around it, and is saved; after a blank one the operator is
/// asked again.
pub open spec fn after_typed_token(state: AcquisitionView, line: Seq<char>) -> AcquisitionView {
    if trim(line).len() == 0 {
        AcquisitionView { stage: Stage::AskToken(Notice::Blank), ..state }
    } else {
        AcquisitionView {
            stage: Stage::Finished,
            settings: SettingsView { token: trim(line), ..state.settings },
            save: true,
            ..state
        }
    }
}

/// The state after the identity provider answered: an accepted
/// credential ends the acquisition, for a rejected one the operator is
/// asked for another.
pub open spec fn after_check(state: AcquisitionView, accepted: bool) -> AcquisitionView {
    if accepted {
        AcquisitionView { stage: Stage::Finished, ..state }
    } else {
        AcquisitionView { stage: Stage::AskOtherToken, ..state }
    }
}

/// The state after the operator typed a credential in place of a
/// rejected one: the answer is taken without the whitespace around it,
/// whatever is left, is saved, and is checked in its turn.
pub open spec fn after_other_token(state: AcquisitionView, line: Seq<char>) -> AcquisitionView {
    AcquisitionView {
        stage: Stage::CheckToken,
        settings: SettingsView { token: trim(line), ..state.settings },
        save: true,
        ..state
    }
}

/// The state after a reply. A reply that does not answer the pending
/// request changes nothing, and nothing changes a finished acquisition.
pub open spec fn next_state(state: AcquisitionView, reply: Reply) -> AcquisitionView {
    match (state.stage, reply) {
        (Stage::AskNickname(_), Reply::Typed(line)) => after_typed_nickname(state, line@),
        (Stage::AskToken(_), Reply::Typed(line)) => after_typed_token(state, line@),
        (Stage::CheckToken, Reply::Checked(accepted)) => after_check(state, accepted),
        (Stage::AskOtherToken, Reply::Typed(line)) => after_other_token(state, line@),
        _ => state,
    }
}

/// The store is written exactly for a missing endpoint or for a value
/// that the operator typed: what is once to be saved stays so, only a
/// typed line makes it so, and every typed line that changes the
/// settings does.
pub proof fn lemma_save_follows_operator(state: AcquisitionView, reply: Reply)
    ensures
        state.save ==> next_state(state, reply).save,
        next_state(state, reply).save && !state.save ==> reply is Typed,
        reply is Typed && next_state(state, reply).settings != state.settings ==> next_state(
            state,
            reply,
        ).save,
{
}

/// An acquisition begins with the store to be written exactly when the
/// store lacks the endpoint.
pub proof fn lemma_start_saves_default_url(url: StoreView, nickname: StoreView, token: StoreView)
    ensures
        start_from(url, nickname, token).save <==> url is NotFound,
        start_from(url, nickname, token).settings.url == url_from(url),
{
}

/// A nickname or a credential that the operator was asked for, for want
/// of a stored one, is never accepted blank.
pub proof fn lemma_typed_values_are_not_blank(state: AcquisitionView, line: Seq<char>)
    ensures
        !(after_typed_nickname(state, line).stage is AskNickname) ==> after_typed_nickname(
            state,
            line,
        ).settings.nickname.len() > 0,
        after_typed_token(state, line).stage == Stage::Finished ==> after_typed_token(
            state,
            line,
        ).settings.token.len() > 0,
{
}

/// The acquisition of the settings of one connection.
#[derive(Debug)]
pub struct Acquisition {
    pub stage: Stage,
    pub settings: Settings,
    pub save: bool,
    pub stored_token: StoreValue,
}

impl View for Acquisition {
    type V = AcquisitionView;

    open spec fn view(&self) -> AcquisitionView {
        AcquisitionView {
            stage: self.stage,
            settings: self.settings@,
            save: self.save,
            stored_token: self.stored_token@,
        }
    }
}

/// The line without the whitespace around it.
pub fn trimmed(line: &str) -> (value: String)
    ensures
        value@ == trim(line@),
{
    let typed = Line::new(line);
    let (start, end) = typed.trim_bounds(0, typed.len());
    proof {
        assert(typed@.subrange(0, typed@.len() as int) =~= line@);
    }
    typed.cut(start, end)
}

impl Acquisition {
    /// Begins an acquisition with the store: looks up the endpoint, the
    /// nickname and the credential, and goes on from what it finds.
    pub fn begin(store: &config::Config) -> (a: Self)
        ensures
            a@ == start_of(store_contents(*store)),
    {
        proof {
            reveal_strlit("url");
            reveal_strlit("nickname");
            reveal_strlit("token");
        }
        let url = store_get(store, "url");
        let nickname = store_get(store, "nickname");
        let token = store_get(store, "token");
        Acquisition::begin_from(url, nickname, token)
    }

    /// Begins an acquisition from what the store gave for the endpoint,
    /// the nickname and the credential.
    pub fn begin_from(url: StoreValue, nickname: StoreValue, token: StoreValue) -> (a: Self)
        ensures
            a@ == start_from(url@, nickname@, token@),
    {
        let save = match &url {
            StoreValue::NotFound => true,
            _ => false,
        };
        let endpoint = match url {
            StoreValue::Found(text) => text,
            _ => "wss://irc-ws.chat.twitch.tv:443".to_owned(),
        };
        let mut a = Acquisition {
            stage: Stage::Finished,
            settings: Settings { nickname: String::new(), token: String::new(), url: endpoint },
            save,
            stored_token: token,
        };
        match nickname {
            StoreValue::Found(name) => {
                if name.as_str().is_empty() {
                    a.stage = Stage::AskNickname(Notice::Empty);
                } else {
                    a.settings.nickname = name;
                    a.take_stored_token();
                }
            },
            StoreValue::NotFound => {
                a.stage = Stage::AskNickname(Notice::Missing);
            },
            StoreValue::Failed => {
                a.take_stored_token();
            },
        }
        a
    }

    /// Takes up the credential that the store gave.
    fn take_stored_token(&mut self)
        ensures
            final(self)@ == with_token(old(self)@),
    {
        match &self.stored_token {
            StoreValue::Found(token) => {
                if token.as_str().is_empty() {
                    self.stage = Stage::AskToken(Notice::Empty);
                } else {
                    self.settings.token = token.clone();
                    self.stage = Stage::CheckToken;
                }
            },
            StoreValue::NotFound => {
                self.stage = Stage::AskToken(Notice::Missing);
            },
            StoreValue::Failed => {
                self.settings.token = String::new();
                self.stage = Stage::Finished;
            },
        }
    }

    /// Tells whether the settings are complete.
    pub fn is_finished(&self) -> (b: bool)
        ensures
            b == (self@.stage == Stage::Finished),
    {
        self.stage == Stage::Finished
    }

    /// The request that the caller is to perform now.
    pub fn pending(&self) -> (request: Request)
        ensures
            request@ == request_of(self@),
    {
        match self.stage {
            Stage::AskNickname(notice) => Request::Ask(Field::Nickname, notice),
            Stage::AskToken(notice) => Request::Ask(Field::Token, notice),
            Stage::CheckToken => Request::Check(self.settings.token.clone()),
            Stage::AskOtherToken => Request::Ask(Field::Token, Notice::Rejected),
            Stage::Finished => Request::Finish { settings: self.settings.clone(), save: self.save },
        }
    }

    /// Takes the nickname that the operator typed, unless it is blank.
    fn take_typed_nickname(&mut self, line: &str)
        ensures
            final(self)@ == after_typed_nickname(old(self)@, line@),
    {
        let nickname = trimmed(line);
        if nickname.as_str().is_empty() {
            self.stage = Stage::AskNickname(Notice::Blank);
        } else {
            self.settings.nickname = nickname;
            self.save = true;
            self.take_stored_token();
        }
    }

    /// Takes the credential that the operator typed, unless it is blank.
    fn take_typed_token(&mut self, line: &str)
        ensures
            final(self)@ == after_typed_token(old(self)@, line@),
    {
        let token = trimmed(line);
        if token.as_str().is_empty() {
            self.stage = Stage::AskToken(Notice::Blank);
        } else {
            self.settings.token = token;
            self.save = true;
            self.stage = Stage::Finished;
        }
    }

    /// Takes the reply to the pending request and names the next request.
    pub fn step(&mut self, reply: Reply) -> (request: Request)
        ensures
            final(self)@ == next_state(old(self)@, reply),
            request@ == request_of(final(self)@),
    {
        match (self.stage, reply) {
            (Stage::AskNickname(_), Reply::Typed(line)) => {
                self.take_typed_nickname(line.as_str());
            },
            (Stage::AskToken(_), Reply::Typed(line)) => {
                self.take_typed_token(line.as_str());
            },
            (Stage::CheckToken, Reply::Checked(accepted)) => {
                if accepted {
                    self.stage = Stage::Finished;
                } else {
                    self.stage = Stage::AskOtherToken;
                }
            },
            (Stage::AskOtherToken, Reply::Typed(line)) => {
                self.settings.token = trimmed(line.as_str());
                self.save = true;
                self.stage = Stage::CheckToken;
            },
            _ => {},
        }
        self.pending()
    }
}

} // verus!
