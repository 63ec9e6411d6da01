//! Saved sign-in settings and the client state right after signing in.

use vstd::prelude::*;
use crate::keys::{login_view, AppState, LoginView};
use crate::model::{LoginFields, MainState};
use crate::session::is_fresh_session;
use crate::text::{concat, owned};
use crate::types::Chat;

verus! {

/// Sign-in settings kept between runs.
#[derive(Debug)]
pub struct SavedConfig {
    pub host: String,
    pub password: String,
    pub send_method: String,
}

/// The send method used when none was saved: AppleScript.
pub fn default_send_method() -> (r: String)
    ensures
        r@ == "apple-script"@,
{
    owned("apple-script")
}

/// The login form as first shown for saved settings: host and password
/// filled in, the private-API box ticked when that was the saved send method.
pub fn initial_login_fields(saved: &SavedConfig) -> (f: LoginFields)
    ensures
        f.host@ == saved.host@,
        f.password@ == saved.password@,
        f.use_private_api == (saved.send_method@ == "private-api"@),
        f.active_field == 0,
        f.error is None,
{
    let p = owned("private-api");
    LoginFields {
        host: saved.host.clone(),
        password: saved.password.clone(),
        use_private_api: saved.send_method.eq(&p),
        active_field: 0,
        error: None,
    }
}

/// The message the login form shows when the chat list could not be fetched.
pub open spec fn spec_chats_failed(e: Seq<char>) -> Seq<char> {
    "Failed to load chats: "@ + e
}

/// Finishes signing in once the server has answered the ping: with the chat
/// list that it sent, the signed-in client at time `now`; with the error that
/// fetching the list gave, the message for the login form.
pub fn finish_login(chats: Result<Vec<Chat>, String>, send_method: String, dir: String, now: u64) -> (r: Result<MainState, String>)
    ensures
        match chats {
            Ok(cs) => r matches Ok(s) && s.wf() && is_fresh_session(s@, cs@, send_method@, dir@, now),
            Err(e) => r matches Err(msg) && msg@ == spec_chats_failed(e@),
        },
{
    match chats {
        Ok(cs) => Ok(MainState::new(cs, send_method, dir, now)),
        Err(e) => Err(concat("Failed to load chats: ", e.as_str())),
    }
}

/// The login form with nothing filled in and the host field active.
pub fn empty_login_fields() -> (f: LoginFields)
    ensures
        login_view(f) == (LoginView {
            host: Seq::empty(),
            password: Seq::empty(),
            use_private_api: false,
            active_field: 0,
            error: None,
        }),
{
    LoginFields { host: String::new(), password: String::new(), use_private_api: false, active_field: 0, error: None }
}

/// The login form for saved settings, as a view (see `initial_login_fields`).
pub open spec fn spec_initial_login(host: Seq<char>, password: Seq<char>, send_method: Seq<char>) -> LoginView {
    LoginView {
        host,
        password,
        use_private_api: send_method == "private-api"@,
        active_field: 0,
        error: None,
    }
}

/// The first screen.  Without saved settings it is the empty login form;
/// with them it is the signed-in client when signing in with them worked
/// (`outcome` holds the result of that attempt), and otherwise the login
/// form filled in from them.
pub fn startup_state(saved: Option<SavedConfig>, outcome: Option<Result<MainState, String>>) -> (r: AppState)
    ensures
        match saved {
            None => r matches AppState::Login(f) && login_view(f) == (LoginView {
                host: Seq::empty(),
                password: Seq::empty(),
                use_private_api: false,
                active_field: 0,
                error: None,
            }),
            Some(c) => match outcome {
                Some(Ok(m)) => r matches AppState::Main(b) && *b == m,
                _ => r matches AppState::Login(f)
                    && login_view(f) == spec_initial_login(c.host@, c.password@, c.send_method@),
            },
        },
{
    match saved {
        None => AppState::Login(empty_login_fields()),
        Some(c) => match outcome {
            Some(Ok(m)) => AppState::Main(Box::new(m)),
            _ => AppState::Login(initial_login_fields(&c)),
        },
    }
}

} // verus!
