//! The decisions of the authentication handshake: what each greetd reply
//! means for the login, and what a PAM result means for the lock.
//! Transport and threads live with the caller; these functions decide.

use crate::greetd_ipc::{ErrorType, Request, Response};
use crate::text::chars_of;
use vstd::prelude::*;

verus! {

/// How an authentication attempt ended (or what it asks for next).
#[derive(Debug, Clone, PartialEq)]
pub enum Outcome {
    /// PAM wants the password (message text, usually "Password: ")
    Prompt(String),
    /// the session is starting / the lock may open
    Granted,
    /// wrong credentials; retry from the beginning
    AuthFailed(String),
    /// protocol, transport or configuration failure
    Fatal(String),
}

pub enum SpecOutcome {
    Prompt(Seq<char>),
    Granted,
    AuthFailed(Seq<char>),
    Fatal(Seq<char>),
}

impl View for Outcome {
    type V = SpecOutcome;

    open spec fn view(&self) -> SpecOutcome {
        match self {
            Outcome::Prompt(m) => SpecOutcome::Prompt(m@),
            Outcome::Granted => SpecOutcome::Granted,
            Outcome::AuthFailed(d) => SpecOutcome::AuthFailed(d@),
            Outcome::Fatal(d) => SpecOutcome::Fatal(d@),
        }
    }
}

/// A greetd error: a failed authentication or a fatal one.
pub open spec fn spec_classify(error_type: ErrorType, description: Seq<char>) -> SpecOutcome {
    match error_type {
        ErrorType::AuthError => SpecOutcome::AuthFailed(description),
        ErrorType::Error => SpecOutcome::Fatal(description),
    }
}

pub fn classify(error_type: ErrorType, description: String) -> (r: Outcome)
    ensures
        r@ == spec_classify(error_type, description@),
{
    match error_type {
        ErrorType::AuthError => Outcome::AuthFailed(description),
        ErrorType::Error => Outcome::Fatal(description),
    }
}

/// What to do after greetd answered `create_session` or a password.
#[derive(Debug, Clone, PartialEq)]
pub enum Next {
    /// report this outcome to the UI
    Report(Outcome),
    /// no (more) questions: start the session now
    StartSession,
}

/// A reply to `create_session` or to an answered prompt: a question is
/// a prompt, success means the session can start, an error is classified.
pub fn after_reply(resp: Response) -> (r: Next)
    ensures
        match resp {
            Response::AuthMessage { auth_message, .. } => r matches Next::Report(o) && o@
                == SpecOutcome::Prompt(auth_message@),
            Response::Success => r matches Next::StartSession,
            Response::Error { error_type, description } => r matches Next::Report(o) && o@
                == spec_classify(error_type, description@),
        },
{
    match resp {
        Response::AuthMessage { auth_message, .. } => Next::Report(Outcome::Prompt(auth_message)),
        Response::Success => Next::StartSession,
        Response::Error { error_type, description } => Next::Report(
            classify(error_type, description),
        ),
    }
}

/// The `start_session` request for a session command, with no extra
/// environment.
pub fn start_request(session_cmd: &str) -> (r: Request)
    ensures
        r matches Request::StartSession { cmd, env } && cmd@.len() == 1 && cmd@[0]@
            == session_cmd@ && env@.len() == 0,
{
    let mut cmd: Vec<String> = Vec::new();
    cmd.push(session_cmd.to_owned());
    Request::StartSession { cmd, env: Vec::new() }
}

/// A reply to `start_session`: success grants, an error is fatal with its
/// description, anything else is an unexpected fatal reply.
pub fn after_start(resp: Response) -> (r: Outcome)
    ensures
        match resp {
            Response::Success => r@ == SpecOutcome::Granted,
            Response::Error { description, .. } => r@ == SpecOutcome::Fatal(description@),
            Response::AuthMessage { .. } => r@ == SpecOutcome::Fatal(
                "unexpected response to start_session"@,
            ),
        },
{
    match resp {
        Response::Success => Outcome::Granted,
        Response::Error { description, .. } => Outcome::Fatal(description),
        Response::AuthMessage { .. } => Outcome::Fatal(
            "unexpected response to start_session".to_owned(),
        ),
    }
}

/// The demo login: the password `fail` is refused, any other is accepted.
pub fn demo_answer(password: &str) -> (r: Outcome)
    ensures
        password@ == "fail"@ ==> r@ == SpecOutcome::AuthFailed("Authentication failure"@),
        password@ != "fail"@ ==> r@ == SpecOutcome::Granted,
{
    let p = chars_of(password);
    if crate::text::chars_eq(&p, "fail") {
        Outcome::AuthFailed("Authentication failure".to_owned())
    } else {
        Outcome::Granted
    }
}

/// The demo login's first question.
pub fn demo_prompt() -> (r: Outcome)
    ensures
        r@ == SpecOutcome::Prompt("Password: "@),
{
    Outcome::Prompt("Password: ".to_owned())
}

/// Inputs PAM cannot take: a NUL byte in the user name is a fatal error;
/// a NUL in the password can never match a real one, so it is a failed
/// attempt. `None`: both can be handed to PAM.
pub fn pam_input_check(username: &str, password: &str) -> (r: Option<Outcome>)
    ensures
        !no_nul(username@) ==> (r matches Some(o) && o@ == SpecOutcome::Fatal(
            "PAM: bad username"@,
        )),
        no_nul(username@) && !no_nul(password@) ==> (r matches Some(o) && o@
            == SpecOutcome::AuthFailed("Authentication failure"@)),
        no_nul(username@) && no_nul(password@) ==> r is None,
{
    if !has_no_nul(username) {
        return Some(Outcome::Fatal("PAM: bad username".to_owned()));
    }
    if !has_no_nul(password) {
        return Some(Outcome::AuthFailed("Authentication failure".to_owned()));
    }
    None
}

/// No NUL character.
pub open spec fn no_nul(s: Seq<char>) -> bool {
    forall|i: int| 0 <= i < s.len() ==> s[i] != '\0'
}

fn has_no_nul(s: &str) -> (r: bool)
    ensures
        r == no_nul(s@),
{
    let c = chars_of(s);
    let mut i: usize = 0;
    while i < c.len()
        invariant
            i <= c.len(),
            c@ == s@,
            forall|j: int| 0 <= j < i ==> c@[j] != '\0',
        decreases c.len() - i,
    {
        if c[i] == '\0' {
            return false;
        }
        i += 1;
    }
    true
}

/// A finished PAM authentication: success grants, any other code is a
/// failed attempt described by PAM's error text.
pub fn pam_result(code: i32, description: String) -> (r: Outcome)
    ensures
        code == 0 ==> r@ == SpecOutcome::Granted,
        code != 0 ==> r@ == SpecOutcome::AuthFailed(description@),
{
    if code == 0 {
        Outcome::Granted
    } else {
        Outcome::AuthFailed(description)
    }
}

} // verus!
