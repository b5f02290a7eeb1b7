use losker::auth::{
    after_reply, after_start, classify, demo_answer, demo_prompt, pam_input_check, pam_result,
    start_request, Next, Outcome,
};
use losker::greetd_ipc::{AuthMessageType, ErrorType, Request, Response};

#[test]
fn replies_become_outcomes() {
    assert_eq!(
        after_reply(Response::AuthMessage {
            auth_message_type: AuthMessageType::Secret,
            auth_message: "Password: ".into()
        }),
        Next::Report(Outcome::Prompt("Password: ".into()))
    );
    assert_eq!(after_reply(Response::Success), Next::StartSession);
    assert_eq!(
        after_reply(Response::Error { error_type: ErrorType::AuthError, description: "no".into() }),
        Next::Report(Outcome::AuthFailed("no".into()))
    );
    assert_eq!(classify(ErrorType::Error, "boom".into()), Outcome::Fatal("boom".into()));
}

#[test]
fn start_session_runs_the_command_alone() {
    assert_eq!(
        start_request("niri-session"),
        Request::StartSession { cmd: vec!["niri-session".into()], env: vec![] }
    );
    assert_eq!(after_start(Response::Success), Outcome::Granted);
    assert_eq!(
        after_start(Response::Error { error_type: ErrorType::Error, description: "x".into() }),
        Outcome::Fatal("x".into())
    );
    assert_eq!(
        after_start(Response::AuthMessage {
            auth_message_type: AuthMessageType::Info,
            auth_message: "hi".into()
        }),
        Outcome::Fatal("unexpected response to start_session".into())
    );
}

#[test]
fn demo_mode_asks_then_grants_all_but_fail() {
    assert_eq!(demo_prompt(), Outcome::Prompt("Password: ".into()));
    assert_eq!(demo_answer("fail"), Outcome::AuthFailed("Authentication failure".into()));
    assert_eq!(demo_answer("anything"), Outcome::Granted);
}

#[test]
fn pam_refuses_nul_bytes_before_the_call() {
    assert_eq!(pam_input_check("a\0b", "pw"), Some(Outcome::Fatal("PAM: bad username".into())));
    assert_eq!(
        pam_input_check("rbc", "p\0w"),
        Some(Outcome::AuthFailed("Authentication failure".into()))
    );
    assert_eq!(pam_input_check("rbc", "pw"), None);
    assert_eq!(pam_result(0, "ok".into()), Outcome::Granted);
    assert_eq!(pam_result(7, "Authentication failure".into()), Outcome::AuthFailed("Authentication failure".into()));
}
