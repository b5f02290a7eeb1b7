use losker::auth::Outcome;
use losker::sessions::Session;
use losker::ui::lock::{exit_recheck, lock_preflight, lock_user, LockRefusal, LockState, EXIT_NO_DISPLAY, EXIT_AUTH_FATAL, EXIT_LOCK_LOST, EXIT_NOT_ACQUIRED, EXIT_UNLOCKED};
use losker::ui::osk::OskEvent;
use losker::ui::{greeter_user, key_event, Greeter, PhysKey, Stage, UiAction};

fn msg(text: &str, err: bool) -> UiAction {
    UiAction::Message { text: text.to_string(), err }
}

fn type_in(g: &mut Greeter, s: &str) {
    for c in s.chars() {
        g.key(OskEvent::Char(c));
    }
}

fn sessions() -> Vec<Session> {
    vec![
        Session { name: "niri".into(), cmd: "niri-session".into() },
        Session { name: "Sway".into(), cmd: "sway".into() },
    ]
}

#[test]
fn one_ret_opens_the_session_and_answers_the_prompt() {
    let mut g = Greeter::new(false, "rbc".into(), sessions(), Some("sway"));
    assert_eq!(g.session_idx, 1);
    type_in(&mut g, "hunter2");
    let a = g.key(OskEvent::Enter);
    assert_eq!(
        a,
        vec![
            msg("opening session …", false),
            UiAction::Begin { username: "rbc".into(), session_cmd: "sway".into() }
        ]
    );
    assert!(g.busy);
    // RET while busy does nothing
    assert!(g.key(OskEvent::Enter).is_empty());
    let a = g.outcome(Outcome::Prompt("Password: ".into()));
    assert_eq!(
        a,
        vec![
            msg("verifying credentials …", false),
            UiAction::Dots(0),
            UiAction::Answer { password: "hunter2".into(), session_cmd: "sway".into() }
        ]
    );
    assert_eq!(g.pending_pw, None);
    assert!(g.buffer.is_empty());
    let a = g.outcome(Outcome::Granted);
    assert!(a.contains(&UiAction::SaveState { user: "rbc".into(), session: "sway".into() }));
    assert_eq!(a.last(), Some(&UiAction::LeaveAfter { ms: 900, code: 0 }));
}

#[test]
fn a_prompt_without_a_queued_password_asks_for_it() {
    let mut g = Greeter::new(false, "rbc".into(), sessions(), None);
    let a = g.outcome(Outcome::Prompt("Password: ".into()));
    assert_eq!(a, vec![UiAction::Dots(0), msg("Password: ", false)]);
    assert_eq!(g.stage, Stage::Password);
    type_in(&mut g, "pw");
    let a = g.key(OskEvent::Enter);
    assert_eq!(
        a,
        vec![
            msg("verifying credentials …", false),
            UiAction::Answer { password: "pw".into(), session_cmd: "niri-session".into() }
        ]
    );
}

#[test]
fn failures_start_over_and_empty_ret_asks() {
    let mut g = Greeter::new(false, "rbc".into(), sessions(), None);
    assert_eq!(g.key(OskEvent::Enter), vec![msg("type the password first", false)]);
    type_in(&mut g, "wrong");
    g.key(OskEvent::Enter);
    let a = g.outcome(Outcome::AuthFailed("Authentication failure".into()));
    assert_eq!(
        a,
        vec![
            UiAction::Glitch,
            msg("ACCESS DENIED — type the password and press RET", true),
            UiAction::Boot("[ FAILED ] authentication: Authentication failure".into()),
            UiAction::Cancel,
            UiAction::Dots(0),
        ]
    );
    assert_eq!(g.stage, Stage::Fresh);
    assert_eq!(g.pending_pw, None);
    assert!(!g.busy && g.buffer.is_empty());
    let a = g.outcome(Outcome::Fatal("socket gone".into()));
    assert_eq!(a, vec![msg("error: socket gone", true), UiAction::Boot("[ ERROR ] socket gone".into())]);
}

#[test]
fn dots_count_bytes_and_backspace_pops() {
    let mut g = Greeter::new(false, "rbc".into(), vec![], None);
    assert_eq!(g.key(OskEvent::Char('a')), vec![UiAction::Dots(1)]);
    assert_eq!(g.key(OskEvent::Char('é')), vec![UiAction::Dots(3)]);
    assert_eq!(g.key(OskEvent::Backspace), vec![UiAction::Dots(1)]);
    assert_eq!(g.key(OskEvent::Backspace), vec![UiAction::Dots(0)]);
    assert_eq!(g.key(OskEvent::Backspace), vec![UiAction::Dots(0)]);
    // no sessions: the default command
    assert_eq!(g.session_cmd(), "niri-session");
}

#[test]
fn session_row_cycles_and_wraps() {
    let mut g = Greeter::new(false, "rbc".into(), sessions(), None);
    assert_eq!(g.cycle_session().as_deref(), Some("Sway ▾"));
    assert_eq!(g.cycle_session().as_deref(), Some("niri ▾"));
    let mut empty = Greeter::new(false, "rbc".into(), vec![], None);
    assert_eq!(empty.cycle_session(), None);
}

#[test]
fn greeter_lock_mode_goes_straight_to_pam() {
    let mut g = Greeter::new(true, "rbc".into(), vec![], None);
    type_in(&mut g, "pw");
    assert_eq!(
        g.key(OskEvent::Enter),
        vec![msg("verifying credentials …", false), UiAction::Dots(0), UiAction::Authenticate("pw".into())]
    );
    assert!(g.buffer.is_empty());
}

#[test]
fn usernames() {
    assert_eq!(greeter_user(true, Some("alice"), Some("bob")), "alice");
    assert_eq!(greeter_user(true, Some(""), Some("bob")), "bob");
    assert_eq!(greeter_user(false, Some("alice"), Some("bob")), "bob");
    assert_eq!(greeter_user(false, None, None), "rbc");
    assert_eq!(lock_user(Some("alice"), Some("bob")), Some("alice".into()));
    assert_eq!(lock_user(Some(""), None), None);
    assert_eq!(lock_user(None, Some("bob")), Some("bob".into()));
}

#[test]
fn physical_keys_map_to_deck_events() {
    assert_eq!(key_event(PhysKey::BackSpace), Some(OskEvent::Backspace));
    assert_eq!(key_event(PhysKey::KpEnter), Some(OskEvent::Enter));
    assert_eq!(key_event(PhysKey::Other(Some('x'))), Some(OskEvent::Char('x')));
    assert_eq!(key_event(PhysKey::Other(Some('\t'))), None);
    assert_eq!(key_event(PhysKey::Other(Some('\u{85}'))), None);
    assert_eq!(key_event(PhysKey::Other(None)), None);
}

fn lock_type(s: &mut LockState, text: &str) {
    for c in text.chars() {
        s.key(OskEvent::Char(c));
    }
}

#[test]
fn lock_submits_to_pam_and_gates_ret() {
    let mut s = LockState::new(false);
    assert_eq!(s.exit_rc, EXIT_LOCK_LOST);
    lock_type(&mut s, "pw");
    assert_eq!(
        s.key(OskEvent::Enter),
        vec![msg("verifying credentials …", false), UiAction::Dots(0), UiAction::Authenticate("pw".into())]
    );
    assert!(s.busy);
    assert!(s.key(OskEvent::Enter).is_empty());
    let a = s.outcome(Outcome::AuthFailed("Authentication failure".into()));
    assert!(s.cooldown && !s.busy);
    assert_eq!(a.last(), Some(&UiAction::EndCooldownAfter(2000)));
    // typing stays live during the cooldown; RET does not
    lock_type(&mut s, "x");
    assert_eq!(s.buffer, "x");
    assert!(s.key(OskEvent::Enter).is_empty());
    s.end_cooldown();
    assert_eq!(s.key(OskEvent::Enter).last(), Some(&UiAction::Authenticate("x".into())));
}

#[test]
fn lock_grant_leaves_unlocked_and_late_outcomes_are_ignored() {
    let mut s = LockState::new(false);
    let a = s.outcome(Outcome::Granted);
    assert_eq!(
        a,
        vec![
            UiAction::Bloom,
            msg("ACCESS RESTORED — welcome back, operator", false),
            UiAction::Boot("[  OK  ] authentication passed".into()),
            UiAction::LeaveAfter { ms: 900, code: EXIT_UNLOCKED },
        ]
    );
    assert!(s.leaving);
    assert!(s.outcome(Outcome::AuthFailed("late".into())).is_empty());
    lock_type(&mut s, "pw");
    assert!(s.key(OskEvent::Enter).is_empty());
}

#[test]
fn lock_fatal_fails_open() {
    let mut s = LockState::new(false);
    let a = s.outcome(Outcome::Fatal("pam_start failed".into()));
    assert_eq!(a.last(), Some(&UiAction::LeaveAfter { ms: 1500, code: EXIT_AUTH_FATAL }));
    assert!(s.leaving);
}

#[test]
fn exit_is_decided_once_and_unlocks_first() {
    let mut s = LockState::new(false);
    assert_eq!(s.request_exit(EXIT_NOT_ACQUIRED, true), vec![UiAction::Unlock, UiAction::RecheckAfter(1500)]);
    assert!(s.request_exit(EXIT_UNLOCKED, false).is_empty());
    assert_eq!(s.exit_rc, EXIT_NOT_ACQUIRED);
    let mut q = LockState::new(false);
    assert_eq!(q.request_exit(EXIT_UNLOCKED, false), vec![UiAction::Quit, UiAction::RecheckAfter(1500)]);
    assert_eq!(exit_recheck(true), UiAction::Unlock);
    assert_eq!(exit_recheck(false), UiAction::Quit);
}

#[test]
fn preview_grants_only_demo() {
    let mut s = LockState::new(true);
    assert_eq!(s.exit_rc, EXIT_UNLOCKED);
    lock_type(&mut s, "demo");
    assert_eq!(s.key(OskEvent::Enter).last(), Some(&UiAction::Later { ms: 450, outcome: Outcome::Granted }));
    let mut s = LockState::new(true);
    lock_type(&mut s, "nope");
    assert_eq!(
        s.key(OskEvent::Enter).last(),
        Some(&UiAction::Later {
            ms: 450,
            outcome: Outcome::AuthFailed("demo — PAM not armed in preview".into())
        })
    );
    let a = s.outcome(Outcome::AuthFailed("demo — PAM not armed in preview".into()));
    assert_eq!(a[1], msg("DENIED — preview: only the password 'demo' grants", true));
}

#[test]
fn backspace_undoes_the_last_char_on_both_screens() {
    let mut g = Greeter::new(false, "rbc".into(), vec![], None);
    type_in(&mut g, "ab");
    g.key(OskEvent::Char('ß'));
    g.key(OskEvent::Backspace);
    assert_eq!(g.buffer, "ab");
    let mut s = LockState::new(false);
    lock_type(&mut s, "xy");
    s.key(OskEvent::Backspace);
    assert_eq!(s.buffer, "x");
}

#[test]
fn lock_refuses_before_locking() {
    let me = Some("alice");
    assert_eq!(lock_preflight(false, true, Some(40), me, None), Err(LockRefusal::NoDisplay));
    assert_eq!(LockRefusal::NoDisplay.code(), EXIT_NO_DISPLAY);
    assert_eq!(lock_preflight(true, false, Some(40), me, None), Err(LockRefusal::Unsupported));
    assert_eq!(lock_preflight(true, true, None, me, None), Err(LockRefusal::PamMissing));
    assert_eq!(lock_preflight(true, true, Some(0), me, None), Err(LockRefusal::PamEmpty));
    assert_eq!(lock_preflight(true, true, Some(40), None, None), Err(LockRefusal::NoAccount));
    assert_eq!(lock_preflight(true, true, Some(40), Some(""), None), Err(LockRefusal::NoAccount));
    for r in [
        LockRefusal::Unsupported,
        LockRefusal::PamMissing,
        LockRefusal::PamEmpty,
        LockRefusal::NoAccount,
    ] {
        assert_eq!(r.code(), EXIT_NOT_ACQUIRED);
    }
    assert_eq!(lock_preflight(true, true, Some(40), me, Some("bob")), Ok("alice".to_string()));
    assert_eq!(lock_preflight(true, true, Some(40), Some(""), Some("bob")), Ok("bob".to_string()));
}
