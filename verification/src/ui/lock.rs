//! The lock screen's decisions: one password buffer shared by every
//! monitor's view, PAM for the running user, a cooldown after a denial,
//! and an exit that is decided once and never leaves the session locked.
//!
//! Exit codes (the keybind wrapper respawns on anything but 0/1/2):
//!   0 authenticated and unlocked · 1 lock refused or unsupported ·
//!   2 no display · 3 lock lost without auth · 4 PAM unusable (fail open)

use crate::auth::{Outcome, SpecOutcome};
use crate::text::str_eq;
use crate::ui::osk::OskEvent;
use crate::ui::{actions_view, concat, dots, edit_buffer, msg, spec_edit, SpecUiAction, UiAction};
use vstd::prelude::*;

verus! {

pub const EXIT_UNLOCKED: i32 = 0;

pub const EXIT_NOT_ACQUIRED: i32 = 1;

pub const EXIT_NO_DISPLAY: i32 = 2;

pub const EXIT_LOCK_LOST: i32 = 3;

pub const EXIT_AUTH_FATAL: i32 = 4;

/// Re-arm delay after a denial: typing stays live, only RET is gated.
pub const COOLDOWN_MS: u64 = 2000;

/// Gap between a monitor appearing and mapping its lock surface.
pub const SETTLE_MS: u64 = 150;

/// How long the granted screen stays up before the unlock.
pub const TEARDOWN_MS: u64 = 900;

/// How long a fatal error stays up before failing open.
pub const FATAL_TEARDOWN_MS: u64 = 1500;

/// Delay of the preview's verdict.
pub const DEMO_VERDICT_MS: u64 = 450;

/// Delay before an exit re-checks that the unlock went through.
pub const EXIT_RECHECK_MS: u64 = 1500;

/// The lock screen's state.
pub struct LockState {
    /// the `--demo-l` preview: PAM is never armed
    pub demo: bool,
    pub buffer: String,
    /// authentication in flight
    pub busy: bool,
    /// after a denial: RET is gated, typing is not
    pub cooldown: bool,
    /// granted or fatal: input is dead for good, teardown under way
    pub leaving: bool,
    /// an exit was requested (it is decided once)
    pub exiting: bool,
    pub exit_rc: i32,
}

pub struct SpecLock {
    pub demo: bool,
    pub buffer: Seq<char>,
    pub busy: bool,
    pub cooldown: bool,
    pub leaving: bool,
    pub exiting: bool,
    pub exit_rc: i32,
}

impl View for LockState {
    type V = SpecLock;

    open spec fn view(&self) -> SpecLock {
        SpecLock {
            demo: self.demo,
            buffer: self.buffer@,
            busy: self.busy,
            cooldown: self.cooldown,
            leaving: self.leaving,
            exiting: self.exiting,
            exit_rc: self.exit_rc,
        }
    }
}

/// The preview's verdict on a password: only `demo` grants.
pub open spec fn demo_verdict(pw: Seq<char>) -> SpecOutcome {
    if pw == "demo"@ {
        SpecOutcome::Granted
    } else {
        SpecOutcome::AuthFailed("demo — PAM not armed in preview"@)
    }
}

/// RET: nothing while busy, cooling down or leaving; an empty buffer asks
/// for the password; otherwise the password leaves the buffer for PAM
/// (for the preview's verdict, in the preview).
pub open spec fn spec_enter(s: SpecLock) -> (SpecLock, Seq<SpecUiAction>) {
    if s.busy || s.cooldown || s.leaving {
        (s, seq![])
    } else if s.buffer.len() == 0 {
        (s, seq![msg("type the password first"@, false)])
    } else {
        let s1 = SpecLock { busy: true, buffer: seq![], ..s };
        let last = if s.demo {
            SpecUiAction::Later { ms: DEMO_VERDICT_MS, outcome: demo_verdict(s.buffer) }
        } else {
            SpecUiAction::Authenticate(s.buffer)
        };
        (s1, seq![msg("verifying credentials …"@, false), SpecUiAction::Dots(0), last])
    }
}

/// An authentication outcome. Late outcomes while leaving change nothing
/// but the busy flag. A grant leaves unlocked; a denial glitches, clears
/// the buffer and cools down; a fatal PAM error fails open.
pub open spec fn spec_lock_outcome(s0: SpecLock, o: SpecOutcome) -> (SpecLock, Seq<SpecUiAction>) {
    let s = SpecLock { busy: false, ..s0 };
    if s.leaving {
        (s, seq![])
    } else {
        match o {
            SpecOutcome::Prompt(m) => (s, seq![msg(m, false)]),
            SpecOutcome::Granted => (
                SpecLock { leaving: true, ..s },
                seq![
                    SpecUiAction::Bloom,
                    msg("ACCESS RESTORED — welcome back, operator"@, false),
                    SpecUiAction::Boot("[  OK  ] authentication passed"@),
                    SpecUiAction::LeaveAfter { ms: TEARDOWN_MS, code: EXIT_UNLOCKED },
                ],
            ),
            SpecOutcome::AuthFailed(d) => (
                SpecLock { cooldown: true, buffer: seq![], ..s },
                seq![
                    SpecUiAction::Glitch,
                    if s.demo {
                        msg("DENIED — preview: only the password 'demo' grants"@, true)
                    } else {
                        msg("ACCESS DENIED — type the password and press RET"@, true)
                    },
                    SpecUiAction::Boot("[ FAILED ] authentication: "@ + d),
                    SpecUiAction::Dots(0),
                    SpecUiAction::EndCooldownAfter(COOLDOWN_MS),
                ],
            ),
            SpecOutcome::Fatal(d) => (
                SpecLock { leaving: true, ..s },
                seq![
                    msg("error: "@ + d, true),
                    SpecUiAction::Boot("[ ERROR ] "@ + d),
                    SpecUiAction::LeaveAfter { ms: FATAL_TEARDOWN_MS, code: EXIT_AUTH_FATAL },
                ],
            ),
        }
    }
}

/// A key: characters and backspace edit the buffer (even while cooling
/// down), RET is [`spec_enter`].
pub open spec fn spec_lock_key(s: SpecLock, ev: OskEvent) -> (SpecLock, Seq<SpecUiAction>) {
    match ev {
        OskEvent::Enter => spec_enter(s),
        _ => {
            let b = spec_edit(s.buffer, ev);
            (SpecLock { buffer: b, ..s }, seq![SpecUiAction::Dots(dots(b))])
        },
    }
}

/// The exit, decided once: the first request fixes the code, unlocks when
/// the session is locked (the unlocked signal then quits) or quits at once,
/// and re-checks later; every later request does nothing.
pub open spec fn spec_request_exit(s: SpecLock, rc: i32, locked: bool) -> (
    SpecLock,
    Seq<SpecUiAction>,
) {
    if s.exiting {
        (s, seq![])
    } else {
        (
            SpecLock { exiting: true, exit_rc: rc, ..s },
            seq![
                if locked {
                    SpecUiAction::Unlock
                } else {
                    SpecUiAction::Quit
                },
                SpecUiAction::RecheckAfter(EXIT_RECHECK_MS),
            ],
        )
    }
}

/// The account the lock checks: `$USER` when set and non-empty, else the
/// last user; with neither there is nothing to unlock against.
pub open spec fn spec_lock_user(env_user: Option<Seq<char>>, last_user: Option<Seq<char>>) -> Option<
    Seq<char>,
> {
    if env_user is Some && env_user->0.len() > 0 {
        env_user
    } else {
        last_user
    }
}

pub fn lock_user(env_user: Option<&str>, last_user: Option<&str>) -> (r: Option<String>)
    ensures
        crate::ui::opt_str(r) == spec_lock_user(
            crate::ui::ascii::opt_str_view(env_user),
            crate::ui::ascii::opt_str_view(last_user),
        ),
{
    match env_user {
        Some(u) => {
            if u.unicode_len() > 0 {
                return Some(u.to_string());
            }
        },
        None => {},
    }
    match last_user {
        Some(u) => Some(u.to_string()),
        None => None,
    }
}

/// Why the lock refuses to start; nothing is locked in any of these cases.
#[derive(Debug, Clone, Copy, PartialEq, Eq, Structural)]
pub enum LockRefusal {
    /// GTK could not start: no display
    NoDisplay,
    /// the compositor lacks ext-session-lock-v1
    Unsupported,
    /// the PAM service file is missing
    PamMissing,
    /// the PAM service file is empty (PAM would deny every password)
    PamEmpty,
    /// neither `$USER` nor a last user names an account
    NoAccount,
}

/// The exit code of a refusal: 2 without a display, 1 otherwise.
pub open spec fn spec_refusal_code(r: LockRefusal) -> i32 {
    match r {
        LockRefusal::NoDisplay => EXIT_NO_DISPLAY,
        _ => EXIT_NOT_ACQUIRED,
    }
}

impl LockRefusal {
    /// The process exit code for this refusal.
    pub fn code(&self) -> (c: i32)
        ensures
            c == spec_refusal_code(*self),
    {
        match self {
            LockRefusal::NoDisplay => EXIT_NO_DISPLAY,
            _ => EXIT_NOT_ACQUIRED,
        }
    }
}

/// The checks before anything is locked, in order: GTK started, the
/// session-lock protocol is there, the PAM service file exists and is not
/// empty (`pam_len` is its size, `None` when it is missing), and an
/// account is known. The first that fails refuses; else the account.
pub open spec fn spec_lock_preflight(
    gtk_ok: bool,
    supported: bool,
    pam_len: Option<u64>,
    env_user: Option<Seq<char>>,
    last_user: Option<Seq<char>>,
) -> Result<Seq<char>, LockRefusal> {
    if !gtk_ok {
        Err(LockRefusal::NoDisplay)
    } else if !supported {
        Err(LockRefusal::Unsupported)
    } else if pam_len is None {
        Err(LockRefusal::PamMissing)
    } else if pam_len->0 == 0 {
        Err(LockRefusal::PamEmpty)
    } else {
        match spec_lock_user(env_user, last_user) {
            Some(u) => Ok(u),
            None => Err(LockRefusal::NoAccount),
        }
    }
}

/// Decides whether the lock may start, and for which account.
pub fn lock_preflight(
    gtk_ok: bool,
    supported: bool,
    pam_len: Option<u64>,
    env_user: Option<&str>,
    last_user: Option<&str>,
) -> (r: Result<String, LockRefusal>)
    ensures
        match r {
            Ok(u) => spec_lock_preflight(
                gtk_ok,
                supported,
                pam_len,
                crate::ui::ascii::opt_str_view(env_user),
                crate::ui::ascii::opt_str_view(last_user),
            ) == Ok::<Seq<char>, LockRefusal>(u@),
            Err(e) => spec_lock_preflight(
                gtk_ok,
                supported,
                pam_len,
                crate::ui::ascii::opt_str_view(env_user),
                crate::ui::ascii::opt_str_view(last_user),
            ) == Err::<Seq<char>, LockRefusal>(e),
        },
{
    if !gtk_ok {
        return Err(LockRefusal::NoDisplay);
    }
    if !supported {
        return Err(LockRefusal::Unsupported);
    }
    match pam_len {
        None => {
            return Err(LockRefusal::PamMissing);
        },
        Some(n) => {
            if n == 0 {
                return Err(LockRefusal::PamEmpty);
            }
        },
    }
    match lock_user(env_user, last_user) {
        Some(u) => Ok(u),
        None => Err(LockRefusal::NoAccount),
    }
}

/// The lock never starts without a usable PAM stack and an account: a
/// missing or empty service file, or no account, refuses with exit 1;
/// no display refuses with exit 2.
pub proof fn law_refuses_without_pam_or_account(
    gtk_ok: bool,
    supported: bool,
    pam_len: Option<u64>,
    env_user: Option<Seq<char>>,
    last_user: Option<Seq<char>>,
)
    ensures
        ({
            let r = spec_lock_preflight(gtk_ok, supported, pam_len, env_user, last_user);
            &&& (pam_len is None || pam_len == Some(0u64) || spec_lock_user(env_user, last_user)
                is None || !supported) ==> r is Err
            &&& (r matches Err(e) ==> (spec_refusal_code(e) == EXIT_NO_DISPLAY <==> !gtk_ok))
            &&& (r matches Err(e) ==> (spec_refusal_code(e) == EXIT_NO_DISPLAY || spec_refusal_code(e) == EXIT_NOT_ACQUIRED))
            &&& (r matches Ok(u) ==> spec_lock_user(env_user, last_user) == Some(u))
        }),
{
}

/// The re-check after an exit request: unlock again while still locked,
/// else quit.
pub fn exit_recheck(locked: bool) -> (r: UiAction)
    ensures
        r@ == (if locked {
            SpecUiAction::Unlock
        } else {
            SpecUiAction::Quit
        }),
{
    if locked {
        UiAction::Unlock
    } else {
        UiAction::Quit
    }
}

fn message(text: &str, err: bool) -> (r: UiAction)
    ensures
        r@ == msg(text@, err),
{
    UiAction::Message { text: text.to_string(), err }
}

impl LockState {
    /// A fresh lock screen. The real lock starts pessimistic: any unlock
    /// it did not ask for exits "lock lost" (3); the preview exits 0.
    pub fn new(demo: bool) -> (r: LockState)
        ensures
            r@ == (SpecLock {
                demo: demo,
                buffer: seq![],
                busy: false,
                cooldown: false,
                leaving: false,
                exiting: false,
                exit_rc: if demo {
                    EXIT_UNLOCKED
                } else {
                    EXIT_LOCK_LOST
                },
            }),
    {
        LockState {
            demo,
            buffer: String::new(),
            busy: false,
            cooldown: false,
            leaving: false,
            exiting: false,
            exit_rc: if demo {
                EXIT_UNLOCKED
            } else {
                EXIT_LOCK_LOST
            },
        }
    }

    /// RET (see [`spec_enter`]).
    pub fn enter(&mut self) -> (r: Vec<UiAction>)
        ensures
            (final(self)@, actions_view(r@)) == spec_enter(old(self)@),
    {
        let mut out: Vec<UiAction> = Vec::new();
        if self.busy || self.cooldown || self.leaving {
            assert(actions_view(out@) =~= seq![]);
            return out;
        }
        if self.buffer.as_str().unicode_len() == 0 {
            out.push(message("type the password first", false));
            assert(actions_view(out@) =~= seq![msg("type the password first"@, false)]);
            return out;
        }
        self.busy = true;
        out.push(message("verifying credentials …", false));
        let pw = self.buffer.clone();
        self.buffer = String::new();
        out.push(UiAction::Dots(0));
        if self.demo {
            let verdict = if str_eq(pw.as_str(), "demo") {
                Outcome::Granted
            } else {
                Outcome::AuthFailed("demo — PAM not armed in preview".to_string())
            };
            out.push(UiAction::Later { ms: DEMO_VERDICT_MS, outcome: verdict });
        } else {
            out.push(UiAction::Authenticate(pw));
        }
        proof {
            let ghost s = old(self)@;
            assert(actions_view(out@) =~= spec_enter(s).1);
        }
        out
    }

    /// An authentication outcome (see [`spec_lock_outcome`]).
    pub fn outcome(&mut self, o: Outcome) -> (r: Vec<UiAction>)
        ensures
            (final(self)@, actions_view(r@)) == spec_lock_outcome(old(self)@, o@),
    {
        self.busy = false;
        let mut out: Vec<UiAction> = Vec::new();
        if self.leaving {
            assert(actions_view(out@) =~= seq![]);
            return out;
        }
        match o {
            Outcome::Prompt(m) => {
                out.push(UiAction::Message { text: m, err: false });
            },
            Outcome::Granted => {
                self.leaving = true;
                out.push(UiAction::Bloom);
                out.push(message("ACCESS RESTORED — welcome back, operator", false));
                out.push(UiAction::Boot("[  OK  ] authentication passed".to_string()));
                out.push(UiAction::LeaveAfter { ms: TEARDOWN_MS, code: EXIT_UNLOCKED });
            },
            Outcome::AuthFailed(d) => {
                self.cooldown = true;
                out.push(UiAction::Glitch);
                if self.demo {
                    out.push(message("DENIED — preview: only the password 'demo' grants", true));
                } else {
                    out.push(message("ACCESS DENIED — type the password and press RET", true));
                }
                out.push(UiAction::Boot(concat("[ FAILED ] authentication: ", d.as_str())));
                self.buffer = String::new();
                out.push(UiAction::Dots(0));
                out.push(UiAction::EndCooldownAfter(COOLDOWN_MS));
            },
            Outcome::Fatal(d) => {
                self.leaving = true;
                out.push(message(concat("error: ", d.as_str()).as_str(), true));
                out.push(UiAction::Boot(concat("[ ERROR ] ", d.as_str())));
                out.push(UiAction::LeaveAfter { ms: FATAL_TEARDOWN_MS, code: EXIT_AUTH_FATAL });
            },
        }
        proof {
            let ghost s = old(self)@;
            assert(actions_view(out@) =~= spec_lock_outcome(s, o@).1);
            assert(self@ =~= spec_lock_outcome(s, o@).0);
        }
        out
    }

    /// A key from the deck or the keyboard (see [`spec_lock_key`]).
    pub fn key(&mut self, ev: OskEvent) -> (r: Vec<UiAction>)
        ensures
            (final(self)@, actions_view(r@)) == spec_lock_key(old(self)@, ev),
    {
        match ev {
            OskEvent::Enter => self.enter(),
            _ => {
                let a = edit_buffer(&mut self.buffer, ev);
                let mut out: Vec<UiAction> = Vec::new();
                out.push(a);
                assert(actions_view(out@) =~= spec_lock_key(old(self)@, ev).1);
                out
            },
        }
    }

    /// The cooldown ran out: RET is live again.
    pub fn end_cooldown(&mut self)
        ensures
            final(self)@ == (SpecLock { cooldown: false, ..old(self)@ }),
    {
        self.cooldown = false;
    }

    /// An exit request (see [`spec_request_exit`]).
    pub fn request_exit(&mut self, rc: i32, locked: bool) -> (r: Vec<UiAction>)
        ensures
            (final(self)@, actions_view(r@)) == spec_request_exit(old(self)@, rc, locked),
    {
        let mut out: Vec<UiAction> = Vec::new();
        if self.exiting {
            assert(actions_view(out@) =~= seq![]);
            return out;
        }
        self.exiting = true;
        self.exit_rc = rc;
        out.push(exit_recheck(locked));
        out.push(UiAction::RecheckAfter(EXIT_RECHECK_MS));
        assert(actions_view(out@) =~= spec_request_exit(old(self)@, rc, locked).1);
        out
    }
}

/// The exit is decided once: a second request, whatever its code and
/// whatever the lock state, changes nothing and does nothing.
pub proof fn law_exit_decided_once(s: SpecLock, rc1: i32, l1: bool, rc2: i32, l2: bool)
    ensures
        ({
            let (s1, _) = spec_request_exit(s, rc1, l1);
            let (s2, a2) = spec_request_exit(s1, rc2, l2);
            &&& s2 == s1
            &&& a2.len() == 0
            &&& s1.exiting
            &&& (!s.exiting ==> s1.exit_rc == rc1)
        }),
{
}

/// An exit never walks away from a locked session: when the session is
/// locked, the first thing a first exit request does is unlock it.
pub proof fn law_exit_unlocks_first(s: SpecLock, rc: i32)
    requires
        !s.exiting,
    ensures
        spec_request_exit(s, rc, true).1[0] == SpecUiAction::Unlock,
{
}

/// RET does nothing at all while authenticating, cooling down or leaving.
pub proof fn law_ret_gated(s: SpecLock)
    requires
        s.busy || s.cooldown || s.leaving,
    ensures
        spec_enter(s) == (s, Seq::<SpecUiAction>::empty()),
{
}

/// Leaving is final: no key, outcome, cooldown end or exit request ever
/// clears it, and outcomes arriving while leaving do nothing.
pub proof fn law_leaving_is_final(s: SpecLock, ev: OskEvent, o: SpecOutcome, rc: i32, l: bool)
    requires
        s.leaving,
    ensures
        spec_lock_key(s, ev).0.leaving,
        spec_lock_outcome(s, o).0.leaving,
        spec_lock_outcome(s, o).1.len() == 0,
        spec_request_exit(s, rc, l).0.leaving,
{
}

/// Typing stays live during the cooldown, and a submit hands PAM exactly
/// what was typed and clears the buffer.
pub proof fn law_typing_and_submit(s: SpecLock, c: char)
    ensures
        spec_lock_key(s, OskEvent::Char(c)).0.buffer == s.buffer.push(c),
        !s.busy && !s.cooldown && !s.leaving && !s.demo && s.buffer.len() > 0 ==> {
            let (s1, a) = spec_enter(s);
            &&& a.last() == SpecUiAction::Authenticate(s.buffer)
            &&& s1.buffer.len() == 0
            &&& s1.busy
        },
{
}

/// Only a grant leaves with "unlocked" (0); a denial never leaves, and a
/// fatal PAM error leaves with 4.
pub proof fn law_only_a_grant_unlocks(s: SpecLock, o: SpecOutcome)
    requires
        !s.leaving,
    ensures
        spec_lock_outcome(s, o).1.contains(
            SpecUiAction::LeaveAfter { ms: TEARDOWN_MS, code: EXIT_UNLOCKED },
        ) <==> o is Granted,
        o is AuthFailed ==> !spec_lock_outcome(s, o).0.leaving,
        o is Fatal ==> spec_lock_outcome(s, o).1.last() == (SpecUiAction::LeaveAfter {
            ms: FATAL_TEARDOWN_MS,
            code: EXIT_AUTH_FATAL,
        }),
{
    let a = spec_lock_outcome(s, o).1;
    let leave = SpecUiAction::LeaveAfter { ms: TEARDOWN_MS, code: EXIT_UNLOCKED };
    if o is Granted {
        assert(a[3] == leave);
    } else {
        assert forall|i: int| 0 <= i < a.len() implies a[i] != leave by {}
    }
}

} // verus!
