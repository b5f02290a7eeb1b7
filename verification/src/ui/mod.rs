//! The screens' decisions. Each view (greeter, lock) is a state machine:
//! a key, a RET or an authentication outcome goes in; the new state and
//! the list of things the shell must do (show a message, start PAM, talk
//! to greetd, leave) come out. The shell performs them and feeds back what
//! happens.

pub mod theme;
pub mod ascii;
pub mod osk;
pub mod lock;
pub mod theater;
pub mod crt;

use crate::auth::{Outcome, SpecOutcome};
use crate::sessions::{Session, SpecSession};
use crate::state::DEFAULT_SESSION;
use crate::text::{pop_char, push_char, push_str, str_eq};
use crate::ui::osk::OskEvent;
use vstd::prelude::*;

verus! {

/// Which screen the program runs.
#[derive(Debug, Clone, Copy, PartialEq, Eq, Structural)]
pub enum Mode {
    Greeter,
    Demo,
    Lock,
}

/// One thing the shell must do, in order.
#[derive(Debug, Clone, PartialEq)]
pub enum UiAction {
    /// show `text` in the auth message line (`err` styles it as an error)
    Message { text: String, err: bool },
    /// show this many password dots
    Dots(usize),
    /// a line for the boot log's event slot
    Boot(String),
    /// the phosphor bloom (access granted)
    Bloom,
    /// the tear glitch (access denied)
    Glitch,
    /// check this password with PAM for the running user
    Authenticate(String),
    /// open a greetd session for `username`, to run `session_cmd`
    Begin { username: String, session_cmd: String },
    /// answer greetd's password question
    Answer { password: String, session_cmd: String },
    /// cancel the greetd session in flight
    Cancel,
    /// remember the last user and session for the next start
    SaveState { user: String, session: String },
    /// feed this outcome back after `ms` milliseconds (the lock preview)
    Later { ms: u64, outcome: Outcome },
    /// leave with `code` after `ms` milliseconds
    LeaveAfter { ms: u64, code: i32 },
    /// end the post-failure cooldown after `ms` milliseconds
    EndCooldownAfter(u64),
    /// ask the compositor to unlock the session
    Unlock,
    /// quit the main loop
    Quit,
    /// check again after `ms` milliseconds whether the session is still locked
    RecheckAfter(u64),
}

pub enum SpecUiAction {
    Message { text: Seq<char>, err: bool },
    Dots(usize),
    Boot(Seq<char>),
    Bloom,
    Glitch,
    Authenticate(Seq<char>),
    Begin { username: Seq<char>, session_cmd: Seq<char> },
    Answer { password: Seq<char>, session_cmd: Seq<char> },
    Cancel,
    SaveState { user: Seq<char>, session: Seq<char> },
    Later { ms: u64, outcome: SpecOutcome },
    LeaveAfter { ms: u64, code: i32 },
    EndCooldownAfter(u64),
    Unlock,
    Quit,
    RecheckAfter(u64),
}

impl View for UiAction {
    type V = SpecUiAction;

    open spec fn view(&self) -> SpecUiAction {
        match self {
            UiAction::Message { text, err } => SpecUiAction::Message { text: text@, err: *err },
            UiAction::Dots(n) => SpecUiAction::Dots(*n),
            UiAction::Boot(l) => SpecUiAction::Boot(l@),
            UiAction::Bloom => SpecUiAction::Bloom,
            UiAction::Glitch => SpecUiAction::Glitch,
            UiAction::Authenticate(p) => SpecUiAction::Authenticate(p@),
            UiAction::Begin { username, session_cmd } => SpecUiAction::Begin {
                username: username@,
                session_cmd: session_cmd@,
            },
            UiAction::Answer { password, session_cmd } => SpecUiAction::Answer {
                password: password@,
                session_cmd: session_cmd@,
            },
            UiAction::Cancel => SpecUiAction::Cancel,
            UiAction::SaveState { user, session } => SpecUiAction::SaveState {
                user: user@,
                session: session@,
            },
            UiAction::Later { ms, outcome } => SpecUiAction::Later { ms: *ms, outcome: outcome@ },
            UiAction::LeaveAfter { ms, code } => SpecUiAction::LeaveAfter { ms: *ms, code: *code },
            UiAction::EndCooldownAfter(ms) => SpecUiAction::EndCooldownAfter(*ms),
            UiAction::Unlock => SpecUiAction::Unlock,
            UiAction::Quit => SpecUiAction::Quit,
            UiAction::RecheckAfter(ms) => SpecUiAction::RecheckAfter(*ms),
        }
    }
}

pub open spec fn actions_view(v: Seq<UiAction>) -> Seq<SpecUiAction> {
    v.map_values(|a: UiAction| a@)
}

/// The number of password dots: one per byte of the typed text.
pub open spec fn dots(buf: Seq<char>) -> usize {
    vstd::utf8::encode_utf8(buf).len() as usize
}

pub open spec fn msg(text: Seq<char>, err: bool) -> SpecUiAction {
    SpecUiAction::Message { text: text, err: err }
}

/// The password buffer after a typed character or a backspace.
pub open spec fn spec_edit(buf: Seq<char>, ev: OskEvent) -> Seq<char> {
    match ev {
        OskEvent::Char(c) => buf.push(c),
        OskEvent::Backspace => if buf.len() > 0 {
            buf.drop_last()
        } else {
            buf
        },
        OskEvent::Enter => buf,
    }
}

/// Types `ev` (a character or a backspace) into `buf`; the dots to show.
pub fn edit_buffer(buf: &mut String, ev: OskEvent) -> (r: UiAction)
    requires
        !(ev is Enter),
    ensures
        final(buf)@ == spec_edit(old(buf)@, ev),
        r@ == SpecUiAction::Dots(dots(final(buf)@)),
{
    match ev {
        OskEvent::Char(c) => push_char(buf, c),
        _ => {
            let _ = pop_char(buf);
        },
    }
    UiAction::Dots(buf.as_str().len())
}

fn message(text: &str, err: bool) -> (r: UiAction)
    ensures
        r@ == msg(text@, err),
{
    UiAction::Message { text: text.to_string(), err }
}

/// `prefix` followed by `s`.
pub fn concat(prefix: &str, s: &str) -> (r: String)
    ensures
        r@ == prefix@ + s@,
{
    let mut out = String::new();
    push_str(&mut out, prefix);
    push_str(&mut out, s);
    out
}

/// Where the login stands with greetd.
#[derive(Debug, Clone, Copy, PartialEq, Eq, Structural)]
pub enum Stage {
    /// no session in flight: RET starts the greetd handshake
    Fresh,
    /// PAM asked for the password: RET submits it
    Password,
}

/// The greeter screen's state. In lock mode (an in-session lock through
/// the greeter shell) RET goes straight to PAM.
pub struct Greeter {
    pub lock: bool,
    pub buffer: String,
    pub busy: bool,
    pub stage: Stage,
    /// password typed at the Fresh stage, answered as soon as PAM asks:
    /// one RET always means "go"
    pub pending_pw: Option<String>,
    pub username: String,
    pub sessions: Vec<Session>,
    pub session_idx: usize,
}

pub struct SpecGreeter {
    pub lock: bool,
    pub buffer: Seq<char>,
    pub busy: bool,
    pub stage: Stage,
    pub pending_pw: Option<Seq<char>>,
    pub username: Seq<char>,
    pub sessions: Seq<SpecSession>,
    pub session_idx: int,
}

pub open spec fn opt_str(o: Option<String>) -> Option<Seq<char>> {
    match o {
        Some(s) => Some(s@),
        None => None,
    }
}

impl View for Greeter {
    type V = SpecGreeter;

    open spec fn view(&self) -> SpecGreeter {
        SpecGreeter {
            lock: self.lock,
            buffer: self.buffer@,
            busy: self.busy,
            stage: self.stage,
            pending_pw: opt_str(self.pending_pw),
            username: self.username@,
            sessions: self.sessions@.map_values(|s: Session| s@),
            session_idx: self.session_idx as int,
        }
    }
}

/// The command of the selected session (the default session when the
/// list has none at that index).
pub open spec fn spec_session_cmd(g: SpecGreeter) -> Seq<char> {
    if 0 <= g.session_idx < g.sessions.len() {
        g.sessions[g.session_idx].cmd
    } else {
        DEFAULT_SESSION@
    }
}

/// RET: nothing while an attempt is in flight; an empty buffer asks for
/// the password; otherwise the lock checks it with PAM, a fresh greeter
/// queues it and opens the greetd session, and a greeter at the password
/// stage answers with it.
pub open spec fn spec_submit(g: SpecGreeter) -> (SpecGreeter, Seq<SpecUiAction>) {
    if g.busy {
        (g, seq![])
    } else if g.buffer.len() == 0 {
        (g, seq![msg("type the password first"@, false)])
    } else if g.lock {
        (
            SpecGreeter { busy: true, buffer: seq![], ..g },
            seq![
                msg("verifying credentials …"@, false),
                SpecUiAction::Dots(0),
                SpecUiAction::Authenticate(g.buffer),
            ],
        )
    } else {
        match g.stage {
            Stage::Fresh => (
                SpecGreeter { pending_pw: Some(g.buffer), busy: true, ..g },
                seq![
                    msg("opening session …"@, false),
                    SpecUiAction::Begin { username: g.username, session_cmd: spec_session_cmd(g) },
                ],
            ),
            Stage::Password => (
                SpecGreeter { busy: true, ..g },
                seq![
                    msg("verifying credentials …"@, false),
                    SpecUiAction::Answer { password: g.buffer, session_cmd: spec_session_cmd(g) },
                ],
            ),
        }
    }
}

/// An authentication outcome. A prompt is answered at once with the
/// queued password (or moves to the password stage); a grant celebrates,
/// saves the choice (greeter) and leaves; a failure glitches, cancels and
/// starts over; a fatal error starts over.
pub open spec fn spec_outcome(g0: SpecGreeter, o: SpecOutcome) -> (SpecGreeter, Seq<SpecUiAction>) {
    let g = SpecGreeter { busy: false, ..g0 };
    match o {
        SpecOutcome::Prompt(m) => match g.pending_pw {
            Some(pw) => (
                SpecGreeter { busy: true, pending_pw: None, buffer: seq![], ..g },
                seq![
                    msg("verifying credentials …"@, false),
                    SpecUiAction::Dots(0),
                    SpecUiAction::Answer { password: pw, session_cmd: spec_session_cmd(g) },
                ],
            ),
            None => (
                SpecGreeter { stage: Stage::Password, buffer: seq![], ..g },
                seq![SpecUiAction::Dots(0), msg(m, false)],
            ),
        },
        SpecOutcome::Granted => if g.lock {
            (
                g,
                seq![
                    SpecUiAction::Bloom,
                    msg("ACCESS RESTORED — welcome back, operator"@, false),
                    SpecUiAction::Boot("[  OK  ] authentication passed"@),
                    SpecUiAction::LeaveAfter { ms: 900, code: 0 },
                ],
            )
        } else {
            (
                g,
                seq![
                    SpecUiAction::Bloom,
                    msg("ACCESS GRANTED — welcome, operator"@, false),
                    SpecUiAction::Boot("[  OK  ] authentication passed"@),
                    SpecUiAction::SaveState { user: g.username, session: spec_session_cmd(g) },
                    SpecUiAction::Boot("[  OK  ] session starting …"@),
                    SpecUiAction::LeaveAfter { ms: 900, code: 0 },
                ],
            )
        },
        SpecOutcome::AuthFailed(d) => (
            SpecGreeter { stage: Stage::Fresh, pending_pw: None, buffer: seq![], ..g },
            seq![
                SpecUiAction::Glitch,
                msg("ACCESS DENIED — type the password and press RET"@, true),
                SpecUiAction::Boot("[ FAILED ] authentication: "@ + d),
                SpecUiAction::Cancel,
                SpecUiAction::Dots(0),
            ],
        ),
        SpecOutcome::Fatal(d) => (
            SpecGreeter { stage: Stage::Fresh, ..g },
            seq![msg("error: "@ + d, true), SpecUiAction::Boot("[ ERROR ] "@ + d)],
        ),
    }
}

/// A key from the deck or the keyboard: characters and backspace edit the
/// buffer (the dots follow), RET submits.
pub open spec fn spec_greeter_key(g: SpecGreeter, ev: OskEvent) -> (SpecGreeter, Seq<SpecUiAction>) {
    match ev {
        OskEvent::Enter => spec_submit(g),
        _ => {
            let b = spec_edit(g.buffer, ev);
            (SpecGreeter { buffer: b, ..g }, seq![SpecUiAction::Dots(dots(b))])
        },
    }
}

/// The selected session: the saved command's position in the list, else
/// the first.
pub open spec fn spec_initial_session(sessions: Seq<SpecSession>, saved: Option<Seq<char>>) -> int {
    match saved {
        Some(cmd) => if exists|i: int| 0 <= i < sessions.len() && sessions[i].cmd == cmd {
            choose|i: int|
                0 <= i < sessions.len() && sessions[i].cmd == cmd && forall|j: int|
                    0 <= j < i ==> sessions[j].cmd != cmd
        } else {
            0
        },
        None => 0,
    }
}

/// The account the greeter logs in: the lock authenticates the running
/// user (`$USER` when set and non-empty, else the last user), the greeter
/// the last user; `rbc` when there is none.
pub open spec fn spec_greeter_user(
    lock: bool,
    env_user: Option<Seq<char>>,
    last_user: Option<Seq<char>>,
) -> Seq<char> {
    if lock && env_user is Some && env_user->0.len() > 0 {
        env_user->0
    } else {
        match last_user {
            Some(u) => u,
            None => "rbc"@,
        }
    }
}

pub fn greeter_user(lock: bool, env_user: Option<&str>, last_user: Option<&str>) -> (r: String)
    ensures
        r@ == spec_greeter_user(lock, crate::ui::ascii::opt_str_view(env_user), crate::ui::ascii::opt_str_view(last_user)),
{
    if lock {
        match env_user {
            Some(u) => {
                if u.unicode_len() > 0 {
                    return u.to_string();
                }
            },
            None => {},
        }
    }
    match last_user {
        Some(u) => u.to_string(),
        None => "rbc".to_string(),
    }
}

impl Greeter {
    /// A fresh screen: nothing typed, nothing in flight, the saved session
    /// selected when the list has it.
    pub fn new(lock: bool, username: String, sessions: Vec<Session>, saved: Option<&str>) -> (r:
        Greeter)
        ensures
            r@ == (SpecGreeter {
                lock: lock,
                buffer: seq![],
                busy: false,
                stage: Stage::Fresh,
                pending_pw: None,
                username: username@,
                sessions: sessions@.map_values(|s: Session| s@),
                session_idx: spec_initial_session(
                    sessions@.map_values(|s: Session| s@),
                    crate::ui::ascii::opt_str_view(saved),
                ),
            }),
    {
        let ghost sv = sessions@.map_values(|s: Session| s@);
        let mut idx: usize = 0;
        match saved {
            Some(cmd) => {
                let mut i: usize = 0;
                let mut found = false;
                while i < sessions.len()
                    invariant
                        i <= sessions.len(),
                        sv == sessions@.map_values(|s: Session| s@),
                        found ==> idx < sessions.len() && sv[idx as int].cmd == cmd@ && forall|
                            j: int,
                        | 0 <= j < idx ==> sv[j].cmd != cmd@,
                        !found ==> idx == 0 && forall|j: int| 0 <= j < i ==> sv[j].cmd != cmd@,
                        found ==> i == sessions.len(),
                    decreases sessions.len() - i,
                {
                    assert(sv[i as int] == sessions@[i as int]@);
                    if str_eq(sessions[i].cmd.as_str(), cmd) {
                        idx = i;
                        found = true;
                        i = sessions.len();
                    } else {
                        i += 1;
                    }
                }
                proof {
                    if found {
                        assert(exists|k: int|
                            0 <= k < sv.len() && sv[k].cmd == cmd@ && forall|j: int|
                                0 <= j < k ==> sv[j].cmd != cmd@);
                        let w = choose|k: int|
                            0 <= k < sv.len() && sv[k].cmd == cmd@ && forall|j: int|
                                0 <= j < k ==> sv[j].cmd != cmd@;
                        if w < idx {
                            assert(sv[w].cmd != cmd@);
                        }
                        if w > idx {
                            assert(sv[idx as int].cmd != cmd@);
                        }
                    }
                }
            },
            None => {},
        }
        Greeter {
            lock,
            buffer: String::new(),
            busy: false,
            stage: Stage::Fresh,
            pending_pw: None,
            username,
            sessions,
            session_idx: idx,
        }
    }

    /// The command of the selected session.
    pub fn session_cmd(&self) -> (r: String)
        ensures
            r@ == spec_session_cmd(self@),
    {
        if self.session_idx < self.sessions.len() {
            self.sessions[self.session_idx].cmd.clone()
        } else {
            DEFAULT_SESSION.to_string()
        }
    }
    /// RET (see [`spec_submit`]).
    pub fn submit(&mut self) -> (r: Vec<UiAction>)
        ensures
            (final(self)@, actions_view(r@)) == spec_submit(old(self)@),
    {
        let mut out: Vec<UiAction> = Vec::new();
        if self.busy {
            assert(actions_view(out@) =~= seq![]);
            return out;
        }
        if self.buffer.as_str().unicode_len() == 0 {
            out.push(message("type the password first", false));
            assert(actions_view(out@) =~= seq![msg("type the password first"@, false)]);
            return out;
        }
        if self.lock {
            self.busy = true;
            out.push(message("verifying credentials …", false));
            let pw = self.buffer.clone();
            self.buffer = String::new();
            out.push(UiAction::Dots(0));
            out.push(UiAction::Authenticate(pw));
            proof {
                let ghost g = old(self)@;
                assert(actions_view(out@) =~= spec_submit(g).1);
            }
            return out;
        }
        let cmd = self.session_cmd();
        match self.stage {
            Stage::Fresh => {
                self.pending_pw = Some(self.buffer.clone());
                self.busy = true;
                out.push(message("opening session …", false));
                out.push(UiAction::Begin { username: self.username.clone(), session_cmd: cmd });
            },
            Stage::Password => {
                self.busy = true;
                out.push(message("verifying credentials …", false));
                out.push(UiAction::Answer { password: self.buffer.clone(), session_cmd: cmd });
            },
        }
        proof {
            let ghost g = old(self)@;
            assert(actions_view(out@) =~= spec_submit(g).1);
        }
        out
    }

    /// An authentication outcome (see [`spec_outcome`]).
    pub fn outcome(&mut self, o: Outcome) -> (r: Vec<UiAction>)
        ensures
            (final(self)@, actions_view(r@)) == spec_outcome(old(self)@, o@),
    {
        self.busy = false;
        let mut out: Vec<UiAction> = Vec::new();
        match o {
            Outcome::Prompt(m) => {
                let pending = self.pending_pw.take();
                match pending {
                    Some(pw) => {
                        self.busy = true;
                        out.push(message("verifying credentials …", false));
                        let cmd = self.session_cmd();
                        self.buffer = String::new();
                        out.push(UiAction::Dots(0));
                        out.push(UiAction::Answer { password: pw, session_cmd: cmd });
                    },
                    None => {
                        self.stage = Stage::Password;
                        self.buffer = String::new();
                        out.push(UiAction::Dots(0));
                        out.push(UiAction::Message { text: m, err: false });
                    },
                }
            },
            Outcome::Granted => {
                if self.lock {
                    out.push(UiAction::Bloom);
                    out.push(message("ACCESS RESTORED — welcome back, operator", false));
                    out.push(UiAction::Boot("[  OK  ] authentication passed".to_string()));
                    out.push(UiAction::LeaveAfter { ms: 900, code: 0 });
                } else {
                    out.push(UiAction::Bloom);
                    out.push(message("ACCESS GRANTED — welcome, operator", false));
                    out.push(UiAction::Boot("[  OK  ] authentication passed".to_string()));
                    let cmd = self.session_cmd();
                    out.push(UiAction::SaveState { user: self.username.clone(), session: cmd });
                    out.push(UiAction::Boot("[  OK  ] session starting …".to_string()));
                    out.push(UiAction::LeaveAfter { ms: 900, code: 0 });
                }
            },
            Outcome::AuthFailed(d) => {
                out.push(UiAction::Glitch);
                out.push(message("ACCESS DENIED — type the password and press RET", true));
                out.push(UiAction::Boot(concat("[ FAILED ] authentication: ", d.as_str())));
                out.push(UiAction::Cancel);
                self.stage = Stage::Fresh;
                self.pending_pw = None;
                self.buffer = String::new();
                out.push(UiAction::Dots(0));
            },
            Outcome::Fatal(d) => {
                out.push(message(concat("error: ", d.as_str()).as_str(), true));
                out.push(UiAction::Boot(concat("[ ERROR ] ", d.as_str())));
                self.stage = Stage::Fresh;
            },
        }
        proof {
            let ghost g = old(self)@;
            assert(actions_view(out@) =~= spec_outcome(g, o@).1);
            assert(self@ =~= spec_outcome(g, o@).0);
        }
        out
    }

    /// A key from the deck or the keyboard (see [`spec_greeter_key`]).
    pub fn key(&mut self, ev: OskEvent) -> (r: Vec<UiAction>)
        ensures
            (final(self)@, actions_view(r@)) == spec_greeter_key(old(self)@, ev),
    {
        match ev {
            OskEvent::Enter => self.submit(),
            _ => {
                let a = edit_buffer(&mut self.buffer, ev);
                let mut out: Vec<UiAction> = Vec::new();
                out.push(a);
                assert(actions_view(out@) =~= spec_greeter_key(old(self)@, ev).1);
                out
            },
        }
    }

    /// A tap on the session row: the next session, wrapping around; the
    /// new label (`<name> ▾`), or `None` with no sessions to cycle.
    pub fn cycle_session(&mut self) -> (r: Option<String>)
        ensures
            old(self)@.sessions.len() == 0 ==> r is None && final(self)@ == old(self)@,
            old(self)@.sessions.len() > 0 ==> {
                let n = (old(self)@.session_idx + 1) % (old(self)@.sessions.len() as int);
                &&& final(self)@ == (SpecGreeter { session_idx: n, ..old(self)@ })
                &&& r matches Some(l) && l@ == old(self)@.sessions[n].name + " ▾"@
            },
    {
        if self.sessions.len() == 0 {
            return None;
        }
        let n = self.sessions.len();
        let m = self.session_idx % n;
        let next = if m + 1 == n {
            0
        } else {
            m + 1
        };
        proof {
            let i = self.session_idx as int;
            vstd::arithmetic::div_mod::lemma_add_mod_noop(i, 1, n as int);
            vstd::arithmetic::div_mod::lemma_mod_bound(i, n as int);
            if n == 1 {
                assert(((i % 1) + (1int % 1)) % 1 == 0) by (nonlinear_arith);
            } else {
                vstd::arithmetic::div_mod::lemma_small_mod(1, n as nat);
                if m + 1 == n {
                    vstd::arithmetic::div_mod::lemma_mod_self_0(n as int);
                } else {
                    vstd::arithmetic::div_mod::lemma_small_mod((m + 1) as nat, n as nat);
                }
            }
        }
        self.session_idx = next;
        Some(concat(self.sessions[next].name.as_str(), " ▾"))
    }
}

/// One RET means "go": at the fresh stage a typed password is queued while
/// the greetd session opens, and the first password question is answered
/// with exactly that password, for the same session command.
pub proof fn law_one_ret_means_go(g: SpecGreeter, prompt: Seq<char>)
    requires
        !g.busy,
        !g.lock,
        g.stage == Stage::Fresh,
        g.buffer.len() > 0,
    ensures
        ({
            let (g1, a1) = spec_submit(g);
            let (g2, a2) = spec_outcome(g1, SpecOutcome::Prompt(prompt));
            &&& a1.last() == SpecUiAction::Begin {
                username: g.username,
                session_cmd: spec_session_cmd(g),
            }
            &&& a2.last() == SpecUiAction::Answer {
                password: g.buffer,
                session_cmd: spec_session_cmd(g),
            }
            &&& g2.pending_pw is None
            &&& g2.busy
        }),
{
}

/// While an attempt is in flight RET does nothing at all.
pub proof fn law_busy_ignores_ret(g: SpecGreeter)
    requires
        g.busy,
    ensures
        spec_submit(g) == (g, Seq::<SpecUiAction>::empty()),
{
}

/// A failed attempt starts over: fresh stage, nothing queued, nothing
/// typed, nothing in flight, and the greetd session is cancelled.
pub proof fn law_failure_starts_over(g: SpecGreeter, desc: Seq<char>)
    ensures
        ({
            let (g1, a) = spec_outcome(g, SpecOutcome::AuthFailed(desc));
            &&& g1.stage == Stage::Fresh
            &&& g1.pending_pw is None
            &&& g1.buffer.len() == 0
            &&& !g1.busy
            &&& a.contains(SpecUiAction::Cancel)
        }),
{
    let a = spec_outcome(g, SpecOutcome::AuthFailed(desc)).1;
    assert(a[3] == SpecUiAction::Cancel);
}

/// A fatal error starts the login over: whatever the greeter was doing,
/// after `Fatal` it is at the fresh stage, not busy, for the same user and
/// session, and it shows the error. The next RET with a typed password
/// opens a new greetd session for that user and session; it never answers
/// into the session that failed.
pub proof fn law_fatal_starts_over(g: SpecGreeter, desc: Seq<char>, typed: Seq<char>)
    ensures
        ({
            let (g1, a) = spec_outcome(g, SpecOutcome::Fatal(desc));
            let (g2, a2) = spec_submit(SpecGreeter { buffer: typed, ..g1 });
            &&& g1.stage == Stage::Fresh
            &&& !g1.busy
            &&& g1.username == g.username
            &&& g1.sessions == g.sessions
            &&& g1.session_idx == g.session_idx
            &&& a.contains(SpecUiAction::Boot("[ ERROR ] "@ + desc))
            &&& (typed.len() > 0 && !g.lock) ==> a2.last() == SpecUiAction::Begin {
                username: g.username,
                session_cmd: spec_session_cmd(g),
            }
            &&& (typed.len() > 0 && !g.lock) ==> g2.pending_pw == Some(typed)
        }),
{
    let a = spec_outcome(g, SpecOutcome::Fatal(desc)).1;
    assert(a[1] == SpecUiAction::Boot("[ ERROR ] "@ + desc));
}

/// A physical key as the shell sees it: the editing keys by name, any
/// other key with the character it types (if any).
#[derive(Debug, Clone, Copy, PartialEq, Eq, Structural)]
pub enum PhysKey {
    BackSpace,
    Return,
    KpEnter,
    Other(Option<char>),
}

/// `char::is_control`: the C0 and C1 control characters.
pub open spec fn is_control(c: char) -> bool {
    (c as u32) <= 0x1f || (0x7f <= (c as u32) && (c as u32) <= 0x9f)
}

/// The deck event a physical key means: backspace, RET (either enter
/// key), or a printable character; `None` for everything else.
pub open spec fn spec_key_event(k: PhysKey) -> Option<OskEvent> {
    match k {
        PhysKey::BackSpace => Some(OskEvent::Backspace),
        PhysKey::Return | PhysKey::KpEnter => Some(OskEvent::Enter),
        PhysKey::Other(Some(c)) => if is_control(c) {
            None
        } else {
            Some(OskEvent::Char(c))
        },
        PhysKey::Other(None) => None,
    }
}

pub fn key_event(k: PhysKey) -> (r: Option<OskEvent>)
    ensures
        r == spec_key_event(k),
{
    match k {
        PhysKey::BackSpace => Some(OskEvent::Backspace),
        PhysKey::Return | PhysKey::KpEnter => Some(OskEvent::Enter),
        PhysKey::Other(Some(c)) => {
            let u = c as u32;
            if u <= 0x1f || (0x7f <= u && u <= 0x9f) {
                None
            } else {
                Some(OskEvent::Char(c))
            }
        },
        PhysKey::Other(None) => None,
    }
}

/// A backspace undoes the character typed just before it, on either
/// screen; a backspace on an empty buffer changes nothing.
pub proof fn law_backspace_undoes_a_char(buf: Seq<char>, c: char)
    ensures
        spec_edit(spec_edit(buf, OskEvent::Char(c)), OskEvent::Backspace) == buf,
        spec_edit(Seq::<char>::empty(), OskEvent::Backspace) == Seq::<char>::empty(),
{
    assert(buf.push(c).drop_last() =~= buf);
}

} // verus!
