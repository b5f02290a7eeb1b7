//! The boot-log panel and the text of its live stat lines.
//!
//! The panel is full-height from the first frame: its lines start as
//! blanks and are typed into by index, so nothing below it ever shifts.
//!   lines 0..6    the boot sequence (stays)
//!   lines 6..10   live stats (refreshed in place)
//!   line  10      the runtime event slot (auth results, power asks)

use crate::text::{
    chars_of, decimal, decimal2, push_char, push_decimal, push_decimal2, push_str, str_eq,
    string_of, word_ranges, words,
};
use crate::ui::concat;
use vstd::prelude::*;

verus! {

/// Live stat slots.
pub const STAT_SLOTS: usize = 4;

/// Boot lines that stay on screen.
pub const BOOT_KEEP: usize = 6;

/// Panel height in lines: boot, stats and one event line.
pub const TOTAL_LINES: usize = 11;

/// The panel's lines and whether the stats have taken over (after the
/// boot sequence finished typing).
pub struct BootPanel {
    pub lines: Vec<String>,
    pub stats_on: bool,
}

pub struct SpecPanel {
    pub lines: Seq<Seq<char>>,
    pub stats_on: bool,
}

impl View for BootPanel {
    type V = SpecPanel;

    open spec fn view(&self) -> SpecPanel {
        SpecPanel { lines: self.lines@.map_values(|l: String| l@), stats_on: self.stats_on }
    }
}

/// Line `idx` replaced, when the panel has it.
pub open spec fn spec_set_line(p: SpecPanel, idx: int, text: Seq<char>) -> SpecPanel {
    if 0 <= idx < p.lines.len() {
        SpecPanel { lines: p.lines.update(idx, text), ..p }
    } else {
        p
    }
}

/// A runtime event: it takes the single event slot (the last line),
/// replacing the previous event; the panel never grows or moves.
pub open spec fn spec_event(p: SpecPanel, line: Seq<char>) -> SpecPanel {
    spec_set_line(p, (TOTAL_LINES - 1) as int, line)
}

/// The first four stat lines written into the stat slots.
pub open spec fn spec_fill_stats(p: SpecPanel, stats: Seq<Seq<char>>) -> SpecPanel
    decreases stats.len(),
{
    if stats.len() == 0 {
        p
    } else {
        let n = if stats.len() > STAT_SLOTS {
            STAT_SLOTS as int
        } else {
            stats.len() as int
        };
        let q = spec_fill_stats(p, stats.take(n - 1));
        spec_set_line(q, BOOT_KEEP + n - 1, stats[n - 1])
    }
}

/// Lines joined with `\n` between them: the panel's text.
pub open spec fn spec_panel_text(lines: Seq<Seq<char>>) -> Seq<char> {
    crate::ui::ascii::join_nl(lines)
}

impl BootPanel {
    /// Eleven blank lines, stats not yet on.
    pub fn new() -> (r: BootPanel)
        ensures
            r@.lines == Seq::new(TOTAL_LINES as nat, |i: int| Seq::<char>::empty()),
            !r@.stats_on,
    {
        let mut lines: Vec<String> = Vec::new();
        let mut i: usize = 0;
        while i < TOTAL_LINES
            invariant
                i <= TOTAL_LINES,
                lines@.len() == i,
                lines@.map_values(|l: String| l@) == Seq::new(i as nat, |k: int| Seq::<char>::empty()),
            decreases TOTAL_LINES - i,
        {
            let e = String::new();
            assert(e@ =~= Seq::<char>::empty());
            let ghost before = lines@;
            lines.push(e);
            assert(lines@ == before.push(e));
            assert(lines@.map_values(|l: String| l@) =~= Seq::new(
                (i + 1) as nat,
                |k: int| Seq::<char>::empty(),
            )) by {
                assert forall|k: int| 0 <= k < i + 1 implies (#[trigger] lines@[k])@
                    == Seq::<char>::empty() by {
                    if k < i {
                        assert(before.map_values(|l: String| l@)[k] == Seq::<char>::empty());
                    }
                }
            }
            i += 1;
        }
        BootPanel { lines, stats_on: false }
    }

    /// Types `text` into line `idx` (ignored past the panel's end).
    pub fn set_line(&mut self, idx: usize, text: &str)
        ensures
            final(self)@ == spec_set_line(old(self)@, idx as int, text@),
    {
        if idx < self.lines.len() {
            self.lines.set(idx, text.to_string());
            assert(self@.lines =~= old(self)@.lines.update(idx as int, text@));
        }
    }

    /// A runtime event (see [`spec_event`]): on a full-height panel the
    /// event slot holds `line` afterwards and the height stays.
    pub fn event(&mut self, line: &str)
        ensures
            final(self)@ == spec_event(old(self)@, line@),
            old(self)@.lines.len() == TOTAL_LINES ==> final(self)@.lines.len() == TOTAL_LINES
                && final(self)@.lines[TOTAL_LINES - 1] == line@,
    {
        self.set_line(TOTAL_LINES - 1, line);
    }

    /// Writes the first four stat lines into the stat slots.
    pub fn fill_stats(&mut self, stats: &Vec<String>)
        ensures
            final(self)@ == spec_fill_stats(old(self)@, stats@.map_values(|l: String| l@)),
    {
        let ghost sv = stats@.map_values(|l: String| l@);
        let ghost start = self@;
        let n = if stats.len() > STAT_SLOTS {
            STAT_SLOTS
        } else {
            stats.len()
        };
        let mut slot: usize = 0;
        assert(sv.take(0) =~= Seq::<Seq<char>>::empty());
        while slot < n
            invariant
                slot <= n <= STAT_SLOTS,
                n <= stats.len(),
                sv == stats@.map_values(|l: String| l@),
                self@ == spec_fill_stats(start, sv.take(slot as int)),
            decreases n - slot,
        {
            self.set_line(BOOT_KEEP + slot, stats[slot].as_str());
            proof {
                let t = sv.take(slot + 1);
                assert(t.take(slot as int) =~= sv.take(slot as int));
                assert(t[slot as int] == sv[slot as int]);
            }
            slot += 1;
        }
        proof {
            if sv.len() > STAT_SLOTS {
                lemma_fill_stats_caps(start, sv);
            } else {
                assert(sv.take(n as int) =~= sv);
            }
        }
    }

    /// The boot typing finished: the stats take their slots for good.
    pub fn freeze(&mut self, stats: &Vec<String>)
        ensures
            final(self)@ == (SpecPanel {
                stats_on: true,
                ..spec_fill_stats(old(self)@, stats@.map_values(|l: String| l@))
            }),
    {
        self.fill_stats(stats);
        self.stats_on = true;
    }

    /// The panel's text: its lines joined with newlines.
    pub fn text(&self) -> (r: String)
        ensures
            r@ == spec_panel_text(self@.lines),
    {
        let ghost lv = self@.lines;
        let mut out = String::new();
        let mut i: usize = 0;
        assert(lv.take(0) =~= Seq::<Seq<char>>::empty());
        while i < self.lines.len()
            invariant
                i <= self.lines.len(),
                lv == self@.lines,
                out@ == crate::ui::ascii::join_nl(lv.take(i as int)),
            decreases self.lines.len() - i,
        {
            if i > 0 {
                push_char(&mut out, '\n');
            }
            push_str(&mut out, self.lines[i].as_str());
            proof {
                let t = lv.take(i + 1);
                assert(t.drop_last() =~= lv.take(i as int));
                assert(t.last() == lv[i as int]);
            }
            i += 1;
        }
        assert(lv.take(i as int) =~= lv);
        out
    }
}

/// Beyond four stat lines only the first four count.
proof fn lemma_fill_stats_caps(p: SpecPanel, s: Seq<Seq<char>>)
    requires
        s.len() > STAT_SLOTS,
    ensures
        spec_fill_stats(p, s) == spec_fill_stats(p, s.take(STAT_SLOTS as int)),
{
    let t = s.take(STAT_SLOTS as int);
    assert(t.take(STAT_SLOTS - 1) =~= s.take(STAT_SLOTS - 1));
}

/// The panel never grows: events and stat refreshes keep its height,
/// events land in the event slot only, and the boot lines stay as they are.
pub proof fn law_panel_keeps_its_shape(p: SpecPanel, line: Seq<char>, stats: Seq<Seq<char>>)
    requires
        p.lines.len() == TOTAL_LINES,
    ensures
        spec_event(p, line).lines.len() == TOTAL_LINES,
        spec_event(p, line).lines == p.lines.update((TOTAL_LINES - 1) as int, line),
        spec_fill_stats(p, stats).lines.len() == TOTAL_LINES,
        forall|i: int|
            0 <= i < BOOT_KEEP ==> #[trigger] spec_fill_stats(p, stats).lines[i] == p.lines[i],
    decreases stats.len(),
{
    if stats.len() > 0 {
        let n = if stats.len() > STAT_SLOTS {
            STAT_SLOTS as int
        } else {
            stats.len() as int
        };
        law_panel_keeps_its_shape(p, line, stats.take(n - 1));
    }
}

/// Uptime as `Dd HHh MMm`, or `HHh MMm` under a day.
pub open spec fn spec_uptime_text(total: nat) -> Seq<char> {
    let d = total / 86400;
    let h = (total % 86400) / 3600;
    let m = (total % 3600) / 60;
    let hm = decimal2(h) + "h "@ + decimal2(m) + "m"@;
    if d > 0 {
        decimal(d) + "d "@ + hm
    } else {
        hm
    }
}

/// The uptime of `total` whole seconds.
pub fn uptime_text(total: u64) -> (r: String)
    ensures
        r@ == spec_uptime_text(total as nat),
{
    let d = total / 86400;
    let h = (total % 86400) / 3600;
    let m = (total % 3600) / 60;
    let mut out = String::new();
    if d > 0 {
        push_decimal(&mut out, d);
        push_str(&mut out, "d ");
    }
    push_decimal2(&mut out, h);
    push_str(&mut out, "h ");
    push_decimal2(&mut out, m);
    push_str(&mut out, "m");
    assert(out@ =~= spec_uptime_text(total as nat));
    out
}

/// The three load averages of `/proc/loadavg`, space-separated; `None`
/// when the text has fewer than three fields.
pub open spec fn spec_loadavg_text(text: Seq<char>) -> Option<Seq<char>> {
    let w = words(text);
    if w.len() >= 3 {
        Some(w[0] + seq![' '] + w[1] + seq![' '] + w[2])
    } else {
        None
    }
}

pub fn loadavg_text(text: &str) -> (r: Option<String>)
    ensures
        crate::ui::opt_str(r) == spec_loadavg_text(text@),
{
    let c = chars_of(text);
    let w = word_ranges(&c);
    if w.len() < 3 {
        return None;
    }
    let mut out = string_of(&c, w[0].0, w[0].1);
    push_char(&mut out, ' ');
    push_str(&mut out, string_of(&c, w[1].0, w[1].1).as_str());
    push_char(&mut out, ' ');
    push_str(&mut out, string_of(&c, w[2].0, w[2].1).as_str());
    Some(out)
}

/// Stat slot 0: load and uptime, or uptime alone, or nothing.
pub open spec fn spec_sys_line(load: Option<Seq<char>>, up: Option<Seq<char>>) -> Option<Seq<char>> {
    match (load, up) {
        (Some(l), Some(u)) => Some("[ sys  ] load "@ + l + " · up "@ + u),
        (None, Some(u)) => Some("[ sys  ] up "@ + u),
        _ => None,
    }
}

pub fn sys_line(load: Option<&str>, up: Option<&str>) -> (r: Option<String>)
    ensures
        crate::ui::opt_str(r) == spec_sys_line(
            crate::ui::ascii::opt_str_view(load),
            crate::ui::ascii::opt_str_view(up),
        ),
{
    match (load, up) {
        (Some(l), Some(u)) => {
            let mut out = concat("[ sys  ] load ", l);
            push_str(&mut out, " · up ");
            push_str(&mut out, u);
            Some(out)
        },
        (None, Some(u)) => Some(concat("[ sys  ] up ", u)),
        _ => None,
    }
}

/// The battery's trend glyph for its (lowercased) status.
pub open spec fn spec_battery_icon(status: Seq<char>) -> Seq<char> {
    if status == "charging"@ || status == "full"@ {
        "++"@
    } else if status == "discharging"@ {
        "--"@
    } else {
        "=="@
    }
}

/// The lowercase of a string (`str::to_lowercase`).
pub uninterp spec fn lowercase(s: Seq<char>) -> Seq<char>;

/// `str::to_lowercase`. For ASCII text that is the ASCII lowercase
/// character by character; other text follows the Unicode tables, which
/// this contract only names.
#[verifier::external_body]
fn to_lowercase(s: &str) -> (r: String)
    ensures
        r@ == lowercase(s@),
        crate::ui::osk::all_ascii(s@) ==> r@ == s@.map_values(|c: char| crate::sessions::ascii_lower(c)),
{
    s.to_lowercase()
}

/// The battery line: capacity, trend glyph and lowercased status (status
/// `UNKNOWN` when unreadable).
pub open spec fn spec_battery_text(cap: Seq<char>, status: Option<Seq<char>>) -> Seq<char> {
    let st = lowercase(
        match status {
            Some(s) => s,
            None => "UNKNOWN"@,
        },
    );
    "[ batt ] "@ + cap + "% "@ + spec_battery_icon(st) + " ("@ + st + ")"@
}

pub fn battery_text(cap: &str, status: Option<&str>) -> (r: String)
    ensures
        r@ == spec_battery_text(cap@, crate::ui::ascii::opt_str_view(status)),
{
    let st = match status {
        Some(s) => to_lowercase(s),
        None => to_lowercase("UNKNOWN"),
    };
    let icon = if str_eq(st.as_str(), "charging") || str_eq(st.as_str(), "full") {
        "++"
    } else if str_eq(st.as_str(), "discharging") {
        "--"
    } else {
        "=="
    };
    let mut out = concat("[ batt ] ", cap);
    push_str(&mut out, "% ");
    push_str(&mut out, icon);
    push_str(&mut out, " (");
    push_str(&mut out, st.as_str());
    push_str(&mut out, ")");
    assert(out@ =~= spec_battery_text(cap@, crate::ui::ascii::opt_str_view(status)));
    out
}

/// The boot line for the battery: its stat line, or "absent".
pub fn battery_boot_line(detail: Option<String>) -> (r: String)
    ensures
        r@ == match detail {
            Some(d) => d@,
            None => "[    0.214808] battery .......... absent"@,
        },
{
    match detail {
        Some(d) => d,
        None => "[    0.214808] battery .......... absent".to_string(),
    }
}

/// The typed boot sequence: kernel, memory, battery, then three fixed
/// hardware lines.
pub fn boot_lines(kernel: &str, mem_total: &str, batt: String) -> (r: Vec<String>)
    ensures
        r@.map_values(|l: String| l@) == seq![
            "[    0.000000] linux "@ + kernel@ + " on x86_64"@,
            "[    0.113207] memory mapped .......... "@ + mem_total@,
            batt@,
            "[    0.184221] crt deflection coils .......... ok"@,
            "[    0.390014] scanlines @ 15.6kHz .......... ok"@,
            "[    1.002931] touch entry deck .......... detected"@,
        ],
{
    let mut l0 = concat("[    0.000000] linux ", kernel);
    push_str(&mut l0, " on x86_64");
    let l1 = concat("[    0.113207] memory mapped .......... ", mem_total);
    let mut v: Vec<String> = Vec::new();
    v.push(l0);
    v.push(l1);
    v.push(batt);
    v.push("[    0.184221] crt deflection coils .......... ok".to_string());
    v.push("[    0.390014] scanlines @ 15.6kHz .......... ok".to_string());
    v.push("[    1.002931] touch entry deck .......... detected".to_string());
    assert(v@.map_values(|l: String| l@) =~= seq![
        "[    0.000000] linux "@ + kernel@ + " on x86_64"@,
        "[    0.113207] memory mapped .......... "@ + mem_total@,
        batt@,
        "[    0.184221] crt deflection coils .......... ok"@,
        "[    0.390014] scanlines @ 15.6kHz .......... ok"@,
        "[    1.002931] touch entry deck .......... detected"@,
    ]);
    v
}

} // verus!
