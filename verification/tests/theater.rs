use losker::ui::crt::{jitter, xorshift};
use losker::ui::theater::{
    battery_boot_line, battery_text, boot_lines, loadavg_text, sys_line, uptime_text, BootPanel,
    TOTAL_LINES,
};

#[test]
fn panel_is_full_height_from_the_start_and_events_take_one_slot() {
    let mut p = BootPanel::new();
    assert_eq!(p.lines.len(), TOTAL_LINES);
    assert_eq!(p.text(), "\n".repeat(TOTAL_LINES - 1));
    p.set_line(0, "boot");
    p.set_line(99, "ignored");
    assert_eq!(p.lines[0], "boot");
    p.event("early");
    p.event("later");
    assert_eq!(p.lines.len(), TOTAL_LINES);
    assert_eq!(p.lines[TOTAL_LINES - 1], "later");
    assert_eq!(p.lines[0], "boot");
}

#[test]
fn frozen_panel_never_grows() {
    let mut p = BootPanel::new();
    let stats: Vec<String> = ["a", "b", "c", "d", "e"].iter().map(|s| s.to_string()).collect();
    p.freeze(&stats);
    assert!(p.stats_on);
    assert_eq!(&p.lines[6..10], &["a", "b", "c", "d"]);
    p.event("[  OK  ] authentication passed");
    p.event("[ FAILED ] again");
    assert_eq!(p.lines.len(), TOTAL_LINES);
    assert_eq!(p.lines[10], "[ FAILED ] again");
    p.fill_stats(&vec!["z".to_string()]);
    assert_eq!(p.lines[6], "z");
    assert_eq!(p.lines[7], "b");
}

#[test]
fn uptime_reads_days_hours_minutes() {
    assert_eq!(uptime_text(59), "00h 00m");
    assert_eq!(uptime_text(3 * 3600 + 7 * 60 + 5), "03h 07m");
    assert_eq!(uptime_text(2 * 86400 + 13 * 3600 + 45 * 60), "2d 13h 45m");
}

#[test]
fn loadavg_and_sys_line() {
    assert_eq!(loadavg_text("0.52 0.58 0.59 1/1134 4242\n").as_deref(), Some("0.52 0.58 0.59"));
    assert_eq!(loadavg_text("0.1 0.2"), None);
    assert_eq!(sys_line(Some("0.1 0.2 0.3"), Some("01h 02m")).as_deref(), Some("[ sys  ] load 0.1 0.2 0.3 · up 01h 02m"));
    assert_eq!(sys_line(None, Some("01h 02m")).as_deref(), Some("[ sys  ] up 01h 02m"));
    assert_eq!(sys_line(Some("x"), None), None);
}

#[test]
fn battery_lines() {
    assert_eq!(battery_text("87", Some("Charging")), "[ batt ] 87% ++ (charging)");
    assert_eq!(battery_text("100", Some("Full")), "[ batt ] 100% ++ (full)");
    assert_eq!(battery_text("40", Some("Discharging")), "[ batt ] 40% -- (discharging)");
    assert_eq!(battery_text("40", None), "[ batt ] 40% == (unknown)");
    assert_eq!(battery_boot_line(None), "[    0.214808] battery .......... absent");
    assert_eq!(battery_boot_line(Some("x".into())), "x");
}

#[test]
fn boot_sequence_lines() {
    let l = boot_lines("6.9.1", "15.5G", "[ batt ] 1% -- (discharging)".into());
    assert_eq!(l.len(), 6);
    assert_eq!(l[0], "[    0.000000] linux 6.9.1 on x86_64");
    assert_eq!(l[1], "[    0.113207] memory mapped .......... 15.5G");
    assert_eq!(l[5], "[    1.002931] touch entry deck .......... detected");
}

#[test]
fn crt_jitter_is_an_xorshift_walk() {
    let a = xorshift(0x9e3779b9);
    let b = xorshift(a);
    assert_eq!((a, b), (1359758873, 3761132862));
    assert_eq!((jitter(a), jitter(b)), (423, 212));
}
