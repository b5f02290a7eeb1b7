use losker::sessions::{is_desktop_file, parse_entry, sort_sessions, Session};

fn list_of(files: &[(&str, &str)]) -> Vec<Session> {
    files
        .iter()
        .filter(|(name, _)| is_desktop_file(name))
        .filter_map(|(_, text)| parse_entry(text))
        .collect()
}

#[test]
fn parses_and_filters() {
    let mut s = list_of(&[
        ("niri.desktop", "[Desktop Entry]\nName=Niri\nExec=niri-session\n"),
        ("hidden.desktop", "[Desktop Entry]\nName=Hidden\nExec=x\nNoDisplay=true\n"),
        ("bash.desktop", "[Desktop Entry]\nName=Bash\nExec=bash\n"),
        ("noexec.desktop", "[Desktop Entry]\nName=NoExec\n"),
    ]);
    s.sort_by(|a, b| a.name.cmp(&b.name));
    assert_eq!(s.len(), 2);
    assert_eq!(s[0].name, "Bash");
    assert_eq!(s[1].name, "Niri");
    assert_eq!(s[1].cmd, "niri-session");
}

#[test]
fn niri_sorts_first() {
    let s = list_of(&[
        ("a.desktop", "[Desktop Entry]\nName=Alpha\nExec=a\n"),
        ("n.desktop", "[Desktop Entry]\nName=niri\nExec=niri-session\n"),
    ]);
    let s = sort_sessions(s);
    assert_eq!(s[0].name, "niri");
}

#[test]
fn sort_puts_niri_first_then_by_name() {
    let mk = |n: &str| Session { name: n.into(), cmd: n.to_lowercase() };
    let s = sort_sessions(vec![mk("Sway"), mk("GNOME"), mk("NIRI"), mk("Bash")]);
    let names: Vec<&str> = s.iter().map(|x| x.name.as_str()).collect();
    assert_eq!(names, vec!["NIRI", "Bash", "GNOME", "Sway"]);
}

#[test]
fn only_desktop_files_count() {
    assert!(is_desktop_file("x.desktop"));
    assert!(!is_desktop_file(".desktop"));
    assert!(!is_desktop_file("x.desktop.bak"));
    assert!(!is_desktop_file("desktop"));
}

#[test]
fn sessions_that_sort_alike_keep_their_order() {
    let s = sort_sessions(vec![
        Session { name: "Sway".into(), cmd: "sway-a".into() },
        Session { name: "Niri".into(), cmd: "niri-1".into() },
        Session { name: "Sway".into(), cmd: "sway-b".into() },
        Session { name: "niri".into(), cmd: "niri-2".into() },
    ]);
    let cmds: Vec<&str> = s.iter().map(|x| x.cmd.as_str()).collect();
    // "Niri" < "niri" by code point; the two Sways keep their order
    assert_eq!(cmds, vec!["niri-1", "niri-2", "sway-a", "sway-b"]);
}
