use losker::state::{default_user_from, human_users, parse_state, render_state, State};

#[test]
fn roundtrip() {
    let st = State {
        last_user: Some("rbc".into()),
        last_session: Some("niri-session".into()),
    };
    assert_eq!(parse_state(&render_state(&st)), st);
}

#[test]
fn partial_file() {
    let st = parse_state("user = alice\n");
    assert_eq!(st.last_user.as_deref(), Some("alice"));
    assert_eq!(st.last_session, None);
}

#[test]
fn human_users_filters_system_and_service_accounts() {
    let fixture = "\
root:x:0:0:root:/root:/bin/bash\n\
daemon:x:1:1::/usr/sbin:/usr/sbin/nologin\n\
git:x:988:988::/home/git:/usr/bin/git-shell\n\
svc:x:1001:1001::/var/svc:/sbin/nologin\n\
bot:x:1002:1002::/var/bot:/bin/false\n\
mirror:x:1003:1003::/var/mirror:/bin/sync\n\
nobody:x:65534:65534:nobody:/:/usr/bin/nologin\n\
alice:x:1000:1000:Alice:/home/alice:/bin/fish\n\
garbage line without colons\n\
short:x:1000:1000::/home\n";
    assert_eq!(human_users(fixture), vec!["alice".to_string()]);
}

#[test]
fn human_users_reports_every_candidate_for_the_caller_to_judge() {
    let two = "a:x:1000:0::/home/a:/bin/sh\nb:x:1001:0::/home/b:/bin/sh\n";
    assert_eq!(human_users(two).len(), 2);
    assert!(human_users("root:x:0:0::/root:/bin/bash\n").is_empty());
    let one = "a:x:1000:0::/home/a:/bin/sh\n";
    let users = human_users(one);
    assert_eq!(users.len(), 1, "one candidate must stay one");
}

#[test]
fn default_user_needs_exactly_one_human() {
    assert_eq!(
        default_user_from("a:x:1000:0::/home/a:/bin/sh\n"),
        Some("a".to_string())
    );
    assert_eq!(
        default_user_from("a:x:1000:0::/home/a:/bin/sh\nb:x:1001:0::/home/b:/bin/sh\n"),
        None
    );
    assert_eq!(default_user_from(""), None);
}

#[test]
fn empty_state_saves_as_empty_file_and_reads_back() {
    let st = State { last_user: None, last_session: None };
    assert_eq!(render_state(&st), "");
    assert_eq!(parse_state(""), st);
}

#[test]
fn state_file_lines_are_exact() {
    let st = State {
        last_user: Some("bob".into()),
        last_session: Some("sway".into()),
    };
    assert_eq!(render_state(&st), "user = bob\nsession = sway\n");
}

#[test]
fn uid_bounds_decide_humanity() {
    // 999 is a system uid, 1000 a human one, 65534 is nobody
    assert!(human_users("s:x:999:0::/h:/bin/sh\n").is_empty());
    assert_eq!(human_users("h:x:1000:0::/h:/bin/sh\n").len(), 1);
    assert!(human_users("n:x:65534:0::/h:/bin/sh\n").is_empty());
    assert!(human_users("o:x:99999999999:0::/h:/bin/sh\n").is_empty());
}
