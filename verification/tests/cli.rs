use losker::cli::{command, Command};

#[test]
fn first_argument_picks_the_program() {
    assert_eq!(command(None), Command::Greeter);
    assert_eq!(command(Some("--version")), Command::Version);
    assert_eq!(command(Some("-V")), Command::Version);
    assert_eq!(command(Some("--demo-g")), Command::DemoGreeter);
    assert_eq!(command(Some("--demo-l")), Command::DemoLock);
    assert_eq!(command(Some("--lock")), Command::Lock);
    assert_eq!(command(Some("--config")), Command::Config);
    assert_eq!(command(Some("--nope")), Command::Unknown("--nope".into()));
}
