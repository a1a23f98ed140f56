use website::cli::{CliError, Debouncer, Subcommand, QUIET_MILLIS};

#[test]
fn subcommands_are_recognised() {
    assert_eq!(Subcommand::parse(Some("clean")), Ok(Subcommand::Clean));
    assert_eq!(Subcommand::parse(Some("watch")), Ok(Subcommand::Watch));
    assert_eq!(Subcommand::parse(Some("build")), Ok(Subcommand::Build));
}

#[test]
fn missing_subcommand_is_refused() {
    assert_eq!(Subcommand::parse(None), Err(CliError::NoSubcommand));
}

#[test]
fn unknown_subcommand_is_refused() {
    assert_eq!(
        Subcommand::parse(Some("serve")),
        Err(CliError::InvalidSubcommand("serve".to_string()))
    );
    assert_eq!(
        Subcommand::parse(Some("Build")),
        Err(CliError::InvalidSubcommand("Build".to_string()))
    );
}

const MS: u128 = 1_000_000;

#[test]
fn changes_within_the_quiet_period_are_ignored() {
    let mut d = Debouncer::new(1_000 * MS);
    assert!(!d.should_rebuild(1_000 * MS));
    assert!(!d.should_rebuild(1_499 * MS + 999_999));
    assert!(d.should_rebuild(1_500 * MS));
    assert!(!d.should_rebuild(1_999 * MS));
    assert!(d.should_rebuild(2_000 * MS));
}

#[test]
fn ignored_changes_do_not_restart_the_period() {
    let mut d = Debouncer::new(0);
    assert!(!d.should_rebuild(400 * MS));
    assert!(d.should_rebuild(500 * MS));
}

#[test]
fn clock_going_back_is_ignored() {
    let mut d = Debouncer::new(10_000 * MS);
    assert!(!d.should_rebuild(1 * MS));
    assert!(d.should_rebuild(10_500 * MS));
}

#[test]
fn quiet_period_is_half_a_second() {
    assert_eq!(QUIET_MILLIS, 500);
}
