use quip::config::{Backtraces, Config};

#[test]
fn default_config_shows_backtraces() {
    assert_eq!(Config::new().backtraces(), &Backtraces::Show);
    assert_eq!(Config::default().backtraces(), &Backtraces::Show);
    assert!(!Config::new().backtraces().is_hide());
}

#[test]
fn hide_and_show_backtraces_override_each_other() {
    let hidden = Config::new().hide_backtraces();
    assert!(hidden.backtraces().is_hide());
    assert_eq!(hidden.backtraces(), &Backtraces::Hide);
    let shown = hidden.show_backtraces();
    assert!(!shown.backtraces().is_hide());
    assert!(Config::new().show_backtraces().hide_backtraces().backtraces().is_hide());
}

#[test]
fn backtraces_constructors() {
    assert_eq!(Backtraces::show(), Backtraces::Show);
    assert_eq!(Backtraces::hidden(), Backtraces::Hide);
    assert_eq!(Backtraces::default(), Backtraces::Show);
    assert!(Backtraces::hidden().is_hide());
    assert!(!Backtraces::show().is_hide());
}
