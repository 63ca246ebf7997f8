use crucible::{App, Configuration, CurrentScreen};

fn config() -> Configuration {
    Configuration::with_defaults(
        "/backups".to_string(),
        vec![("a".to_string(), "".to_string()), ("b".to_string(), "b".to_string())],
    )
}

#[test]
fn defaults() {
    let c = config();
    assert_eq!(c.frequency, 15 * 60 * 1000);
    assert_eq!(c.max_backups, 10);
    assert!(c.is_valid());
}

#[test]
fn edits() {
    let mut c = config();
    assert!(!c.set_max_backups(0));
    assert_eq!(c.max_backups, 10);
    assert!(c.set_max_backups(5));
    assert_eq!(c.max_backups, 5);
    assert!(c.remove_target(0));
    assert_eq!(c.targets, vec![("b".to_string(), "b".to_string())]);
    assert!(!c.remove_target(3));
    assert_eq!(c.targets.len(), 1);
}

#[test]
fn app_views() {
    let mut app = App::new(config());
    assert!(app.current_screen == CurrentScreen::Main);
    app.set_view(CurrentScreen::Backups);
    assert!(app.current_screen == CurrentScreen::Backups);
    assert_eq!(app.next_backup, 0);
}

#[test]
fn description() {
    let c = config();
    assert_eq!(c.describe(), "target: '/backups', frequency: 900 seconds, max_backups: 10");
    let mut d = c.clone();
    d.frequency = 999;
    d.max_backups = 255;
    assert_eq!(d.describe(), "target: '/backups', frequency: 0 seconds, max_backups: 255");
}
