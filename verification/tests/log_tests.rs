use ste_proxy::log::{Level, LevelFilter, Logger};

#[test]
fn enabled_up_to_filter() {
    let l = Logger;
    assert!(l.enabled(Level::Error, LevelFilter::Error));
    assert!(!l.enabled(Level::Warn, LevelFilter::Error));
    assert!(l.enabled(Level::Trace, LevelFilter::Trace));
    assert!(l.enabled(Level::Info, LevelFilter::Debug));
    assert!(!l.enabled(Level::Debug, LevelFilter::Info));
}

#[test]
fn nothing_enabled_when_off() {
    let l = Logger;
    assert!(!l.enabled(Level::Error, LevelFilter::Off));
    assert!(!l.enabled(Level::Trace, LevelFilter::Off));
}
